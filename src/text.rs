use vstd::prelude::*;

verus! {

/// The line terminator of a buffer's text.
pub open spec fn is_terminator(c: char) -> bool {
    c == '\n'
}

/// Splits `t` left to right: the lines already closed by a terminator, and the
/// characters of the line still open at the end of `t`.
pub open spec fn scan(t: Seq<char>) -> (Seq<Seq<char>>, Seq<char>)
    decreases t.len(),
{
    if t.len() == 0 {
        (seq![], seq![])
    } else {
        let (done, open) = scan(t.drop_last());
        if is_terminator(t.last()) {
            (done.push(open), seq![])
        } else {
            (done, open.push(t.last()))
        }
    }
}

/// The lines of `t`, without their terminators. A terminator at the very end
/// closes the last line and does not start an empty one; text that ends without
/// one still ends with a line.
pub open spec fn lines_of(t: Seq<char>) -> Seq<Seq<char>> {
    let (done, open) = scan(t);
    if open.len() == 0 {
        done
    } else {
        done.push(open)
    }
}

/// Whether the text ends with a terminator.
pub open spec fn ends_with_terminator(t: Seq<char>) -> bool {
    t.len() > 0 && is_terminator(t.last())
}

/// How many terminators `t` holds.
pub open spec fn terminator_count(t: Seq<char>) -> nat
    decreases t.len(),
{
    if t.len() == 0 {
        0
    } else {
        terminator_count(t.drop_last()) + if is_terminator(t.last()) {
            1nat
        } else {
            0nat
        }
    }
}

/// The number of lines of `t`: one per terminator, and one more for characters
/// after the last terminator.
pub open spec fn line_count_of(t: Seq<char>) -> nat {
    terminator_count(t) + if t.len() > 0 && !ends_with_terminator(t) {
        1nat
    } else {
        0nat
    }
}

/// Each line followed by a terminator, one after the other.
pub open spec fn terminated(ls: Seq<Seq<char>>) -> Seq<char>
    decreases ls.len(),
{
    if ls.len() == 0 {
        seq![]
    } else {
        terminated(ls.drop_last()) + ls.last().push('\n')
    }
}

/// The lines joined back into text: each line is followed by a terminator, but
/// the last one only when `trailing` holds.
pub open spec fn rejoin(ls: Seq<Seq<char>>, trailing: bool) -> Seq<char> {
    if ls.len() == 0 || trailing {
        terminated(ls)
    } else {
        terminated(ls.drop_last()) + ls.last()
    }
}

proof fn lemma_scan(t: Seq<char>)
    ensures
        scan(t).0.len() == terminator_count(t),
        (scan(t).1.len() == 0) <==> (t.len() == 0 || ends_with_terminator(t)),
        terminated(scan(t).0) + scan(t).1 == t,
        forall|i: int| 0 <= i < scan(t).0.len() ==> !scan(t).0[i].contains('\n'),
        !scan(t).1.contains('\n'),
    decreases t.len(),
{
    if t.len() > 0 {
        let p = t.drop_last();
        lemma_scan(p);
        let (done, open) = scan(p);
        if is_terminator(t.last()) {
            assert(done.push(open).drop_last() == done);
            assert(terminated(done.push(open)) + seq![] == terminated(done) + open.push('\n'));
            assert(t == p.push(t.last()));
            assert(terminated(done) + open.push('\n') == (terminated(done) + open).push('\n'));
            assert forall|i: int| 0 <= i < done.push(open).len() implies !done.push(open)[i].contains('\n') by {
                if i < done.len() {
                    assert(done.push(open)[i] == done[i]);
                }
            }
            assert(!Seq::<char>::empty().contains('\n'));
        } else {
            assert(t == p.push(t.last()));
            assert(terminated(done) + open.push(t.last()) == (terminated(done) + open).push(t.last()));
            assert forall|j: int| 0 <= j < open.push(t.last()).len() implies open.push(t.last())[j] != '\n' by {
                if j < open.len() {
                    assert(open.push(t.last())[j] == open[j]);
                }
            }
        }
    }
}

/// Every line of the text is free of terminators, and the text holds exactly
/// `line_count_of` lines: one per terminator, plus one for a last line that
/// ends without a terminator.
pub proof fn lemma_line_count(t: Seq<char>)
    ensures
        lines_of(t).len() == line_count_of(t),
        forall|i: int| 0 <= i < lines_of(t).len() ==> !lines_of(t)[i].contains('\n'),
{
    lemma_scan(t);
    let (done, open) = scan(t);
    if open.len() > 0 {
        assert forall|i: int| 0 <= i < lines_of(t).len() implies !lines_of(t)[i].contains('\n') by {
            if i < done.len() {
                assert(done.push(open)[i] == done[i]);
            }
        }
    }
}

/// Joining the lines with the terminator, and ending with one exactly when the
/// text did, gives back the text.
pub proof fn lemma_round_trip(t: Seq<char>)
    ensures
        rejoin(lines_of(t), ends_with_terminator(t)) == t,
{
    lemma_scan(t);
    let (done, open) = scan(t);
    if open.len() == 0 {
        assert(terminated(done) + open == terminated(done));
    } else {
        assert(done.push(open).drop_last() == done);
    }
}

} // verus!
