use vstd::prelude::*;

use ropey::Rope;

use crate::text::{lines_of, scan};

verus! {

#[verifier::external_type_specification]
#[verifier::external_body]
pub struct ExRope(ropey::Rope);

/// The characters that a rope holds, in order.
pub uninterp spec fn rope_text(r: Rope) -> Seq<char>;

/// What the bytes `b` say when read as UTF-8: `None` where they are not valid
/// UTF-8.
pub uninterp spec fn utf8_text(b: Seq<u8>) -> Option<Seq<char>>;

/// Relies on `Rope::len_chars`: the number of characters in the rope.
pub assume_specification[ ropey::Rope::len_chars ](r: &ropey::Rope) -> (n: usize)
    ensures
        n == rope_text(*r).len(),
;

/// Relies on `Rope::char`: the character at a char index; it panics on an index
/// past the end.
pub assume_specification[ ropey::Rope::char ](r: &ropey::Rope, char_idx: usize) -> (c: char)
    requires
        char_idx < rope_text(*r).len(),
    ensures
        c == rope_text(*r)[char_idx as int],
;

/// Relies on `Rope::from_str`: a rope that holds exactly the characters of `s`.
#[verifier::external_body]
fn rope_from_str(s: &str) -> (r: Rope)
    ensures
        rope_text(r) == s@,
{
    Rope::from_str(s)
}

/// Relies on `Rope::from_reader` over an in-memory slice: it reads every byte,
/// fails exactly when they are not valid UTF-8, and otherwise holds their text.
#[verifier::external_body]
fn rope_from_utf8(b: &[u8]) -> (r: Option<Rope>)
    ensures
        r is Some <==> utf8_text(b@) is Some,
        r is Some ==> rope_text(r->Some_0) == utf8_text(b@)->Some_0,
{
    Rope::from_reader(b).ok()
}

/// Relies on `Rope::slice` and the text of the slice: the characters from
/// `start` up to `end`; `slice` panics unless `start <= end <= len_chars`.
#[verifier::external_body]
fn rope_slice_string(r: &Rope, start: usize, end: usize) -> (s: String)
    requires
        start <= end <= rope_text(*r).len(),
    ensures
        s@ == rope_text(*r).subrange(start as int, end as int),
{
    r.slice(start..end).to_string()
}

/// Why a file could not become a buffer.
#[derive(Debug, Clone, Copy, PartialEq, Eq, Structural)]
pub enum LoadError {
    /// Nothing exists at the path.
    NotFound,
    /// The file exists but may not be read.
    PermissionDenied,
    /// The bytes are not valid UTF-8 text.
    InvalidEncoding,
    /// Reading failed for another reason.
    Other,
}

/// The text of one file, or of a scratch buffer that has no file.
pub struct Buffer {
    pub buf: Rope,
    pub file_path: Option<String>,
}

/// The title under which a buffer with this path is shown.
pub open spec fn title_of(path: Option<Seq<char>>) -> Seq<char> {
    match path {
        Some(p) => p,
        None => "<scratch>"@,
    }
}

impl Buffer {
    /// The buffer's text.
    pub open spec fn text(&self) -> Seq<char> {
        rope_text(self.buf)
    }

    /// The buffer's file path; `None` for a scratch buffer.
    pub open spec fn path(&self) -> Option<Seq<char>> {
        match self.file_path {
            Some(p) => Some(p@),
            None => None,
        }
    }

    /// A buffer holding `text`, bound to `path` if one is given.
    pub fn from_text(text: &str, path: Option<String>) -> (r: Buffer)
        ensures
            r.text() == text@,
            r.file_path == path,
    {
        Buffer { buf: rope_from_str(text), file_path: path }
    }

    /// An empty buffer with no file.
    pub fn scratch() -> (r: Buffer)
        ensures
            r.text() == Seq::<char>::empty(),
            r.path() is None,
    {
        proof {
            reveal_strlit("");
        }
        Buffer::from_text("", None)
    }

    /// The buffer for the file at `path`, once its bytes were decoded: `None`
    /// stands for bytes that are not valid text.
    pub fn from_decoded(path: &str, decoded: Option<Rope>) -> (r: Result<Buffer, LoadError>)
        ensures
            match decoded {
                None => r == Err::<Buffer, LoadError>(LoadError::InvalidEncoding),
                Some(rope) => r is Ok && r->Ok_0.buf == rope && r->Ok_0.path() == Some(path@),
            },
    {
        match decoded {
            None => Err(LoadError::InvalidEncoding),
            Some(buf) => Ok(Buffer { buf, file_path: Some(path.to_owned()) }),
        }
    }

    /// The buffer for the file at `path`, given what reading the file gave:
    /// its bytes, or the error that reading met. A read error is passed on as it
    /// is; bytes that are not valid UTF-8 give `InvalidEncoding`; no buffer is
    /// made on any failure.
    pub fn open(path: &str, contents: Result<Vec<u8>, LoadError>) -> (r: Result<Buffer, LoadError>)
        ensures
            match contents {
                Err(e) => r == Err::<Buffer, LoadError>(e),
                Ok(bytes) => match utf8_text(bytes@) {
                    None => r == Err::<Buffer, LoadError>(LoadError::InvalidEncoding),
                    Some(t) => r is Ok && r->Ok_0.text() == t && r->Ok_0.path() == Some(path@),
                },
            },
    {
        match contents {
            Err(e) => Err(e),
            Ok(bytes) => Buffer::from_decoded(path, rope_from_utf8(bytes.as_slice())),
        }
    }

    /// The number of characters in the buffer.
    pub fn len_chars(&self) -> (n: usize)
        ensures
            n == self.text().len(),
    {
        self.buf.len_chars()
    }

    /// The lines of the buffer in document order, without their terminators;
    /// a terminator at the end of the text starts no further line.
    pub fn lines(&self) -> (r: Vec<String>)
        ensures
            r@.len() == lines_of(self.text()).len(),
            forall|k: int| 0 <= k < r@.len() ==> r@[k]@ == lines_of(self.text())[k],
    {
        let ghost t = self.text();
        let n = self.buf.len_chars();
        let mut out: Vec<String> = Vec::new();
        let mut start: usize = 0;
        let mut i: usize = 0;
        assert(t.take(0) == Seq::<char>::empty());
        while i < n
            invariant
                n == t.len(),
                t == self.text(),
                start <= i <= n,
                out@.len() == scan(t.take(i as int)).0.len(),
                forall|k: int| 0 <= k < out@.len() ==> out@[k]@ == scan(t.take(i as int)).0[k],
                scan(t.take(i as int)).1 == t.subrange(start as int, i as int),
            decreases n - i,
        {
            let c = self.buf.char(i);
            assert(t.take(i + 1).drop_last() == t.take(i as int));
            assert(t.take(i + 1).last() == c);
            if c == '\n' {
                let line = rope_slice_string(&self.buf, start, i);
                out.push(line);
                start = i + 1;
                assert(t.subrange(start as int, start as int) == Seq::<char>::empty());
            } else {
                assert(t.subrange(start as int, i + 1) == t.subrange(start as int, i as int).push(c));
            }
            i = i + 1;
        }
        assert(t.take(n as int) == t);
        if start < n {
            let line = rope_slice_string(&self.buf, start, n);
            out.push(line);
        }
        out
    }

    /// How many lines `lines` gives.
    pub fn line_count(&self) -> (n: usize)
        ensures
            n == lines_of(self.text()).len(),
    {
        self.lines().len()
    }

    /// The title shown above the buffer: its path, or `<scratch>` for a buffer
    /// with no file.
    pub fn title(&self) -> (r: String)
        ensures
            r@ == title_of(self.path()),
    {
        match &self.file_path {
            Some(p) => p.clone(),
            None => "<scratch>".to_owned(),
        }
    }
}

} // verus!
