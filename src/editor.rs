use vstd::prelude::*;

use crate::buffer::{Buffer, LoadError, utf8_text};

verus! {

/// A view onto one buffer, named by the buffer's identifier.
#[derive(Debug, Clone, Copy, PartialEq, Eq, Structural)]
pub struct Window {
    pub buffer: usize,
}

impl Window {
    /// A window bound to the buffer with identifier `buffer`.
    pub fn new(buffer: usize) -> (w: Window)
        ensures
            w.buffer == buffer,
    {
        Window { buffer }
    }

    /// The half-open range of line indices to draw for a buffer of `line_count`
    /// lines, starting at `scroll_offset` clamped to the buffer. The viewport
    /// height does not clip the range: every line from the start on is asked
    /// for.
    pub fn visible_range(&self, line_count: usize, _viewport_height: usize, scroll_offset: usize) -> (r: (usize, usize))
        ensures
            r.0 == if scroll_offset < line_count { scroll_offset } else { line_count },
            r.1 == line_count,
    {
        let start = if scroll_offset < line_count { scroll_offset } else { line_count };
        (start, line_count)
    }
}

/// Whether a window is on a buffer other than the one with identifier `id`.
pub open spec fn not_on(id: usize) -> spec_fn(Window) -> bool {
    |w: Window| w.buffer != id
}

proof fn lemma_filter_none_dropped(s: Seq<Window>, id: usize)
    requires
        forall|k: int| 0 <= k < s.len() ==> s[k].buffer != id,
    ensures
        s.filter(not_on(id)) == s,
    decreases s.len(),
{
    reveal(Seq::filter);
    if s.len() > 0 {
        lemma_filter_none_dropped(s.drop_last(), id);
        assert(s.drop_last().push(s.last()) == s);
    }
}

/// A buffer of the session with its identifier.
pub struct BufferEntry {
    pub id: usize,
    pub buffer: Buffer,
}

/// The buffers and windows of one editing session.
pub struct EditorState {
    pub buffers: Vec<BufferEntry>,
    pub windows: Vec<Window>,
    pub next_id: usize,
}

impl EditorState {
    /// Whether a buffer with identifier `id` is in the session.
    pub open spec fn has_buffer(&self, id: usize) -> bool {
        exists|i: int| 0 <= i < self.buffers@.len() && #[trigger] self.buffers@[i].id == id
    }

    /// Identifiers are unique and below `next_id`, and every window names a
    /// buffer of the session.
    pub open spec fn wf(&self) -> bool {
        &&& forall|i: int, j: int|
            0 <= i < j < self.buffers@.len() ==> self.buffers@[i].id != self.buffers@[j].id
        &&& forall|i: int| 0 <= i < self.buffers@.len() ==> self.buffers@[i].id < self.next_id
        &&& forall|w: int| 0 <= w < self.windows@.len() ==> self.has_buffer(#[trigger] self.windows@[w].buffer)
    }

    /// Whether another identifier can still be handed out.
    pub open spec fn has_room(&self) -> bool {
        self.next_id < usize::MAX
    }

    /// An empty session.
    pub fn new() -> (s: EditorState)
        ensures
            s.wf(),
            s.buffers@.len() == 0,
            s.windows@.len() == 0,
            s.has_room(),
    {
        EditorState { buffers: Vec::new(), windows: Vec::new(), next_id: 0 }
    }

    /// Whether another buffer can be added.
    pub fn can_add_buffer(&self) -> (r: bool)
        ensures
            r == self.has_room(),
    {
        self.next_id < usize::MAX
    }

    /// Adds `buffer` under a fresh identifier, which is returned.
    pub fn add_buffer(&mut self, buffer: Buffer) -> (id: usize)
        requires
            old(self).wf(),
            old(self).has_room(),
        ensures
            final(self).wf(),
            id == old(self).next_id,
            !old(self).has_buffer(id),
            final(self).next_id == id + 1,
            final(self).buffers@ == old(self).buffers@.push(BufferEntry { id, buffer }),
            final(self).windows@ == old(self).windows@,
    {
        let id = self.next_id;
        self.buffers.push(BufferEntry { id, buffer });
        self.next_id = id + 1;
        assert forall|w: int| 0 <= w < self.windows@.len() implies self.has_buffer(
            #[trigger] self.windows@[w].buffer,
        ) by {
            let b = self.windows@[w].buffer;
            assert(old(self).has_buffer(b));
            let i = choose|i: int| 0 <= i < old(self).buffers@.len() && #[trigger] old(self).buffers@[i].id == b;
            assert(self.buffers@[i] == old(self).buffers@[i]);
        }
        id
    }

    /// The position of the buffer with identifier `id`, if it is in the session.
    pub fn find_buffer(&self, id: usize) -> (r: Option<usize>)
        ensures
            match r {
                Some(i) => i < self.buffers@.len() && self.buffers@[i as int].id == id,
                None => !self.has_buffer(id),
            },
    {
        let mut i: usize = 0;
        while i < self.buffers.len()
            invariant
                i <= self.buffers@.len(),
                forall|k: int| 0 <= k < i ==> self.buffers@[k].id != id,
            decreases self.buffers@.len() - i,
        {
            if self.buffers[i].id == id {
                return Some(i);
            }
            i = i + 1;
        }
        None
    }

    /// The buffer with identifier `id`, if it is in the session.
    pub fn buffer(&self, id: usize) -> (r: Option<&Buffer>)
        ensures
            match r {
                Some(b) => exists|i: int|
                    0 <= i < self.buffers@.len() && #[trigger] self.buffers@[i].id == id
                        && self.buffers@[i].buffer == *b,
                None => !self.has_buffer(id),
            },
    {
        match self.find_buffer(id) {
            Some(i) => Some(&self.buffers[i].buffer),
            None => None,
        }
    }

    /// Opens a window on the buffer with identifier `id` and returns the
    /// window's position; `None`, with nothing changed, where no such buffer is
    /// in the session.
    pub fn open_window(&mut self, id: usize) -> (r: Option<usize>)
        requires
            old(self).wf(),
        ensures
            final(self).wf(),
            final(self).buffers@ == old(self).buffers@,
            final(self).next_id == old(self).next_id,
            match r {
                Some(w) => old(self).has_buffer(id) && w == old(self).windows@.len()
                    && final(self).windows@ == old(self).windows@.push(Window { buffer: id }),
                None => !old(self).has_buffer(id) && final(self).windows@ == old(self).windows@,
            },
    {
        match self.find_buffer(id) {
            None => None,
            Some(i) => {
                let w = self.windows.len();
                self.windows.push(Window::new(id));
                assert(self.buffers@[i as int].id == id);
                assert forall|v: int| 0 <= v < self.windows@.len() implies self.has_buffer(
                    #[trigger] self.windows@[v].buffer,
                ) by {
                    if v < w {
                        assert(self.windows@[v] == old(self).windows@[v]);
                    }
                }
                Some(w)
            },
        }
    }

    /// Removes the buffer with identifier `id` and, in the same step, every
    /// window on it; returns the buffer, or `None` with nothing changed where no
    /// such buffer is in the session.
    pub fn remove_buffer(&mut self, id: usize) -> (r: Option<Buffer>)
        requires
            old(self).wf(),
        ensures
            final(self).wf(),
            final(self).next_id == old(self).next_id,
            !final(self).has_buffer(id),
            match r {
                Some(b) => exists|i: int|
                    0 <= i < old(self).buffers@.len() && #[trigger] old(self).buffers@[i].id == id
                        && old(self).buffers@[i].buffer == b
                        && final(self).buffers@ == old(self).buffers@.remove(i),
                None => !old(self).has_buffer(id) && final(self).buffers@ == old(self).buffers@,
            },
            final(self).windows@ == old(self).windows@.filter(not_on(id)),
    {
        match self.find_buffer(id) {
            None => {
                proof {
                    self.lemma_filter_keeps_all(id);
                }
                None
            },
            Some(i) => {
                let entry = self.buffers.remove(i);
                let ghost old_windows = self.windows@;
                let mut kept: Vec<Window> = Vec::new();
                let mut k: usize = 0;
                assert(old_windows.take(0) == Seq::<Window>::empty());
                while k < self.windows.len()
                    invariant
                        self.windows@ == old_windows,
                        k <= old_windows.len(),
                        kept@ == old_windows.take(k as int).filter(not_on(id)),
                    decreases old_windows.len() - k,
                {
                    let w = self.windows[k];
                    assert(old_windows.take(k + 1).drop_last() == old_windows.take(k as int));
                    proof {
                        let t = old_windows.take(k + 1);
                        assert(t.last() == w);
                        assert(t.len() > 0);
                        assert(not_on(id)(w) == (w.buffer != id));
                        reveal(Seq::filter);
                        assert(t.filter(not_on(id)) == if not_on(id)(t.last()) {
                            t.drop_last().filter(not_on(id)).push(t.last())
                        } else {
                            t.drop_last().filter(not_on(id))
                        });
                    }
                    assert(old_windows.take(k + 1).filter(not_on(id)) == if w.buffer != id {
                        old_windows.take(k as int).filter(not_on(id)).push(w)
                    } else {
                        old_windows.take(k as int).filter(not_on(id))
                    });
                    if w.buffer != id {
                        kept.push(w);
                    }
                    k = k + 1;
                }
                assert(old_windows.take(old_windows.len() as int) == old_windows);
                self.windows = kept;
                proof {
                    self.lemma_removed_is_wf(*old(self), i as int, id);
                }
                Some(entry.buffer)
            },
        }
    }

    proof fn lemma_filter_keeps_all(&self, id: usize)
        requires
            self.wf(),
            !self.has_buffer(id),
        ensures
            self.windows@.filter(not_on(id)) == self.windows@,
    {
        assert forall|k: int| 0 <= k < self.windows@.len() implies self.windows@[k].buffer != id by {
            assert(self.has_buffer(self.windows@[k].buffer));
        }
        lemma_filter_none_dropped(self.windows@, id);
    }

    proof fn lemma_removed_is_wf(&self, before: EditorState, i: int, id: usize)
        requires
            before.wf(),
            0 <= i < before.buffers@.len(),
            before.buffers@[i].id == id,
            self.buffers@ == before.buffers@.remove(i),
            self.next_id == before.next_id,
            self.windows@ == before.windows@.filter(not_on(id)),
        ensures
            self.wf(),
            !self.has_buffer(id),
    {
        broadcast use vstd::seq_lib::group_filter_ensures;
        assert forall|a: int, b: int| 0 <= a < b < self.buffers@.len() implies self.buffers@[a].id
            != self.buffers@[b].id by {
            let a0 = if a < i { a } else { a + 1 };
            let b0 = if b < i { b } else { b + 1 };
            assert(self.buffers@[a] == before.buffers@[a0]);
            assert(self.buffers@[b] == before.buffers@[b0]);
        }
        assert forall|a: int| 0 <= a < self.buffers@.len() implies self.buffers@[a].id < self.next_id by {
            let a0 = if a < i { a } else { a + 1 };
            assert(self.buffers@[a] == before.buffers@[a0]);
        }
        assert forall|w: int| 0 <= w < self.windows@.len() implies self.has_buffer(
            #[trigger] self.windows@[w].buffer,
        ) by {
            let v = self.windows@[w];
            assert(before.windows@.filter(not_on(id)).contains(v));
            before.windows@.lemma_filter_contains_rev(not_on(id), v);
            let q = choose|q: int| 0 <= q < before.windows@.len() && before.windows@[q] == v;
            assert(before.has_buffer(before.windows@[q].buffer));
            let j = choose|j: int| 0 <= j < before.buffers@.len() && #[trigger] before.buffers@[j].id == v.buffer;
            assert(j != i);
            let j1 = if j < i { j } else { j - 1 };
            assert(self.buffers@[j1] == before.buffers@[j]);
        }
        if self.has_buffer(id) {
            let a = choose|a: int| 0 <= a < self.buffers@.len() && #[trigger] self.buffers@[a].id == id;
            let a0 = if a < i { a } else { a + 1 };
            assert(self.buffers@[a] == before.buffers@[a0]);
        }
    }

    /// Loads the file at `path` from what reading it gave, adds it as a buffer
    /// and opens a window on it, whose position is returned. On failure the
    /// session is left as it was: no buffer and no window is made.
    pub fn load(&mut self, path: &str, contents: Result<Vec<u8>, LoadError>) -> (r: Result<usize, LoadError>)
        requires
            old(self).wf(),
            old(self).has_room(),
        ensures
            final(self).wf(),
            match contents {
                Err(e) => r == Err::<usize, LoadError>(e),
                Ok(bytes) => match utf8_text(bytes@) {
                    None => r == Err::<usize, LoadError>(LoadError::InvalidEncoding),
                    Some(t) => r is Ok,
                },
            },
            match r {
                Err(_) => final(self).buffers@ == old(self).buffers@
                    && final(self).windows@ == old(self).windows@
                    && final(self).next_id == old(self).next_id,
                Ok(w) => {
                    &&& final(self).buffers@.len() == old(self).buffers@.len() + 1
                    &&& final(self).buffers@.drop_last() == old(self).buffers@
                    &&& final(self).buffers@.last().id == old(self).next_id
                    &&& final(self).buffers@.last().buffer.text() == utf8_text(contents->Ok_0@)->Some_0
                    &&& final(self).buffers@.last().buffer.path() == Some(path@)
                    &&& w == old(self).windows@.len()
                    &&& final(self).windows@ == old(self).windows@.push(Window { buffer: old(self).next_id })
                },
            },
    {
        match Buffer::open(path, contents) {
            Err(e) => Err(e),
            Ok(buffer) => {
                let id = self.add_buffer(buffer);
                assert(self.buffers@.drop_last() == old(self).buffers@);
                match self.open_window(id) {
                    Some(w) => Ok(w),
                    // Not reached: the buffer was added just above.
                    None => {
                        assert(self.buffers@[self.buffers@.len() - 1].id == id);
                        Err(LoadError::Other)
                    },
                }
            },
        }
    }
}

} // verus!
