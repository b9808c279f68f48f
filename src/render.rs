use vstd::prelude::*;

use ratatui::widgets::{Block, Borders};

use crate::buffer::{Buffer, title_of};
use crate::editor::{EditorState, Window};
use crate::text::lines_of;

verus! {

/// A rectangle of terminal cells.
#[derive(Debug, Clone, Copy, PartialEq, Eq, Structural)]
pub struct Rect {
    pub x: u16,
    pub y: u16,
    pub width: u16,
    pub height: u16,
}

/// `a + b`, stopping at the largest `u16`.
pub open spec fn sat_add(a: u16, b: u16) -> u16 {
    if a + b > u16::MAX { u16::MAX } else { (a + b) as u16 }
}

/// `a - b`, stopping at zero.
pub open spec fn sat_sub(a: u16, b: u16) -> u16 {
    if a < b { 0 } else { (a - b) as u16 }
}

/// The smaller of two coordinates.
pub open spec fn min_u16(a: u16, b: u16) -> u16 {
    if a < b { a } else { b }
}

/// The part of `area` inside a border drawn on all four sides: one cell less
/// on each side, never starting past the far edge, never of negative size.
pub open spec fn inner_of(area: Rect) -> Rect {
    Rect {
        x: min_u16(sat_add(area.x, 1), sat_add(area.x, area.width)),
        y: min_u16(sat_add(area.y, 1), sat_add(area.y, area.height)),
        width: sat_sub(area.width, 2),
        height: sat_sub(area.height, 2),
    }
}

/// Relies on ratatui's `Block::inner` for a block with borders on all sides and
/// no padding: each side takes one cell, with the saturating arithmetic of its
/// source.
#[verifier::external_body]
fn bordered_inner(area: Rect) -> (r: Rect)
    ensures
        r == inner_of(area),
{
    let outer = ratatui::layout::Rect { x: area.x, y: area.y, width: area.width, height: area.height };
    let inner = Block::default().borders(Borders::ALL).inner(outer);
    Rect { x: inner.x, y: inner.y, width: inner.width, height: inner.height }
}

/// How a span is drawn.
#[derive(Debug, Clone, Copy, PartialEq, Eq, Structural)]
pub enum Style {
    /// The terminal's own colours and attributes.
    Plain,
}

/// A run of text drawn in one style.
pub struct Span {
    pub content: String,
    pub style: Style,
}

/// One row of display text, drawn left-aligned, made of spans.
pub struct DisplayLine {
    pub spans: Vec<Span>,
}

/// What one redraw puts on screen: a border round `area` with `title` on it,
/// and `lines` drawn from the top-left of `inner`, one per row.
pub struct Frame {
    pub area: Rect,
    pub inner: Rect,
    pub title: String,
    pub lines: Vec<DisplayLine>,
}

/// Display line `l` shows exactly the characters `text`, as one plain span.
pub open spec fn shows(l: DisplayLine, text: Seq<char>) -> bool {
    &&& l.spans@.len() == 1
    &&& l.spans@[0].content@ == text
    &&& l.spans@[0].style == Style::Plain
}

/// Frame `f` is the drawing of buffer `b` in `area`: a border round the whole
/// area titled with the buffer's title, and each line of the buffer, in order
/// and unchanged, inside the border.
pub open spec fn renders(f: Frame, b: Buffer, area: Rect) -> bool {
    &&& f.area == area
    &&& f.inner == inner_of(area)
    &&& f.title@ == title_of(b.path())
    &&& f.lines@.len() == lines_of(b.text()).len()
    &&& forall|k: int| 0 <= k < f.lines@.len() ==> shows(#[trigger] f.lines@[k], lines_of(b.text())[k])
}

/// A display line that shows `text` as one plain span.
pub fn display_line(text: String) -> (l: DisplayLine)
    ensures
        shows(l, text@),
{
    let mut spans: Vec<Span> = Vec::new();
    spans.push(Span { content: text, style: Style::Plain });
    DisplayLine { spans }
}

/// Draws `window`, which shows `buffer`, in `area`, from scratch: the border
/// and title, and the window's visible lines of the buffer, from the first on.
pub fn render(window: &Window, buffer: &Buffer, area: Rect) -> (f: Frame)
    ensures
        renders(f, *buffer, area),
{
    let title = buffer.title();
    let inner = bordered_inner(area);
    let text_lines = buffer.lines();
    let window_rows = window.visible_range(text_lines.len(), inner.height as usize, 0);
    let mut lines: Vec<DisplayLine> = Vec::new();
    let mut k: usize = window_rows.0;
    while k < window_rows.1
        invariant
            window_rows.0 == 0,
            window_rows.1 == text_lines@.len(),
            k <= text_lines@.len(),
            text_lines@.len() == lines_of(buffer.text()).len(),
            forall|j: int| 0 <= j < text_lines@.len() ==> text_lines@[j]@ == lines_of(buffer.text())[j],
            lines@.len() == k,
            forall|j: int| 0 <= j < k ==> shows(#[trigger] lines@[j], lines_of(buffer.text())[j]),
        decreases text_lines@.len() - k,
    {
        lines.push(display_line(text_lines[k].clone()));
        k = k + 1;
    }
    Frame { area, inner, title, lines }
}

/// A buffer with no file is drawn under the title `<scratch>`.
pub proof fn lemma_scratch_title(b: Buffer, area: Rect, f: Frame)
    requires
        b.path() is None,
        renders(f, b, area),
    ensures
        f.title@ == "<scratch>"@,
{
}

impl EditorState {
    /// Draws the window at position `w` in `area`, showing the buffer it is on;
    /// `None` where there is no such window.
    pub fn render_window(&self, w: usize, area: Rect) -> (r: Option<Frame>)
        requires
            self.wf(),
        ensures
            match r {
                Some(f) => w < self.windows@.len() && exists|i: int|
                    0 <= i < self.buffers@.len() && #[trigger] self.buffers@[i].id == self.windows@[w as int].buffer
                        && renders(f, self.buffers@[i].buffer, area),
                None => w >= self.windows@.len(),
            },
    {
        if w >= self.windows.len() {
            return None;
        }
        let id = self.windows[w].buffer;
        assert(self.has_buffer(self.windows@[w as int].buffer));
        match self.find_buffer(id) {
            Some(i) => Some(render(&self.windows[w], &self.buffers[i].buffer, area)),
            None => None,
        }
    }
}

} // verus!
