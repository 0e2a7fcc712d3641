//! The viewer's state and per-frame logic: a scroll offset into the document,
//! one-line moves driven by key events, and the rendering of the visible page.

use vstd::prelude::*;

use crate::formatter::{format_line, format_line_spec, frags_model, Fragment, StyleKind};
use crate::loader::doc_model;

verus! {

/// A keyboard event, reduced to what the viewer reacts to.
#[derive(Clone, Copy, Debug, PartialEq, Eq, Structural)]
pub enum KeyInput {
    Quit,
    Down,
    Up,
    Other,
}

/// The key a typed character means: `q` quits, `j` scrolls down, `k` scrolls
/// up, anything else is ignored.
pub open spec fn classify_char_spec(c: char) -> KeyInput {
    if c == 'q' {
        KeyInput::Quit
    } else if c == 'j' {
        KeyInput::Down
    } else if c == 'k' {
        KeyInput::Up
    } else {
        KeyInput::Other
    }
}

/// Map a typed character to the viewer's key set.
pub fn classify_char(c: char) -> (r: KeyInput)
    ensures
        r == classify_char_spec(c),
{
    if c == 'q' {
        KeyInput::Quit
    } else if c == 'j' {
        KeyInput::Down
    } else if c == 'k' {
        KeyInput::Up
    } else {
        KeyInput::Other
    }
}

/// Document lines one frame shows for a terminal of this height: the height
/// itself, but at least one.
pub open spec fn lines_per_page_spec(height: u16) -> int {
    if height == 0 {
        1
    } else {
        height as int
    }
}

/// Document lines one frame shows for a terminal of this height.
pub fn lines_per_page(height: u16) -> (r: usize)
    ensures
        r as int == lines_per_page_spec(height),
{
    if height == 0 {
        1
    } else {
        height as usize
    }
}

/// Length of the visible window at `offset`: the rest of the document, capped
/// at one page.
pub open spec fn visible_len(doc_len: int, offset: int, height: u16) -> int {
    if doc_len - offset < lines_per_page_spec(height) {
        doc_len - offset
    } else {
        lines_per_page_spec(height)
    }
}

/// The scroll offset after one key event on a document of `doc_len` lines:
/// down and up move by exactly one line and stop at the ends; every other key
/// leaves the offset alone.
pub open spec fn next_offset(offset: int, doc_len: int, key: KeyInput) -> int {
    match key {
        KeyInput::Down => if offset + 1 < doc_len {
            offset + 1
        } else {
            offset
        },
        KeyInput::Up => if offset > 0 {
            offset - 1
        } else {
            offset
        },
        _ => offset,
    }
}

/// The styled page a render of `doc` at `offset` must produce: one formatted
/// line per visible line, in document order.
pub open spec fn page_model(doc: Seq<Seq<char>>, offset: int, height: u16) -> Seq<
    Seq<(Seq<char>, StyleKind)>,
> {
    Seq::new(visible_len(doc.len() as int, offset, height) as nat, |k: int|
        format_line_spec(doc[offset + k]),
    )
}

/// The mathematical content of a rendered page.
pub open spec fn page_of(r: Seq<Vec<Fragment>>) -> Seq<Seq<(Seq<char>, StyleKind)>> {
    r.map_values(|v: Vec<Fragment>| frags_model(v@))
}

/// The viewer's whole state: the document and the index of the first visible
/// line.
pub struct Viewer {
    pub lines: Vec<Vec<char>>,
    pub offset: usize,
}

impl Viewer {
    /// The scroll offset stays inside the document: strictly below its length,
    /// and zero when the document is empty.
    pub open spec fn wf(&self) -> bool {
        if self.lines@.len() == 0 {
            self.offset == 0
        } else {
            (self.offset as int) < self.lines@.len()
        }
    }

    /// A viewer showing `lines` from the top.
    pub fn new(lines: Vec<Vec<char>>) -> (v: Viewer)
        ensures
            v.wf(),
            v.offset == 0,
            v.lines == lines,
    {
        Viewer { lines, offset: 0 }
    }

    /// Whether the scroll offset is inside the document, decided at run time.
    pub fn is_wf(&self) -> (r: bool)
        ensures
            r == self.wf(),
    {
        if self.lines.len() == 0 {
            self.offset == 0
        } else {
            self.offset < self.lines.len()
        }
    }

    /// Dispatch one key event: report whether it was the quit key, and move
    /// the scroll offset by at most one line.
    pub fn handle_key(&mut self, key: KeyInput) -> (quit: bool)
        requires
            old(self).wf(),
        ensures
            final(self).wf(),
            final(self).lines == old(self).lines,
            quit == (key == KeyInput::Quit),
            final(self).offset as int == next_offset(
                old(self).offset as int,
                old(self).lines@.len() as int,
                key,
            ),
    {
        match key {
            KeyInput::Quit => true,
            KeyInput::Down => {
                let len = self.lines.len();
                if self.offset + 1 < len {
                    self.offset = self.offset + 1;
                }
                false
            },
            KeyInput::Up => {
                if self.offset > 0 {
                    self.offset = self.offset - 1;
                }
                false
            },
            KeyInput::Other => false,
        }
    }

    /// Format the page of lines visible at the current offset for a terminal
    /// of height `height`.
    pub fn render_page(&self, height: u16) -> (r: Vec<Vec<Fragment>>)
        requires
            self.wf(),
        ensures
            r@.len() == visible_len(self.lines@.len() as int, self.offset as int, height),
            page_of(r@) == page_model(doc_model(self.lines@), self.offset as int, height),
    {
        let lpp = lines_per_page(height);
        let len = self.lines.len();
        let remaining = len - self.offset;
        let count = if lpp < remaining {
            lpp
        } else {
            remaining
        };
        let mut r: Vec<Vec<Fragment>> = Vec::new();
        let mut k: usize = 0;
        while k < count
            invariant
                k <= count,
                count + self.offset <= self.lines@.len(),
                self.lines@.len() <= usize::MAX,
                count as int == visible_len(self.lines@.len() as int, self.offset as int, height),
                r@.len() == k as int,
                forall|t: int| 0 <= t < k ==> frags_model(#[trigger] r@[t]@) == format_line_spec(
                    self.lines@[self.offset + t]@,
                ),
            decreases count - k,
        {
            r.push(format_line(&self.lines[self.offset + k]));
            k = k + 1;
        }
        proof {
            let doc = doc_model(self.lines@);
            assert forall|t: int| 0 <= t < r@.len() implies page_of(r@)[t] == page_model(
                doc,
                self.offset as int,
                height,
            )[t] by {
                assert(doc[self.offset + t] == self.lines@[self.offset + t]@);
            }
            assert(page_of(r@) =~= page_model(doc, self.offset as int, height));
        }
        r
    }
}

/// Rendering is deterministic: the styled page is a function of the document,
/// the offset and the terminal height alone, so two renders of the same state
/// under the same height agree.
pub proof fn lemma_render_deterministic(
    doc: Seq<Seq<char>>,
    offset: int,
    height: u16,
    r1: Seq<Vec<Fragment>>,
    r2: Seq<Vec<Fragment>>,
)
    requires
        page_of(r1) == page_model(doc, offset, height),
        page_of(r2) == page_model(doc, offset, height),
    ensures
        page_of(r1) == page_of(r2),
{
}

/// The visible window is exactly the smaller of one page and what is left of
/// the document, and so never exceeds one page.
pub proof fn lemma_visible_len_bounds(doc_len: int, offset: int, height: u16)
    requires
        0 <= offset <= doc_len,
    ensures
        visible_len(doc_len, offset, height) == vstd::math::min(
            lines_per_page_spec(height),
            doc_len - offset,
        ),
        visible_len(doc_len, offset, height) <= lines_per_page_spec(height),
        0 <= visible_len(doc_len, offset, height),
{
}

/// The offset after `n` consecutive down key events.
pub open spec fn offset_after_downs(offset: int, doc_len: int, n: nat) -> int
    decreases n,
{
    if n == 0 {
        offset
    } else {
        next_offset(offset_after_downs(offset, doc_len, (n - 1) as nat), doc_len, KeyInput::Down)
    }
}

/// The offset after `n` consecutive up key events.
pub open spec fn offset_after_ups(offset: int, doc_len: int, n: nat) -> int
    decreases n,
{
    if n == 0 {
        offset
    } else {
        next_offset(offset_after_ups(offset, doc_len, (n - 1) as nat), doc_len, KeyInput::Up)
    }
}

/// Repeated down keys raise the offset by one per key until it reaches the
/// last line, after which they are no-ops; repeated up keys mirror this,
/// falling one per key and stopping at zero.
pub proof fn lemma_repeated_scroll(offset: int, doc_len: int, n: nat)
    requires
        0 <= offset,
        0 <= doc_len,
        doc_len == 0 ==> offset == 0,
        doc_len > 0 ==> offset < doc_len,
    ensures
        doc_len == 0 ==> offset_after_downs(offset, doc_len, n) == offset,
        doc_len > 0 ==> offset_after_downs(offset, doc_len, n) == vstd::math::min(
            offset + n,
            doc_len - 1,
        ),
        offset_after_ups(offset, doc_len, n) == vstd::math::max(offset - n, 0),
    decreases n,
{
    if n > 0 {
        lemma_repeated_scroll(offset, doc_len, (n - 1) as nat);
    }
}

/// Down keys strictly increase the offset until it reaches the last line,
/// where they are no-ops; up keys mirror this at offset zero.
pub proof fn lemma_scroll_monotonic(offset: int, doc_len: int)
    requires
        0 <= offset,
        doc_len == 0 ==> offset == 0,
        doc_len > 0 ==> offset < doc_len,
    ensures
        offset < doc_len - 1 ==> next_offset(offset, doc_len, KeyInput::Down) == offset + 1,
        offset == doc_len - 1 ==> next_offset(offset, doc_len, KeyInput::Down) == offset,
        offset > 0 ==> next_offset(offset, doc_len, KeyInput::Up) == offset - 1,
        offset == 0 ==> next_offset(offset, doc_len, KeyInput::Up) == offset,
{
}

/// The quit key never moves the offset: whatever the document and offset,
/// quitting hands the state back unchanged.
pub proof fn lemma_quit_unconditional(offset: int, doc_len: int)
    ensures
        next_offset(offset, doc_len, KeyInput::Quit) == offset,
{
}

} // verus!
