//! The keyboard side of the view: key events as the state machine sees
//! them, and the single-line query buffer that search entry edits.
use vstd::prelude::*;

verus! {

/// A key code, reduced to what the state machine distinguishes.
#[derive(Clone, Copy, PartialEq, Eq, Structural, Debug)]
pub enum Key {
    Esc,
    Backspace,
    Left,
    Right,
    Char(u8),
    Other,
}

/// One pressed-key event: the key code and whether Control was held.
/// Key releases are never handed to the state machine.
#[derive(Clone, Copy, PartialEq, Eq, Structural, Debug)]
pub struct KeyPress {
    pub code: Key,
    pub ctrl: bool,
}

/// Whether key input is routed to query editing or to navigation.
#[derive(Clone, Copy, PartialEq, Eq, Structural, Debug)]
pub enum ViewMode {
    Normal,
    SearchEntry,
}

/// The terminal quit transition: plain `Esc` or `q`, or Control+`c`/`C`,
/// in any view mode.
pub open spec fn is_quit(k: KeyPress) -> bool {
    ||| (!k.ctrl && (k.code == Key::Esc || k.code == Key::Char(113)))
    ||| (k.ctrl && (k.code == Key::Char(99) || k.code == Key::Char(67)))
}

/// The search toggle: plain `s`.
pub open spec fn is_toggle(k: KeyPress) -> bool {
    !k.ctrl && k.code == Key::Char(115)
}

/// The single-line query buffer: the text and a cursor within it.
pub struct QueryBuffer {
    pub text: Vec<u8>,
    pub cursor: usize,
}

/// The query text after one key is forwarded to the buffer: printable
/// keys insert at the cursor (as long as the text still fits in
/// memory), backspace deletes before it, everything else leaves the
/// text alone.
pub open spec fn text_after(t: Seq<u8>, c: int, k: KeyPress) -> Seq<u8> {
    if k.ctrl {
        t
    } else {
        match k.code {
            Key::Char(b) => if t.len() < usize::MAX {
                t.insert(c, b)
            } else {
                t
            },
            Key::Backspace => if c > 0 {
                t.remove(c - 1)
            } else {
                t
            },
            _ => t,
        }
    }
}

/// The cursor after one key: it follows insertions and deletions and
/// moves on the arrow keys, clamped to the text.
pub open spec fn cursor_after(t: Seq<u8>, c: int, k: KeyPress) -> int {
    if k.ctrl {
        c
    } else {
        match k.code {
            Key::Char(_) => if t.len() < usize::MAX {
                c + 1
            } else {
                c
            },
            Key::Backspace => if c > 0 {
                c - 1
            } else {
                c
            },
            Key::Left => if c > 0 {
                c - 1
            } else {
                c
            },
            Key::Right => if c < t.len() {
                c + 1
            } else {
                c
            },
            _ => c,
        }
    }
}

impl QueryBuffer {
    /// The cursor never leaves the text.
    pub open spec fn wf(self) -> bool {
        self.cursor <= self.text@.len()
    }

    /// An empty query: no filtering.
    pub fn new() -> (q: QueryBuffer)
        ensures
            q.wf(),
            q.text@.len() == 0,
            q.cursor == 0,
    {
        QueryBuffer { text: Vec::new(), cursor: 0 }
    }

    /// Forwards one key event verbatim to the buffer.
    pub fn apply(&mut self, k: KeyPress)
        requires
            old(self).wf(),
        ensures
            final(self).wf(),
            final(self).text@ == text_after(old(self).text@, old(self).cursor as int, k),
            final(self).cursor == cursor_after(old(self).text@, old(self).cursor as int, k),
    {
        if k.ctrl {
            return ;
        }
        match k.code {
            Key::Char(b) => {
                if self.text.len() < usize::MAX {
                    self.text.insert(self.cursor, b);
                    self.cursor = self.cursor + 1;
                }
            },
            Key::Backspace => {
                if self.cursor > 0 {
                    self.text.remove(self.cursor - 1);
                    self.cursor = self.cursor - 1;
                }
            },
            Key::Left => {
                if self.cursor > 0 {
                    self.cursor = self.cursor - 1;
                }
            },
            Key::Right => {
                if self.cursor < self.text.len() {
                    self.cursor = self.cursor + 1;
                }
            },
            _ => {},
        }
    }
}

} // verus!
