//! The console backend for an interactive terminal: the line editor
//! behind a `> ` prompt that is redrawn below whatever gets printed.

use vstd::prelude::*;
use crate::editor::{edit_step, event_allowed, EditOutcome, InputState, TermEvent};
use crate::console::Written;
use crate::render::push_str;
use crate::strings::utf8_of;

verus! {

/// How to put the prompt back on screen: the prompt line to print after
/// clearing the current line, and the column to leave the cursor in, if
/// it is to be moved.
#[derive(Debug)]
pub struct Redisplay {
    pub line: Vec<u8>,
    pub column: Option<u16>,
}

/// The prompt line for a buffer: `"> "` and the buffer.
pub open spec fn prompt_text(buf: Seq<u8>) -> Seq<u8> {
    utf8_of("> "@) + buf
}

/// The screen column of the cursor: two for the prompt's `"> "`, plus the
/// cursor's byte offset, truncated to 16 bits.
pub open spec fn prompt_column(pos: nat) -> u16 {
    (2 + pos) as u16
}

/// The terminal backend: the line editor's state.
pub struct Term {
    state: InputState,
}

impl Term {
    /// The editor's buffer bytes and cursor.
    pub closed spec fn input(&self) -> (Seq<u8>, nat) {
        self.state@
    }

    /// The cursor lies within the buffer, and the buffer within
    /// `isize::MAX` bytes.
    pub open spec fn wf(&self) -> bool {
        self.input().1 <= self.input().0.len() <= isize::MAX
    }

    /// A terminal backend with an empty prompt.
    pub fn new() -> (t: Self)
        ensures
            t.wf(),
            t.input() == (Seq::<u8>::empty(), 0nat),
    {
        Term { state: InputState::new() }
    }

    /// Whether the editor can take `ev` (what `poll` requires).
    pub fn allows(&self, ev: &TermEvent) -> (ok: bool)
        requires
            self.wf(),
            ev matches TermEvent::Paste(t) ==> utf8_of(t@).len() <= isize::MAX,
        ensures
            ok == event_allowed(self.input().0, self.input().1, *ev),
    {
        self.state.allows(ev)
    }

    /// Takes what one wait for a terminal event gave (`None` when nothing
    /// came) and hands it to the editor.
    pub fn poll(&mut self, event: Option<TermEvent>) -> (out: EditOutcome)
        requires
            old(self).wf(),
            event matches Some(ev) ==> event_allowed(old(self).input().0, old(self).input().1, ev),
        ensures
            final(self).wf(),
            match event {
                None => out is Ignore && final(self).input() == old(self).input(),
                Some(ev) => edit_step(old(self).input(), ev, final(self).input(), out),
            },
    {
        match event {
            None => EditOutcome::Ignore,
            Some(ev) => self.state.apply(ev),
        }
    }

    /// The text typed so far and the cursor's byte offset in it.
    pub fn cursor_state(&self) -> (st: (String, usize))
        requires
            self.wf(),
        ensures
            utf8_of(st.0@) == self.input().0,
            st.1 == self.input().1,
            st.1 <= utf8_of(st.0@).len(),
    {
        (self.state.text(), self.state.cursor())
    }

    /// The prompt to draw: `"> "` and the buffer, with the cursor after
    /// the prompt at its offset.
    pub fn prompt(&self) -> (r: Redisplay)
        requires
            self.wf(),
        ensures
            r.line@ == prompt_text(self.input().0),
            r.column == Some(prompt_column(self.input().1)),
    {
        let mut line: Vec<u8> = Vec::new();
        push_str(&mut line, "> ");
        let text = self.state.text();
        push_str(&mut line, text.as_str());
        let pos = self.state.cursor();
        let column = (2 + pos) as u16;
        Redisplay { line, column: Some(column) }
    }

    /// Prepares `content` for the screen: the prompt line is cleared
    /// before it and drawn again after it, cursor in place.
    pub fn write(&self, content: Vec<u8>) -> (w: Written)
        requires
            self.wf(),
        ensures
            w.content@ == content@,
            w.redisplay matches Some(r) && r.line@ == prompt_text(self.input().0) && r.column == Some(
                prompt_column(self.input().1),
            ),
    {
        Written { content, redisplay: Some(self.prompt()) }
    }
}

} // verus!
