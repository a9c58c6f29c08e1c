//! The prompt's line editor: a text buffer with a cursor, driven by key
//! presses and pastes, that hands back a line when Enter is pressed.
//!
//! The cursor counts bytes of the buffer's UTF-8 encoding. Typing a
//! character moves it by one byte whatever the character's width, and
//! Right moves it by one byte, so after a non-ASCII character it can rest
//! inside that character; editing there is refused by std (the `requires`
//! below say where), as it is in a terminal session.

use vstd::prelude::*;
use vstd::utf8::*;
use crate::strings::{string_insert, string_insert_str, string_remove, utf8_of};

verus! {

broadcast use vstd::utf8::group_utf8_lib;

/// The keys the editor tells apart.
#[derive(Debug)]
pub enum KeyCode {
    Enter,
    Backspace,
    Delete,
    Left,
    Right,
    Home,
    End,
    Char(char),
    /// Any other key (function keys, arrows up and down, Tab, Esc, ...).
    Other,
}

/// A key event: the key, whether Control was held, and whether it is the
/// key's release (which the editor ignores).
#[derive(Debug)]
pub struct KeyPress {
    pub code: KeyCode,
    pub ctrl: bool,
    pub release: bool,
}

/// What the terminal reports.
#[derive(Debug)]
pub enum TermEvent {
    Key(KeyPress),
    Paste(String),
    Resize,
    /// Focus, mouse and other events.
    Other,
}

/// What the editor makes of an event.
#[derive(Debug)]
pub enum EditOutcome {
    /// Ctrl+C: the user asks to quit.
    Quit,
    /// Enter: the finished line; the buffer is empty again.
    Submit(String),
    /// The buffer or cursor may have changed: the prompt is to be redrawn.
    Redraw,
    /// Nothing to do.
    Ignore,
}

/// The text being typed at the prompt and the cursor in it.
pub struct InputState {
    buf: String,
    pos: usize,
}

/// `b` with the byte sequence `ins` put in at `i`.
pub open spec fn insert_at(b: Seq<u8>, i: int, ins: Seq<u8>) -> Seq<u8> {
    b.take(i) + ins + b.skip(i)
}

/// `b` without the character whose encoding starts at `i`.
pub open spec fn remove_at(b: Seq<u8>, i: int) -> Seq<u8> {
    b.take(i) + b.skip(i + length_of_first_scalar(b.skip(i)))
}

/// Buffer bytes and cursor after an editing key (any key but Enter).
pub open spec fn edit_key(b: Seq<u8>, pos: nat, code: KeyCode) -> (Seq<u8>, nat) {
    match code {
        KeyCode::Backspace => if pos > 0 {
            (remove_at(b, pos - 1), (pos - 1) as nat)
        } else {
            (b, pos)
        },
        KeyCode::Delete => if pos < b.len() {
            (remove_at(b, pos as int), pos)
        } else {
            (b, pos)
        },
        KeyCode::Left => if pos > 0 {
            (b, (pos - 1) as nat)
        } else {
            (b, pos)
        },
        KeyCode::Right => if pos < b.len() {
            (b, pos + 1)
        } else {
            (b, pos)
        },
        KeyCode::Home => (b, 0),
        KeyCode::End => (b, b.len()),
        KeyCode::Char(c) => (insert_at(b, pos as int, utf8_of(seq![c])), pos + 1),
        _ => (b, pos),
    }
}

/// Whether a key press is Ctrl+C.
pub open spec fn is_interrupt(k: KeyPress) -> bool {
    k.code == KeyCode::Char('c') && k.ctrl
}

/// Whether an editing key can be applied without std refusing it: an
/// insertion or removal must happen at a character boundary, and the
/// buffer may not outgrow `isize::MAX` bytes.
pub open spec fn key_allowed(b: Seq<u8>, pos: nat, code: KeyCode) -> bool {
    match code {
        KeyCode::Backspace => pos > 0 ==> is_char_boundary(b, pos - 1),
        KeyCode::Delete => pos < b.len() ==> is_char_boundary(b, pos as int),
        KeyCode::Char(c) => is_char_boundary(b, pos as int) && b.len() + utf8_of(seq![c]).len()
            <= isize::MAX,
        _ => true,
    }
}

/// Whether an event can be handled without std refusing it.
pub open spec fn event_allowed(b: Seq<u8>, pos: nat, ev: TermEvent) -> bool {
    match ev {
        TermEvent::Key(k) => (!k.release && !is_interrupt(k) && k.code != KeyCode::Enter)
            ==> key_allowed(b, pos, k.code),
        TermEvent::Paste(t) => is_char_boundary(b, pos as int) && b.len() + utf8_of(t@).len()
            <= isize::MAX,
        _ => true,
    }
}

/// How one event changes the editor (`before` to `after`, bytes and
/// cursor) and what it yields.
pub open spec fn edit_step(before: (Seq<u8>, nat), ev: TermEvent, after: (Seq<u8>, nat), out: EditOutcome) -> bool {
    match ev {
        TermEvent::Key(k) => if k.release {
            out is Ignore && after == before
        } else if is_interrupt(k) {
            out is Quit && after == before
        } else if k.code is Enter {
            &&& out matches EditOutcome::Submit(line) && utf8_of(line@) == before.0
            &&& after.0 == Seq::<u8>::empty()
            &&& after.1 == 0
        } else {
            out is Redraw && after == edit_key(before.0, before.1, k.code)
        },
        TermEvent::Paste(t) => {
            &&& out is Redraw
            &&& after.0 == insert_at(before.0, before.1 as int, utf8_of(t@))
            &&& after.1 == before.1 + utf8_of(t@).len()
        },
        TermEvent::Resize => out is Redraw && after == before,
        TermEvent::Other => out is Ignore && after == before,
    }
}

impl View for InputState {
    /// The buffer's UTF-8 bytes and the cursor's byte offset.
    type V = (Seq<u8>, nat);

    closed spec fn view(&self) -> (Seq<u8>, nat) {
        (utf8_of(self.buf@), self.pos as nat)
    }
}

impl InputState {
    /// The cursor is within the buffer, and the buffer within `isize::MAX` bytes.
    pub open spec fn wf(&self) -> bool {
        self@.1 <= self@.0.len() <= isize::MAX
    }

    /// An empty buffer with the cursor at its start.
    pub fn new() -> (s: Self)
        ensures
            s.wf(),
            s@.0 == Seq::<u8>::empty(),
            s@.1 == 0,
    {
        InputState { buf: String::new(), pos: 0 }
    }

    /// The buffer's text.
    pub fn text(&self) -> (t: String)
        ensures
            utf8_of(t@) == self@.0,
    {
        self.buf.clone()
    }

    /// The cursor's byte offset.
    pub fn cursor(&self) -> (p: usize)
        ensures
            p == self@.1,
    {
        self.pos
    }

    fn byte_len(&self) -> (n: usize)
        requires
            self.wf(),
        ensures
            n == self@.0.len(),
    {
        self.buf.as_str().len()
    }

    /// Whether `ev` can be handled: what `apply` requires, for a caller
    /// to test first. (A pasted text, like any `str`, is at most
    /// `isize::MAX` bytes long.)
    pub fn allows(&self, ev: &TermEvent) -> (ok: bool)
        requires
            self.wf(),
            ev matches TermEvent::Paste(t) ==> utf8_of(t@).len() <= isize::MAX,
        ensures
            ok == event_allowed(self@.0, self@.1, *ev),
    {
        let len = self.byte_len();
        let p = self.pos;
        match ev {
            TermEvent::Key(k) => {
                if k.release {
                    return true;
                }
                match k.code {
                    KeyCode::Char(c) => {
                        if c == 'c' && k.ctrl {
                            return true;
                        }
                        let w = char_len_utf8(c);
                        self.buf.as_str().is_char_boundary(p) && len <= isize::MAX as usize - w
                    },
                    KeyCode::Backspace => p == 0 || self.buf.as_str().is_char_boundary(p - 1),
                    KeyCode::Delete => p >= len || self.buf.as_str().is_char_boundary(p),
                    _ => true,
                }
            },
            TermEvent::Paste(t) => {
                let w = t.as_str().len();
                self.buf.as_str().is_char_boundary(p) && w <= isize::MAX as usize - len
            },
            _ => true,
        }
    }

    /// Handles one terminal event.
    ///
    /// Ctrl+C asks to quit; Enter hands back the line and empties the
    /// buffer; Backspace and Delete remove the character before or at the
    /// cursor; Left, Right, Home and End move the cursor; a character goes
    /// in at the cursor, which moves one byte on; a paste goes in at the
    /// cursor, which moves past it. Releases and events other than keys,
    /// pastes and resizes are ignored; a resize only asks for a redraw.
    pub fn apply(&mut self, ev: TermEvent) -> (out: EditOutcome)
        requires
            old(self).wf(),
            event_allowed(old(self)@.0, old(self)@.1, ev),
        ensures
            final(self).wf(),
            edit_step(old(self)@, ev, final(self)@, out),
    {
        let ghost b = old(self)@.0;
        match ev {
            TermEvent::Key(k) => {
                if k.release {
                    return EditOutcome::Ignore;
                }
                if let KeyCode::Char(c) = k.code {
                    if c == 'c' && k.ctrl {
                        return EditOutcome::Quit;
                    }
                }
                let len = self.byte_len();
                let p = self.pos;
                match k.code {
                    KeyCode::Enter => {
                        let line = self.buf.clone();
                        self.buf = String::new();
                        self.pos = 0;
                        return EditOutcome::Submit(line);
                    },
                    KeyCode::Backspace => {
                        if p > 0 {
                            proof {
                                lemma_char_fits(b, p - 1);
                            }
                            string_remove(&mut self.buf, p - 1);
                            self.pos = p - 1;
                        }
                    },
                    KeyCode::Delete => {
                        if p < len {
                            proof {
                                lemma_char_fits(b, p as int);
                            }
                            string_remove(&mut self.buf, p);
                        }
                    },
                    KeyCode::Left => {
                        if p > 0 {
                            self.pos = p - 1;
                        }
                    },
                    KeyCode::Right => {
                        if p < len {
                            self.pos = p + 1;
                        }
                    },
                    KeyCode::Home => {
                        self.pos = 0;
                    },
                    KeyCode::End => {
                        self.pos = len;
                    },
                    KeyCode::Char(c) => {
                        proof {
                            lemma_char_width(c);
                        }
                        string_insert(&mut self.buf, p, c);
                        self.pos = p + 1;
                    },
                    KeyCode::Other => {},
                }
                EditOutcome::Redraw
            },
            TermEvent::Paste(data) => {
                let p = self.pos;
                string_insert_str(&mut self.buf, p, data.as_str());
                let w = data.as_str().len();
                self.pos = p + w;
                EditOutcome::Redraw
            },
            TermEvent::Resize => EditOutcome::Redraw,
            TermEvent::Other => EditOutcome::Ignore,
        }
    }
}

/// The number of bytes of the UTF-8 encoding of `c`.
pub fn char_len_utf8(c: char) -> (n: usize)
    ensures
        n == utf8_of(seq![c]).len(),
        1 <= n <= 4,
{
    proof {
        lemma_char_width(c);
    }
    let u = c as u32;
    if u < 0x80 {
        1
    } else if u < 0x800 {
        2
    } else if u < 0x10000 {
        3
    } else {
        4
    }
}

proof fn lemma_char_width(c: char)
    ensures
        1 <= utf8_of(seq![c]).len() <= 4,
        utf8_of(seq![c]).len() == (if (c as u32) < 0x80 {
            1int
        } else if (c as u32) < 0x800 {
            2int
        } else if (c as u32) < 0x10000 {
            3int
        } else {
            4int
        }),
{
    reveal_with_fuel(encode_utf8, 2);
    assert(seq![c].drop_first() =~= Seq::<char>::empty());
    assert(seq![c][0] == c);
}

/// A character that starts at a boundary lies wholly inside the bytes.
proof fn lemma_char_fits(b: Seq<u8>, i: int)
    requires
        valid_utf8(b),
        0 <= i < b.len(),
        is_char_boundary(b, i),
    ensures
        i + length_of_first_scalar(b.skip(i)) <= b.len(),
        length_of_first_scalar(b.skip(i)) >= 1,
{
    valid_utf8_split(b, i);
    let rest = b.skip(i);
    assert(rest.len() > 0);
    assert(valid_first_scalar(rest));
}


/// Typing an ASCII character and then pressing Backspace gives back the
/// buffer and cursor as they were.
pub proof fn backspace_undoes_ascii_char(b: Seq<u8>, pos: nat, c: char)
    requires
        valid_utf8(b),
        pos <= b.len(),
        is_char_boundary(b, pos as int),
        (c as u32) < 0x80,
    ensures
        ({
            let typed = edit_key(b, pos, KeyCode::Char(c));
            edit_key(typed.0, typed.1, KeyCode::Backspace) == (b, pos)
        }),
{
    lemma_char_width(c);
    reveal_with_fuel(encode_utf8, 2);
    assert(seq![c].drop_first() =~= Seq::<char>::empty());
    let enc = utf8_of(seq![c]);
    assert(enc.len() == 1);
    let t = insert_at(b, pos as int, enc);
    assert(t.skip(pos as int)[0] == enc[0]);
    assert(enc[0] == c as u32 as u8) by {
        assert(enc == encode_scalar(c as u32));
        let u = c as u32;
        assert(leading_byte_width_1(u) == u as u8) by (bit_vector)
            requires
                u < 0x80,
        ;
    }
    assert(length_of_first_scalar(t.skip(pos as int)) == 1);
    assert(remove_at(t, pos as int) =~= b);
}

/// Left then Right puts the cursor back where it was, when it was not
/// at the start; the buffer does not change.
pub proof fn left_right_restores_cursor(b: Seq<u8>, pos: nat)
    requires
        0 < pos <= b.len(),
    ensures
        ({
            let l = edit_key(b, pos, KeyCode::Left);
            edit_key(l.0, l.1, KeyCode::Right) == (b, pos)
        }),
{
}

/// Moving the cursor never changes the text, and keeps the cursor within
/// it.
pub proof fn moves_keep_text(b: Seq<u8>, pos: nat, code: KeyCode)
    requires
        pos <= b.len(),
        code is Left || code is Right || code is Home || code is End,
    ensures
        edit_key(b, pos, code).0 == b,
        edit_key(b, pos, code).1 <= b.len(),
{
}

/// Typing an ASCII character at the end of the text appends it and
/// leaves the cursor at the new end.
pub proof fn typing_at_end_appends(b: Seq<u8>, c: char)
    requires
        (c as u32) < 0x80,
    ensures
        edit_key(b, b.len(), KeyCode::Char(c)).0 == b.push(c as u32 as u8),
        edit_key(b, b.len(), KeyCode::Char(c)).1 == b.len() + 1,
{
    lemma_char_width(c);
    reveal_with_fuel(encode_utf8, 2);
    assert(seq![c].drop_first() =~= Seq::<char>::empty());
    let u = c as u32;
    assert(leading_byte_width_1(u) == u as u8) by (bit_vector)
        requires
            u < 0x80,
    ;
    assert(utf8_of(seq![c]) =~= seq![u as u8]);
    assert(insert_at(b, b.len() as int, seq![u as u8]) =~= b.push(u as u8));
}

} // verus!
