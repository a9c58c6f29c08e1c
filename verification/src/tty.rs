//! A terminal-only console: the line editor behind a `> ` prompt, with
//! plain `\n` line ends. Output is written on a fresh line that the
//! prompt is then drawn below.

use vstd::prelude::*;
use crate::console::{polled_from, Polled, Screen, Written};
use crate::console::term::{prompt_column, prompt_text, Redisplay};
use crate::editor::{edit_step, event_allowed, EditOutcome, InputState, TermEvent};
use crate::render::{newline_bytes, push_str, transfer, transfer_text};
use crate::strings::utf8_of;

verus! {

/// The terminal console's state: the line being typed and whether the
/// user asked to quit.
pub struct Tty {
    state: InputState,
    quit: bool,
}

impl Tty {
    /// The editor's buffer bytes and cursor.
    pub closed spec fn input(&self) -> (Seq<u8>, nat) {
        self.state@
    }

    /// Whether the user asked to quit.
    pub closed spec fn quitting(&self) -> bool {
        self.quit
    }

    /// The cursor lies within the buffer, and the buffer within
    /// `isize::MAX` bytes.
    pub open spec fn wf(&self) -> bool {
        self.input().1 <= self.input().0.len() <= isize::MAX
    }
}

/// A fresh console: empty prompt, no wish to quit.
pub fn init() -> (t: Tty)
    ensures
        t.wf(),
        !t.quitting(),
        t.input() == (Seq::<u8>::empty(), 0nat),
{
    Tty { state: InputState::new(), quit: false }
}

/// Whether the user asked to quit (Ctrl+C).
pub fn quit_requested(t: &Tty) -> (q: bool)
    ensures
        q == t.quitting(),
{
    t.quit
}

/// The prompt to draw: `"> "`, the buffer, the cursor at its column.
pub fn redraw(t: &Tty) -> (r: Redisplay)
    requires
        t.wf(),
    ensures
        r.line@ == prompt_text(t.input().0),
        r.column == Some(prompt_column(t.input().1)),
{
    let mut line: Vec<u8> = Vec::new();
    push_str(&mut line, "> ");
    let text = t.state.text();
    push_str(&mut line, text.as_str());
    let column = (2 + t.state.cursor()) as u16;
    Redisplay { line, column: Some(column) }
}

/// Handles what one wait for a terminal event gave (`None`: nothing came).
pub fn poll(t: &mut Tty, event: Option<TermEvent>) -> (p: Polled)
    requires
        old(t).wf(),
        event matches Some(ev) ==> event_allowed(old(t).input().0, old(t).input().1, ev),
    ensures
        final(t).wf(),
        match event {
            None => p.line is None && p.screen is Keep && final(t).input() == old(t).input()
                && final(t).quitting() == old(t).quitting(),
            Some(ev) => exists|out: EditOutcome|
                {
                    &&& edit_step(old(t).input(), ev, final(t).input(), out)
                    &&& polled_from(out, p, final(t).input())
                    &&& final(t).quitting() == (old(t).quitting() || out is Quit)
                },
        },
{
    match event {
        None => Polled { line: None, screen: Screen::Keep },
        Some(ev) => {
            let ghost before = t.input();
            let ghost e = ev;
            let out = t.state.apply(ev);
            let ghost go = out;
            let res = match out {
                EditOutcome::Quit => {
                    t.quit = true;
                    Polled { line: None, screen: Screen::Keep }
                },
                EditOutcome::Submit(l) => Polled { line: Some(l), screen: Screen::ClearPrompt },
                EditOutcome::Redraw => {
                    let r = redraw(t);
                    Polled { line: None, screen: Screen::Redraw(r) }
                },
                EditOutcome::Ignore => Polled { line: None, screen: Screen::Keep },
            };
            proof {
                assert(edit_step(before, e, t.input(), go));
                assert(polled_from(go, res, t.input()));
            }
            res
        },
    }
}

/// Prepares `content` for the screen: it goes on a fresh line, and the
/// prompt line is drawn again below it (the cursor left where printing
/// ends).
pub fn write(t: &Tty, content: Vec<u8>) -> (w: Written)
    requires
        t.wf(),
    ensures
        w.content@ == content@,
        w.redisplay matches Some(r) && r.line@ == prompt_text(t.input().0) && r.column is None,
{
    let mut line: Vec<u8> = Vec::new();
    push_str(&mut line, "> ");
    let text = t.state.text();
    push_str(&mut line, text.as_str());
    Written { content, redisplay: Some(Redisplay { line, column: None }) }
}

/// A line of text: `s` and a newline.
pub fn println(s: &str) -> (out: Vec<u8>)
    ensures
        out@ == utf8_of(s@) + seq![10u8],
{
    let mut out: Vec<u8> = Vec::new();
    push_str(&mut out, s);
    out.push(10u8);
    out
}

/// A status message: the message and a newline.
pub fn status(msg: &str) -> (out: Vec<u8>)
    ensures
        out@ == utf8_of(msg@) + seq![10u8],
{
    println(msg)
}

/// What arrived: `[recv <size>]`, then each line of the data behind `<- `.
pub fn recv(data: &[u8]) -> (out: Vec<u8>)
    ensures
        out@ == transfer_text("recv"@, None, data@, "<- "@, seq![10u8]),
{
    let nl = newline_bytes();
    transfer("recv", None, data, "<- ", nl.as_slice())
}

/// What arrived from a peer: `[recv <peer> <size>]`, then the lines
/// behind `<- `.
pub fn recv_from(from: &str, data: &[u8]) -> (out: Vec<u8>)
    ensures
        out@ == transfer_text("recv"@, Some(from@), data@, "<- "@, seq![10u8]),
{
    let nl = newline_bytes();
    transfer("recv", Some(from), data, "<- ", nl.as_slice())
}

/// What was sent: `[send <size>]`, then each line of the data behind `-> `.
pub fn send(data: &[u8]) -> (out: Vec<u8>)
    ensures
        out@ == transfer_text("send"@, None, data@, "-> "@, seq![10u8]),
{
    let nl = newline_bytes();
    transfer("send", None, data, "-> ", nl.as_slice())
}

} // verus!
