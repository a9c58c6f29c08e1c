//! The console: one face for an interactive terminal (raw mode, a line
//! editor, `\r\n` line ends) and for pipes (plain lines, `\n` line ends),
//! picked once by whether standard output is a terminal. It decides and
//! renders; the caller reads events and writes the bytes.

pub mod pipe;
pub mod term;

use vstd::prelude::*;
use crate::editor::{edit_step, event_allowed, EditOutcome, TermEvent};
use crate::render::{push_str, transfer, transfer_text};
use crate::strings::utf8_of;
use self::pipe::{Pipe, PipeRecv};
use self::term::{prompt_column, prompt_text, Redisplay, Term};

verus! {

/// The two kinds of console.
pub enum Backend {
    /// An interactive terminal in raw mode.
    Raw(Term),
    /// Pipes: standard input read line by line.
    Line(Pipe),
}

/// The console's state: its backend and whether the user asked to quit.
pub struct Console {
    backend: Backend,
    quit: bool,
}

/// What the caller got from waiting for input.
pub enum ConsoleInput {
    /// For a terminal: the event read, or `None` when none came in time.
    Key(Option<TermEvent>),
    /// For pipes: the outcome of waiting for a line.
    Line(PipeRecv),
}

/// What the screen needs after an input.
pub enum Screen {
    Keep,
    /// Clear the prompt line (a line was just entered).
    ClearPrompt,
    /// Redraw the prompt.
    Redraw(Redisplay),
}

/// The result of one poll: the line entered, if any, and the screen update.
pub struct Polled {
    pub line: Option<String>,
    pub screen: Screen,
}

/// Output ready to write: the content, and for a terminal the prompt to
/// put back below it (the current line being cleared first).
pub struct Written {
    pub content: Vec<u8>,
    pub redisplay: Option<Redisplay>,
}

/// The line end of a console: `\r\n` in raw mode, where a bare newline
/// would not return to the first column, `\n` in pipes.
pub open spec fn eol_bytes(raw: bool) -> Seq<u8> {
    if raw {
        seq![13u8, 10u8]
    } else {
        seq![10u8]
    }
}

/// How a terminal outcome shows in a poll result, the editor being in
/// state `after` (bytes and cursor) once it is handled.
pub open spec fn polled_from(out: EditOutcome, p: Polled, after: (Seq<u8>, nat)) -> bool {
    match out {
        EditOutcome::Quit => p.line is None && p.screen is Keep,
        EditOutcome::Submit(l) => p.line == Some(l) && p.screen is ClearPrompt,
        EditOutcome::Redraw => {
            &&& p.line is None
            &&& p.screen matches Screen::Redraw(r)
            &&& r.line@ == prompt_text(after.0)
            &&& r.column == Some(prompt_column(after.1))
        },
        EditOutcome::Ignore => p.line is None && p.screen is Keep,
    }
}

impl Console {
    /// Whether this is the terminal console.
    pub closed spec fn raw(&self) -> bool {
        self.backend is Raw
    }

    /// Whether the user asked to quit.
    pub closed spec fn quitting(&self) -> bool {
        self.quit
    }

    /// Whether standard input has ended (pipes only).
    pub closed spec fn at_eof(&self) -> bool {
        match self.backend {
            Backend::Raw(_) => false,
            Backend::Line(p) => p@,
        }
    }

    /// The terminal editor's buffer bytes and cursor (empty for pipes).
    pub closed spec fn input(&self) -> (Seq<u8>, nat) {
        match self.backend {
            Backend::Raw(t) => t.input(),
            Backend::Line(_) => (Seq::<u8>::empty(), 0nat),
        }
    }

    /// The editor's cursor lies within its buffer, and the buffer within
    /// `isize::MAX` bytes (trivially so for pipes).
    pub open spec fn wf(&self) -> bool {
        self.input().1 <= self.input().0.len() <= isize::MAX
    }
}

/// How the console's state may move from `a` to `b` by a poll or a
/// request to quit: its kind never changes, the wish to quit and the end
/// of input once seen stay, and a terminal never sees an end of input.
pub open spec fn console_step(a: Console, b: Console) -> bool {
    &&& b.raw() == a.raw()
    &&& a.quitting() ==> b.quitting()
    &&& a.at_eof() ==> b.at_eof()
    &&& b.raw() ==> !b.at_eof()
}

/// Over any history of polls and requests to quit, the console keeps its
/// kind (chosen once, at `init`), and a wish to quit or an end of input,
/// once there, stays to the end; a terminal console never reports an end
/// of input.
pub proof fn console_history(cs: Seq<Console>)
    requires
        cs.len() > 0,
        forall|i: int| 0 <= i < cs.len() - 1 ==> #[trigger] console_step(cs[i], cs[i + 1]),
    ensures
        forall|i: int| 0 <= i < cs.len() ==> console_step(cs[0], #[trigger] cs[i]),
{
    assert forall|i: int| 0 <= i < cs.len() implies console_step(cs[0], #[trigger] cs[i]) by {
        lemma_history_prefix(cs, i);
    }
}

proof fn lemma_history_prefix(cs: Seq<Console>, i: int)
    requires
        0 <= i < cs.len(),
        forall|j: int| 0 <= j < cs.len() - 1 ==> #[trigger] console_step(cs[j], cs[j + 1]),
    ensures
        console_step(cs[0], cs[i]),
    decreases i,
{
    if i > 0 {
        lemma_history_prefix(cs, i - 1);
        let j = i - 1;
        assert(console_step(cs[j], cs[j + 1]));
        assert(j + 1 == i);
    }
    assert(cs[i].raw() ==> !cs[i].at_eof());
}

/// Whether an input is of the kind the console reads, and one that its
/// editor can take.
pub open spec fn input_fits(c: Console, input: ConsoleInput) -> bool {
    match input {
        ConsoleInput::Key(ev) => c.raw() && (ev matches Some(e) ==> event_allowed(
            c.input().0,
            c.input().1,
            e,
        )),
        ConsoleInput::Line(_) => !c.raw(),
    }
}

/// Sets the console up: the terminal kind when standard output is a
/// terminal, the pipe kind otherwise; nobody has asked to quit yet.
pub fn init(stdout_is_terminal: bool) -> (c: Console)
    ensures
        c.wf(),
        c.raw() == stdout_is_terminal,
        !c.quitting(),
        !c.at_eof(),
        c.input() == (Seq::<u8>::empty(), 0nat),
{
    if stdout_is_terminal {
        Console { backend: Backend::Raw(Term::new()), quit: false }
    } else {
        Console { backend: Backend::Line(Pipe::new()), quit: false }
    }
}

/// Whether closing the console must give the terminal back (leave raw
/// mode, clear the prompt): only for the terminal kind.
pub fn cleanup(c: &Console) -> (restore: bool)
    ensures
        restore == c.raw(),
{
    match &c.backend {
        Backend::Raw(_) => true,
        Backend::Line(p) => {
            p.cleanup();
            false
        },
    }
}

/// Whether the user asked to quit (Ctrl+C at the terminal).
pub fn quit_requested(c: &Console) -> (q: bool)
    ensures
        q == c.quitting(),
{
    c.quit
}

/// Records that the user asked to quit.
pub fn set_quit(c: &mut Console)
    ensures
        console_step(*old(c), *final(c)),
        final(c).quitting(),
        final(c).raw() == old(c).raw(),
        final(c).at_eof() == old(c).at_eof(),
        final(c).input() == old(c).input(),
        final(c).wf() == old(c).wf(),
{
    c.quit = true;
}

/// Whether standard input has ended: never for a terminal.
pub fn eof(c: &Console) -> (e: bool)
    ensures
        e == c.at_eof(),
        c.raw() ==> !e,
{
    match &c.backend {
        Backend::Line(p) => p.is_eof(),
        Backend::Raw(_) => false,
    }
}

/// Whether the editor can take `input` (what `poll` requires beyond its
/// kind).
pub fn accepts(c: &Console, input: &ConsoleInput) -> (ok: bool)
    requires
        c.wf(),
        input matches ConsoleInput::Key(Some(TermEvent::Paste(t))) ==> utf8_of(t@).len()
            <= isize::MAX,
    ensures
        ok == input_fits(*c, *input),
{
    match (&c.backend, input) {
        (Backend::Raw(t), ConsoleInput::Key(Some(ev))) => t.allows(ev),
        (Backend::Raw(_), ConsoleInput::Key(None)) => true,
        (Backend::Line(_), ConsoleInput::Line(_)) => true,
        _ => false,
    }
}

/// Handles what one wait for input gave. At a terminal, Ctrl+C records
/// the wish to quit, Enter hands back the line and clears the prompt, an
/// edit redraws the prompt; in pipes a line is handed on and a vanished
/// reader marks the end of input.
pub fn poll(c: &mut Console, input: ConsoleInput) -> (p: Polled)
    requires
        old(c).wf(),
        input_fits(*old(c), input),
    ensures
        final(c).wf(),
        final(c).raw() == old(c).raw(),
        console_step(*old(c), *final(c)),
        match input {
            ConsoleInput::Key(None) => {
                &&& p.line is None
                &&& p.screen is Keep
                &&& final(c).quitting() == old(c).quitting()
                &&& final(c).input() == old(c).input()
            },
            ConsoleInput::Key(Some(ev)) => exists|out: EditOutcome|
                {
                    &&& edit_step(old(c).input(), ev, final(c).input(), out)
                    &&& polled_from(out, p, final(c).input())
                    &&& final(c).quitting() == (old(c).quitting() || out is Quit)
                },
            ConsoleInput::Line(r) => {
                &&& p.screen is Keep
                &&& final(c).quitting() == old(c).quitting()
                &&& match r {
                    PipeRecv::Line(l) => p.line == Some(l) && final(c).at_eof() == old(c).at_eof(),
                    PipeRecv::Timeout => p.line is None && final(c).at_eof() == old(c).at_eof(),
                    PipeRecv::Disconnected => p.line is None && final(c).at_eof(),
                }
            },
        },
{
    match input {
        ConsoleInput::Key(None) => Polled { line: None, screen: Screen::Keep },
        ConsoleInput::Key(Some(ev)) => {
            let ghost before = c.input();
            let ghost e = ev;
            let ghost mut witness = EditOutcome::Ignore;
            let (res, quit) = match &mut c.backend {
                Backend::Raw(t) => {
                    let out = t.poll(Some(ev));
                    let ghost go = out;
                    let res = match out {
                        EditOutcome::Quit => (Polled { line: None, screen: Screen::Keep }, true),
                        EditOutcome::Submit(l) => (
                            Polled { line: Some(l), screen: Screen::ClearPrompt },
                            false,
                        ),
                        EditOutcome::Redraw => {
                            let r = t.prompt();
                            (Polled { line: None, screen: Screen::Redraw(r) }, false)
                        },
                        EditOutcome::Ignore => (Polled { line: None, screen: Screen::Keep }, false),
                    };
                    proof {
                        assert(edit_step(before, e, t.input(), go));
                        assert(polled_from(go, res.0, t.input()));
                        assert(res.1 == go is Quit);
                        witness = go;
                    }
                    res
                },
                Backend::Line(_) => (Polled { line: None, screen: Screen::Keep }, false),
            };
            if quit {
                c.quit = true;
            }
            proof {
                assert(edit_step(before, e, c.input(), witness));
                assert(polled_from(witness, res, c.input()));
            }
            res
        },
        ConsoleInput::Line(r) => match &mut c.backend {
            Backend::Line(pipe) => {
                let line = pipe.poll(r);
                Polled { line, screen: Screen::Keep }
            },
            Backend::Raw(_) => Polled { line: None, screen: Screen::Keep },
        },
    }
}

/// The console's line end.
pub fn eol(c: &Console) -> (e: Vec<u8>)
    ensures
        e@ == eol_bytes(c.raw()),
{
    match &c.backend {
        Backend::Raw(_) => vec![13u8, 10u8],
        Backend::Line(_) => vec![10u8],
    }
}

/// Prepares `content` for the screen: at a terminal the prompt is cleared
/// before it and drawn again after it; in pipes it goes out as it is.
pub fn write(c: &Console, content: Vec<u8>) -> (w: Written)
    requires
        c.wf(),
    ensures
        w.content@ == content@,
        c.raw() ==> {
            &&& w.redisplay matches Some(r)
            &&& r.line@ == prompt_text(c.input().0)
            &&& r.column == Some(prompt_column(c.input().1))
        },
        !c.raw() ==> w.redisplay is None,
{
    match &c.backend {
        Backend::Raw(t) => t.write(content),
        Backend::Line(_) => Written { content, redisplay: None },
    }
}

/// A line of text: `s` and the line end.
pub fn println(c: &Console, s: &str) -> (out: Vec<u8>)
    ensures
        out@ == utf8_of(s@) + eol_bytes(c.raw()),
{
    let mut out: Vec<u8> = Vec::new();
    push_str(&mut out, s);
    let mut e = eol(c);
    out.append(&mut e);
    out
}

/// A status message: the message and the line end.
pub fn status(c: &Console, msg: &str) -> (out: Vec<u8>)
    ensures
        out@ == utf8_of(msg@) + eol_bytes(c.raw()),
{
    println(c, msg)
}

/// What arrived: `[recv <size>]`, then each line of the data behind `<- `.
pub fn recv(c: &Console, data: &[u8]) -> (out: Vec<u8>)
    ensures
        out@ == transfer_text("recv"@, None, data@, "<- "@, eol_bytes(c.raw())),
{
    let e = eol(c);
    transfer("recv", None, data, "<- ", e.as_slice())
}

/// What arrived from a peer: `[recv <peer> <size>]`, then each line of the
/// data behind `<- `.
pub fn recv_from(c: &Console, from: &str, data: &[u8]) -> (out: Vec<u8>)
    ensures
        out@ == transfer_text("recv"@, Some(from@), data@, "<- "@, eol_bytes(c.raw())),
{
    let e = eol(c);
    transfer("recv", Some(from), data, "<- ", e.as_slice())
}

/// What was sent: `[send <size>]`, then each line of the data behind `-> `.
pub fn send(c: &Console, data: &[u8]) -> (out: Vec<u8>)
    ensures
        out@ == transfer_text("send"@, None, data@, "-> "@, eol_bytes(c.raw())),
{
    let e = eol(c);
    transfer("send", None, data, "-> ", e.as_slice())
}

} // verus!
