//! The console backend for pipes and scripts: lines come from standard
//! input, read by a background reader, and the end of input is remembered.

use vstd::prelude::*;

verus! {

/// What waiting for the next input line gave.
#[derive(Debug)]
pub enum PipeRecv {
    /// A line (without its line end).
    Line(String),
    /// No line within the wait.
    Timeout,
    /// The reader is gone: standard input has ended.
    Disconnected,
}

/// One wait's effect on the backend: the line handed on, if any, and
/// whether the end of input has been seen afterwards.
pub open spec fn pipe_step(eof: bool, r: PipeRecv) -> (Option<String>, bool) {
    match r {
        PipeRecv::Line(l) => (Some(l), eof),
        PipeRecv::Timeout => (None, eof),
        PipeRecv::Disconnected => (None, true),
    }
}

/// The lines handed on over a run of waits, in order, and whether the end
/// of input has been seen at its end, starting from `eof`.
pub open spec fn pipe_run(eof: bool, rs: Seq<PipeRecv>) -> (Seq<String>, bool)
    decreases rs.len(),
{
    if rs.len() == 0 {
        (Seq::empty(), eof)
    } else {
        let (line, e) = pipe_step(eof, rs[0]);
        let (rest, end) = pipe_run(e, rs.drop_first());
        (
            match line {
                Some(l) => seq![l] + rest,
                None => rest,
            },
            end,
        )
    }
}

/// The lines that the reader delivered over a run of waits, in order.
pub open spec fn delivered(rs: Seq<PipeRecv>) -> Seq<String>
    decreases rs.len(),
{
    if rs.len() == 0 {
        Seq::empty()
    } else {
        match rs[0] {
            PipeRecv::Line(l) => seq![l] + delivered(rs.drop_first()),
            _ => delivered(rs.drop_first()),
        }
    }
}

/// Over any run of waits, the backend hands on exactly the lines the
/// reader delivered, in order, each once; and it has seen the end of
/// input exactly when it started so or the reader vanished in the run.
pub proof fn pipe_run_delivers_lines(eof: bool, rs: Seq<PipeRecv>)
    ensures
        pipe_run(eof, rs).0 == delivered(rs),
        pipe_run(eof, rs).1 == (eof || exists|i: int| 0 <= i < rs.len() && rs[i] is Disconnected),
    decreases rs.len(),
{
    if rs.len() > 0 {
        let e = pipe_step(eof, rs[0]).1;
        pipe_run_delivers_lines(e, rs.drop_first());
        if e || exists|i: int| 0 <= i < rs.drop_first().len() && rs.drop_first()[i] is Disconnected {
            if !e {
                let i = choose|i: int| 0 <= i < rs.drop_first().len() && rs.drop_first()[i] is Disconnected;
                assert(rs[i + 1] is Disconnected);
            }
        }
        if exists|i: int| 0 <= i < rs.len() && rs[i] is Disconnected {
            let i = choose|i: int| 0 <= i < rs.len() && rs[i] is Disconnected;
            if i > 0 {
                assert(rs.drop_first()[i - 1] is Disconnected);
            }
        }
    }
}

/// The line backend's state: whether standard input has ended.
pub struct Pipe {
    eof: bool,
}

impl View for Pipe {
    /// Whether the end of input was seen.
    type V = bool;

    closed spec fn view(&self) -> bool {
        self.eof
    }
}

impl Pipe {
    /// A backend that has not seen the end of input.
    pub fn new() -> (p: Self)
        ensures
            !p@,
    {
        Pipe { eof: false }
    }

    /// Nothing to restore for a pipe.
    pub fn cleanup(&self) {
    }

    /// Takes the outcome of one wait for a line: a line is handed on,
    /// a timeout gives nothing, and a vanished reader gives nothing and
    /// marks the end of input.
    pub fn poll(&mut self, recv: PipeRecv) -> (line: Option<String>)
        ensures
            (line, final(self)@) == pipe_step(old(self)@, recv),
            match recv {
                PipeRecv::Line(l) => line == Some(l) && final(self)@ == old(self)@,
                PipeRecv::Timeout => line is None && final(self)@ == old(self)@,
                PipeRecv::Disconnected => line is None && final(self)@,
            },
    {
        match recv {
            PipeRecv::Line(l) => Some(l),
            PipeRecv::Timeout => None,
            PipeRecv::Disconnected => {
                self.eof = true;
                None
            },
        }
    }

    /// Whether standard input has ended.
    pub fn is_eof(&self) -> (e: bool)
        ensures
            e == self@,
    {
        self.eof
    }
}

} // verus!
