//! The decisions of an interactive session: what to do with each line
//! the user enters, when to stop, and what to make of each outcome of
//! reading from the peer. The caller does the reading, writing and
//! waiting that the decisions name.

use vstd::prelude::*;
use crate::render::push_str;
use crate::strings::utf8_of;
use crate::text::same_text;

verus! {

/// How a session carries lines.
#[derive(Debug, Clone, Copy, PartialEq, Eq, Structural)]
pub enum Transport {
    /// A byte stream (TCP, TLS): every line goes out with a newline,
    /// empty lines too.
    Stream,
    /// Datagrams (UDP): one datagram per non-empty line.
    Datagram,
    /// WebSocket messages: one text message per non-empty line.
    Message,
}

/// What to do with a line the user entered.
#[derive(Debug)]
pub enum LineAction {
    /// Leave the session.
    Exit,
    /// Ignore the line and wait for the next.
    Skip,
    /// Send these bytes.
    Send(Vec<u8>),
}

/// The line that ends a session.
pub open spec fn quit_command() -> Seq<char> {
    "/quit"@
}

/// What a session does with `line`: it leaves when the connection is no
/// longer running or the line is `/quit`; datagram and message sessions
/// skip empty lines; a stream sends the line with a newline, the others
/// the line alone.
pub open spec fn line_action_spec(t: Transport, line: Seq<char>, running: bool) -> Option<Seq<u8>> {
    if !running || line == quit_command() {
        None
    } else if t == Transport::Stream {
        Some(utf8_of(line) + seq![10u8])
    } else {
        Some(utf8_of(line))
    }
}

/// Decides what to do with an entered line.
pub fn line_action(t: Transport, line: &str, running: bool) -> (a: LineAction)
    ensures
        match a {
            LineAction::Exit => line_action_spec(t, line@, running) is None,
            LineAction::Skip => t != Transport::Stream && running && line@ != quit_command()
                && line@.len() == 0,
            LineAction::Send(b) => !(t != Transport::Stream && line@.len() == 0)
                && line_action_spec(t, line@, running) == Some(b@),
        },
{
    if !running {
        return LineAction::Exit;
    }
    if same_text(line, "/quit") {
        return LineAction::Exit;
    }
    let mut data: Vec<u8> = Vec::new();
    push_str(&mut data, line);
    match t {
        Transport::Stream => {
            data.push(10u8);
            LineAction::Send(data)
        },
        _ => {
            if data.len() == 0 {
                proof {
                    if line@.len() > 0 {
                        vstd::utf8::encode_utf8_first_scalar(line@);
                    }
                }
                LineAction::Skip
            } else {
                proof {
                    if line@.len() == 0 {
                        assert(utf8_of(line@).len() == 0);
                    }
                }
                LineAction::Send(data)
            }
        },
    }
}

/// Whether a session stops before waiting for the next line: when the
/// user asked to quit, and for datagrams also when standard input ended.
pub open spec fn stop_before_poll_spec(t: Transport, quit_requested: bool, input_ended: bool) -> bool {
    quit_requested || (t == Transport::Datagram && input_ended)
}

/// Decides whether a session stops before waiting for the next line.
pub fn stop_before_poll(t: Transport, quit_requested: bool, input_ended: bool) -> (stop: bool)
    ensures
        stop == stop_before_poll_spec(t, quit_requested, input_ended),
{
    quit_requested || (matches!(t, Transport::Datagram) && input_ended)
}

/// What a session does at the end of a round of waiting for input.
#[derive(Debug, Clone, Copy, PartialEq, Eq, Structural)]
pub enum AfterRound {
    /// Wait for the next line.
    Continue,
    /// Leave the session.
    Exit,
    /// Standard input has ended: give the peer up to three seconds to
    /// close (what it still sends is shown meanwhile), then leave.
    AwaitClose,
}

/// Ends a round: a stream or message session leaves when the receiver
/// signalled the close or the connection stopped running, a datagram
/// session when it stopped running; a stream or message session whose
/// input has ended (pipes closed) waits for the peer's close, then leaves.
pub open spec fn after_round_spec(t: Transport, closed: bool, running: bool, input_ended: bool) -> AfterRound {
    match t {
        Transport::Datagram => if !running {
            AfterRound::Exit
        } else {
            AfterRound::Continue
        },
        Transport::Stream => if closed || !running {
            AfterRound::Exit
        } else if input_ended {
            AfterRound::AwaitClose
        } else {
            AfterRound::Continue
        },
        Transport::Message => if closed || !running {
            AfterRound::Exit
        } else if input_ended {
            AfterRound::AwaitClose
        } else {
            AfterRound::Continue
        },
    }
}

/// Decides how a round ends.
pub fn after_round(t: Transport, closed: bool, running: bool, input_ended: bool) -> (a: AfterRound)
    ensures
        a == after_round_spec(t, closed, running, input_ended),
{
    match t {
        Transport::Datagram => if !running {
            AfterRound::Exit
        } else {
            AfterRound::Continue
        },
        Transport::Stream => if closed || !running {
            AfterRound::Exit
        } else if input_ended {
            AfterRound::AwaitClose
        } else {
            AfterRound::Continue
        },
        Transport::Message => if closed || !running {
            AfterRound::Exit
        } else if input_ended {
            AfterRound::AwaitClose
        } else {
            AfterRound::Continue
        },
    }
}

/// Whether a failed send ends the session: it does for streams and
/// WebSocket messages, and a datagram session goes on.
pub fn send_failure_ends(t: Transport) -> (ends: bool)
    ensures
        ends == (t != Transport::Datagram),
{
    !matches!(t, Transport::Datagram)
}

/// How long a WebSocket session waits for the peer's close after sending
/// its own, in milliseconds: half a second when the user quit, three
/// seconds otherwise.
pub fn close_wait_ms(quit_requested: bool) -> (ms: u64)
    ensures
        ms == (if quit_requested {
            500u64
        } else {
            3000u64
        }),
{
    if quit_requested {
        500
    } else {
        3000
    }
}

/// What one read from a stream gave.
#[derive(Debug, Clone, Copy, PartialEq, Eq, Structural)]
pub enum ReadOutcome {
    /// This many bytes (0: the peer closed the stream).
    Data(usize),
    /// Nothing yet (non-blocking read).
    WouldBlock,
    /// The read timed out.
    TimedOut,
    /// Any other error.
    Failed,
}

/// What a stream receiver does next.
#[derive(Debug, Clone, Copy, PartialEq, Eq, Structural)]
pub enum ReceiverStep {
    /// Show the bytes read and read again.
    Show,
    /// The peer closed: report "Connection closed by remote", stop the
    /// session, signal the close and end.
    Closed,
    /// Sleep 20 ms and read again.
    Wait,
    /// The session is over: end quietly.
    Stop,
    /// Report "Connection lost", stop the session, signal the close and end.
    Lost,
}

/// The stream receiver's decision on a read, given whether the session
/// is still running.
pub open spec fn receiver_step_spec(r: ReadOutcome, running: bool) -> ReceiverStep {
    match r {
        ReadOutcome::Data(n) => if n == 0 {
            ReceiverStep::Closed
        } else {
            ReceiverStep::Show
        },
        ReadOutcome::WouldBlock | ReadOutcome::TimedOut => if running {
            ReceiverStep::Wait
        } else {
            ReceiverStep::Stop
        },
        ReadOutcome::Failed => ReceiverStep::Lost,
    }
}

/// Decides what a stream receiver does with a read.
pub fn receiver_step(r: ReadOutcome, running: bool) -> (s: ReceiverStep)
    ensures
        s == receiver_step_spec(r, running),
{
    match r {
        ReadOutcome::Data(n) => if n == 0 {
            ReceiverStep::Closed
        } else {
            ReceiverStep::Show
        },
        ReadOutcome::WouldBlock | ReadOutcome::TimedOut => if running {
            ReceiverStep::Wait
        } else {
            ReceiverStep::Stop
        },
        ReadOutcome::Failed => ReceiverStep::Lost,
    }
}

/// Whether a receiver step ends the receiver.
pub open spec fn ends_receiver(s: ReceiverStep) -> bool {
    s is Closed || s is Lost || s is Stop
}

/// Whether a receiver step signals the close (and stops the session).
pub open spec fn signals_close(s: ReceiverStep) -> bool {
    s is Closed || s is Lost
}

/// The steps a stream receiver takes over a run of reads (`outs[i]`, the
/// session running or not as `running[i]` says), up to and including the
/// first step that ends it.
pub open spec fn receiver_run(outs: Seq<ReadOutcome>, running: Seq<bool>) -> Seq<ReceiverStep>
    decreases outs.len(),
{
    if outs.len() == 0 || running.len() == 0 {
        Seq::empty()
    } else {
        let s = receiver_step_spec(outs[0], running[0]);
        if ends_receiver(s) {
            seq![s]
        } else {
            seq![s] + receiver_run(outs.drop_first(), running.drop_first())
        }
    }
}

/// A receiver signals the close at most once, as its last step, and it
/// does so exactly when a read in its run found the stream closed by the
/// peer or failed; no step of the run comes after an ending one.
pub proof fn receiver_signals_at_most_once(outs: Seq<ReadOutcome>, running: Seq<bool>)
    ensures
        ({
            let run = receiver_run(outs, running);
            &&& run.len() <= outs.len()
            &&& forall|i: int| 0 <= i < run.len() - 1 ==> !ends_receiver(#[trigger] run[i])
            &&& forall|i: int, j: int|
                0 <= i < run.len() && 0 <= j < run.len() && signals_close(#[trigger] run[i])
                    && signals_close(#[trigger] run[j]) ==> i == j
            &&& (exists|i: int| 0 <= i < run.len() && signals_close(#[trigger] run[i])) <==> (exists|
                i: int,
            |
                0 <= i < run.len() && (#[trigger] outs[i] == ReadOutcome::Data(0)
                    || outs[i] == ReadOutcome::Failed))
        }),
    decreases outs.len(),
{
    let run = receiver_run(outs, running);
    if outs.len() == 0 || running.len() == 0 {
    } else {
        let s = receiver_step_spec(outs[0], running[0]);
        let o0 = outs[0];
        assert(signals_close(s) <==> (o0 == ReadOutcome::Data(0) || o0 == ReadOutcome::Failed));
        if ends_receiver(s) {
            assert(run == seq![s]);
            if signals_close(s) {
                assert(signals_close(run[0]));
            }
            if o0 == ReadOutcome::Data(0) || o0 == ReadOutcome::Failed {
                assert(outs[0] == o0);
            }
        } else {
            let rest = receiver_run(outs.drop_first(), running.drop_first());
            receiver_signals_at_most_once(outs.drop_first(), running.drop_first());
            assert(run == seq![s] + rest);
            assert forall|i: int| 0 <= i < run.len() - 1 implies !ends_receiver(#[trigger] run[i]) by {
                if i > 0 {
                    assert(run[i] == rest[i - 1]);
                }
            }
            assert forall|i: int, j: int|
                0 <= i < run.len() && 0 <= j < run.len() && signals_close(#[trigger] run[i])
                    && signals_close(#[trigger] run[j]) implies i == j by {
                assert(i > 0 && j > 0);
                assert(run[i] == rest[i - 1]);
                assert(run[j] == rest[j - 1]);
            }
            if exists|i: int| 0 <= i < run.len() && signals_close(#[trigger] run[i]) {
                let i = choose|i: int| 0 <= i < run.len() && signals_close(#[trigger] run[i]);
                assert(i > 0);
                assert(signals_close(rest[i - 1]));
                let k = choose|k: int|
                    0 <= k < rest.len() && (#[trigger] outs.drop_first()[k] == ReadOutcome::Data(0)
                        || outs.drop_first()[k] == ReadOutcome::Failed);
                assert(outs[k + 1] == outs.drop_first()[k]);
            }
            if exists|i: int|
                0 <= i < run.len() && (#[trigger] outs[i] == ReadOutcome::Data(0) || outs[i]
                    == ReadOutcome::Failed) {
                let i = choose|i: int|
                    0 <= i < run.len() && (#[trigger] outs[i] == ReadOutcome::Data(0) || outs[i]
                        == ReadOutcome::Failed);
                assert(i > 0);
                assert(outs.drop_first()[i - 1] == outs[i]);
                let k = choose|k: int| 0 <= k < rest.len() && signals_close(#[trigger] rest[k]);
                assert(run[k + 1] == rest[k]);
            }
        }
    }
}

/// What a datagram receiver does next: show what came, try again, or end
/// because the session stopped.
#[derive(Debug, Clone, Copy, PartialEq, Eq, Structural)]
pub enum DatagramStep {
    Show,
    Retry,
    Stop,
}

/// The datagram receiver's decision: a datagram is shown; a timeout or
/// an error is retried while the session runs; the receiver ends once it
/// no longer runs. (`received` is whether a datagram came.)
pub fn datagram_step(received: bool, running: bool) -> (s: DatagramStep)
    ensures
        s == (if received {
            DatagramStep::Show
        } else if running {
            DatagramStep::Retry
        } else {
            DatagramStep::Stop
        }),
{
    if received {
        DatagramStep::Show
    } else if running {
        DatagramStep::Retry
    } else {
        DatagramStep::Stop
    }
}

/// What one read of a WebSocket gave.
#[derive(Debug, Clone, Copy, PartialEq, Eq, Structural)]
pub enum WsRead {
    /// A text or binary message.
    Data,
    /// The peer's close.
    Close,
    /// Ping, pong or a raw frame.
    Control,
    /// Nothing yet (non-blocking socket).
    WouldBlock,
    /// Any other error.
    Failed,
}

/// What a WebSocket receiver does next.
#[derive(Debug, Clone, Copy, PartialEq, Eq, Structural)]
pub enum WsStep {
    /// Show the message and read again.
    Show,
    /// Read again at once.
    Next,
    /// Sleep 20 ms and read again.
    Wait,
    /// Signal the close and end. `announce`: report first that the
    /// connection was lost (`lost`) or closed by the peer; `stop`: mark
    /// the session as no longer running.
    End { announce: bool, stop: bool, lost: bool },
}

/// The WebSocket receiver's decision on a read: messages are shown and
/// control frames passed over; the peer's close or an error ends it,
/// reported ("Connection closed by remote", "Connection lost") only while
/// the session still runs; with nothing to read it waits while the
/// session runs and ends quietly once it does not.
pub open spec fn ws_step_spec(r: WsRead, running: bool) -> WsStep {
    match r {
        WsRead::Data => WsStep::Show,
        WsRead::Control => WsStep::Next,
        WsRead::Close => WsStep::End { announce: running, stop: true, lost: false },
        WsRead::WouldBlock => if running {
            WsStep::Wait
        } else {
            WsStep::End { announce: false, stop: false, lost: false }
        },
        WsRead::Failed => WsStep::End { announce: running, stop: true, lost: true },
    }
}

/// Decides what a WebSocket receiver does with a read.
pub fn ws_step(r: WsRead, running: bool) -> (s: WsStep)
    ensures
        s == ws_step_spec(r, running),
{
    match r {
        WsRead::Data => WsStep::Show,
        WsRead::Control => WsStep::Next,
        WsRead::Close => WsStep::End { announce: running, stop: true, lost: false },
        WsRead::WouldBlock => if running {
            WsStep::Wait
        } else {
            WsStep::End { announce: false, stop: false, lost: false }
        },
        WsRead::Failed => WsStep::End { announce: running, stop: true, lost: true },
    }
}


/// Closing standard input ends every session: a datagram session stops
/// before it waits for input again, a stream or message session leaves
/// at the end of the round (at most after waiting for the peer's close).
pub proof fn input_end_ends_session(t: Transport, quit: bool, closed: bool, running: bool)
    ensures
        stop_before_poll_spec(t, quit, true) || after_round_spec(t, closed, running, true)
            != AfterRound::Continue,
{
}

/// A line the user enters is sent as typed while the session runs,
/// unless it is `/quit`: a stream adds a newline, datagrams and messages
/// carry it alone.
pub proof fn entered_line_is_sent(t: Transport, line: Seq<char>)
    requires
        line != quit_command(),
    ensures
        line_action_spec(t, line, true) == Some(
            if t == Transport::Stream {
                utf8_of(line) + seq![10u8]
            } else {
                utf8_of(line)
            },
        ),
{
}

/// `/quit` ends every session: whatever the transport, and whether or
/// not the connection still runs, the line is not sent and the session
/// leaves.
pub proof fn quit_line_ends_session(t: Transport, running: bool)
    ensures
        line_action_spec(t, "/quit"@, running) is None,
{
}

/// A request to quit (Ctrl+C) stops every session before it waits for
/// input again, whatever the transport and whether or not input ended.
pub proof fn quit_request_stops_session(t: Transport, input_ended: bool)
    ensures
        stop_before_poll_spec(t, true, input_ended),
{
}

} // verus!
