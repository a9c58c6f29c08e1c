use net_helper::args::{handshake_url, parse_ws_url};
use net_helper::dns::{resolve, Endpoint};
use net_helper::editor::{EditOutcome, InputState, KeyCode, KeyPress, TermEvent};
use net_helper::console::pipe::{Pipe, PipeRecv};
use net_helper::console::{self, ConsoleInput};
use net_helper::session::{
    after_round, line_action, receiver_step, stop_before_poll, AfterRound, LineAction, ReadOutcome,
    ReceiverStep, Transport,
};
use net_helper::tls::read_proceeds;
use net_helper::tls::IoRound;

fn key(code: KeyCode) -> TermEvent {
    TermEvent::Key(KeyPress { code, ctrl: false, release: false })
}

#[test]
fn backspace_undoes_typing() {
    let mut st = InputState::new();
    for c in "héllo".chars() {
        st.apply(key(KeyCode::Char(c)));
        st.apply(key(KeyCode::End));
    }
    st.apply(key(KeyCode::Home));
    let before = (st.text(), st.cursor());
    st.apply(key(KeyCode::Char('x')));
    st.apply(key(KeyCode::Backspace));
    assert_eq!((st.text(), st.cursor()), before);
}

#[test]
fn left_then_right_and_moves_keep_text() {
    let mut st = InputState::new();
    st.apply(TermEvent::Paste("abc".to_string()));
    st.apply(key(KeyCode::Left));
    st.apply(key(KeyCode::Right));
    assert_eq!((st.text().as_str(), st.cursor()), ("abc", 3));
    for k in [KeyCode::Home, KeyCode::Right, KeyCode::End, KeyCode::Left] {
        st.apply(key(k));
        assert_eq!(st.text(), "abc");
        assert!(st.cursor() <= 3);
    }
}

#[test]
fn typing_at_end_appends() {
    let mut st = InputState::new();
    st.apply(TermEvent::Paste("ab".to_string()));
    st.apply(key(KeyCode::Char('c')));
    assert_eq!((st.text().as_str(), st.cursor()), ("abc", 3));
}

#[test]
fn entered_line_is_sent_as_typed() {
    let mut st = InputState::new();
    st.apply(TermEvent::Paste("PING".to_string()));
    let line = match st.apply(key(KeyCode::Enter)) {
        EditOutcome::Submit(l) => l,
        _ => panic!(),
    };
    match line_action(Transport::Stream, &line, true) {
        LineAction::Send(b) => assert_eq!(b, b"PING\n".to_vec()),
        _ => panic!(),
    }
    match line_action(Transport::Message, &line, true) {
        LineAction::Send(b) => assert_eq!(b, b"PING".to_vec()),
        _ => panic!(),
    }
}

#[test]
fn ipv4_only_unless_ipv6_or_literal() {
    let v4 = Endpoint::V4 { octets: [10, 0, 0, 1], port: 1 };
    let v6 = Endpoint::V6 { segments: [0xfe80, 0, 0, 0, 0, 0, 0, 1], port: 1, flowinfo: 0, scope_id: 2 };
    let r = resolve(Some(vec![v4, v6, v4]), false, false);
    assert_eq!(r.len(), 2);
    assert!(r.iter().all(|e| matches!(e, Endpoint::V4 { .. })));
    assert_eq!(resolve(Some(vec![v6]), false, true).len(), 1);
    assert_eq!(resolve(Some(vec![v4, v4]), false, false).len(), 2);
}

#[test]
fn handshake_url_reads_back() {
    for u in ["ws://h:1/p", "wss://example.com/x?y=1", "ws://127.0.0.1", "wss://a:70000/b"] {
        let t = parse_ws_url(u).unwrap();
        let back = parse_ws_url(&handshake_url(&t)).unwrap();
        assert_eq!(back.secure, t.secure);
        assert_eq!(back.host, t.host);
        assert_eq!(back.port, t.port);
        assert_eq!(back.path, t.path);
    }
}

#[test]
fn reads_go_on_after_a_blocked_round() {
    assert!(read_proceeds(IoRound::WouldBlock));
    assert!(read_proceeds(IoRound::Progress { wrote: 0, read: 0 }));
    assert!(!read_proceeds(IoRound::Failed));
}

#[test]
fn closed_input_ends_a_stream_session() {
    for t in [Transport::Stream, Transport::Message, Transport::Datagram] {
        let stopped = stop_before_poll(t, false, true);
        let after = after_round(t, false, true, true);
        assert!(stopped || after != AfterRound::Continue);
    }
    assert_eq!(after_round(Transport::Stream, false, true, true), AfterRound::AwaitClose);
    assert_eq!(after_round(Transport::Stream, false, true, false), AfterRound::Continue);
}

#[test]
fn receiver_run_signals_once_at_its_end() {
    let reads = [
        ReadOutcome::Data(4),
        ReadOutcome::WouldBlock,
        ReadOutcome::TimedOut,
        ReadOutcome::Data(0),
    ];
    let mut steps = Vec::new();
    for r in reads {
        let s = receiver_step(r, true);
        steps.push(s);
        if !matches!(s, ReceiverStep::Show | ReceiverStep::Wait) {
            break;
        }
    }
    assert_eq!(
        steps,
        vec![ReceiverStep::Show, ReceiverStep::Wait, ReceiverStep::Wait, ReceiverStep::Closed]
    );
    let signals = steps
        .iter()
        .filter(|s| matches!(s, ReceiverStep::Closed | ReceiverStep::Lost))
        .count();
    assert_eq!(signals, 1);
    assert_eq!(receiver_step(ReadOutcome::WouldBlock, false), ReceiverStep::Stop);
}

#[test]
fn pipe_hands_on_lines_in_order_then_ends() {
    let mut p = Pipe::new();
    let mut got = Vec::new();
    let recvs = vec![
        PipeRecv::Line("one".to_string()),
        PipeRecv::Timeout,
        PipeRecv::Line("two".to_string()),
        PipeRecv::Line("three".to_string()),
    ];
    for r in recvs {
        if let Some(l) = p.poll(r) {
            got.push(l);
        }
        assert!(!p.is_eof());
    }
    assert_eq!(p.poll(PipeRecv::Disconnected), None);
    assert!(p.is_eof());
    assert_eq!(p.poll(PipeRecv::Timeout), None);
    assert!(p.is_eof());
    assert_eq!(got, vec!["one".to_string(), "two".to_string(), "three".to_string()]);
}

#[test]
fn quit_and_end_of_input_stay_set() {
    let mut c = console::init(false);
    assert!(!console::quit_requested(&c));
    assert!(!console::eof(&c));
    console::poll(&mut c, ConsoleInput::Line(PipeRecv::Disconnected));
    assert!(console::eof(&c));
    console::set_quit(&mut c);
    assert!(console::quit_requested(&c));
    console::poll(&mut c, ConsoleInput::Line(PipeRecv::Timeout));
    assert!(console::quit_requested(&c));
    assert!(console::eof(&c));
    let t = console::init(true);
    assert!(!console::eof(&t));
}
