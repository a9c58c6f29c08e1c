use net_helper::dns::{record_label, report_header, resolve_query, select_addrs, Endpoint};
use net_helper::session::{
    after_round, close_wait_ms, datagram_step, line_action, receiver_step, send_failure_ends,
    stop_before_poll, ws_step, AfterRound, DatagramStep, LineAction, ReadOutcome, ReceiverStep,
    Transport, WsRead, WsStep,
};
use net_helper::tls::{
    client_connection, default_root_store, flush_step, handshake_step, server_name,
    verifying_config, HandshakeStep, IoRound, TlsSetupError,
};
use net_helper::version::{civil_date, is_leap, version_stamp, version_text};
use net_helper::ws::opening_request;
use net_helper::args::parse_ws_url;

#[test]
fn lines_of_a_session() {
    assert!(matches!(line_action(Transport::Stream, "/quit", true), LineAction::Exit));
    assert!(matches!(line_action(Transport::Stream, "x", false), LineAction::Exit));
    match line_action(Transport::Stream, "", true) {
        LineAction::Send(b) => assert_eq!(b, b"\n".to_vec()),
        _ => panic!(),
    }
    match line_action(Transport::Stream, "GET /", true) {
        LineAction::Send(b) => assert_eq!(b, b"GET /\n".to_vec()),
        _ => panic!(),
    }
    assert!(matches!(line_action(Transport::Datagram, "", true), LineAction::Skip));
    match line_action(Transport::Message, "hi", true) {
        LineAction::Send(b) => assert_eq!(b, b"hi".to_vec()),
        _ => panic!(),
    }
    assert!(stop_before_poll(Transport::Datagram, false, true));
    assert!(!stop_before_poll(Transport::Stream, false, true));
    assert!(stop_before_poll(Transport::Message, true, false));
}

#[test]
fn rounds_and_failures() {
    assert_eq!(after_round(Transport::Stream, true, true, false), AfterRound::Exit);
    assert_eq!(after_round(Transport::Stream, false, true, true), AfterRound::AwaitClose);
    assert_eq!(after_round(Transport::Stream, false, true, false), AfterRound::Continue);
    assert_eq!(after_round(Transport::Datagram, true, true, false), AfterRound::Continue);
    assert_eq!(after_round(Transport::Datagram, false, false, false), AfterRound::Exit);
    assert_eq!(after_round(Transport::Message, false, true, true), AfterRound::AwaitClose);
    assert_eq!(after_round(Transport::Message, false, false, true), AfterRound::Exit);
    assert!(send_failure_ends(Transport::Stream));
    assert!(!send_failure_ends(Transport::Datagram));
    assert_eq!(close_wait_ms(true), 500);
    assert_eq!(close_wait_ms(false), 3000);
}

#[test]
fn receivers() {
    assert_eq!(receiver_step(ReadOutcome::Data(0), true), ReceiverStep::Closed);
    assert_eq!(receiver_step(ReadOutcome::Data(5), false), ReceiverStep::Show);
    assert_eq!(receiver_step(ReadOutcome::WouldBlock, true), ReceiverStep::Wait);
    assert_eq!(receiver_step(ReadOutcome::TimedOut, false), ReceiverStep::Stop);
    assert_eq!(receiver_step(ReadOutcome::Failed, true), ReceiverStep::Lost);
    assert_eq!(datagram_step(true, false), DatagramStep::Show);
    assert_eq!(datagram_step(false, true), DatagramStep::Retry);
    assert_eq!(datagram_step(false, false), DatagramStep::Stop);
    assert_eq!(ws_step(WsRead::Data, false), WsStep::Show);
    assert_eq!(ws_step(WsRead::Control, true), WsStep::Next);
    assert_eq!(ws_step(WsRead::Close, true), WsStep::End { announce: true, stop: true, lost: false });
    assert_eq!(ws_step(WsRead::Close, false), WsStep::End { announce: false, stop: true, lost: false });
    assert_eq!(ws_step(WsRead::WouldBlock, true), WsStep::Wait);
    assert_eq!(ws_step(WsRead::WouldBlock, false), WsStep::End { announce: false, stop: false, lost: false });
    assert_eq!(ws_step(WsRead::Failed, true), WsStep::End { announce: true, stop: true, lost: true });
}

#[test]
fn address_selection_and_report() {
    let v4 = Endpoint::V4 { octets: [1, 2, 3, 4], port: 80 };
    let v6 = Endpoint::V6 { segments: [0, 0, 0, 0, 0, 0, 0, 1], port: 80, flowinfo: 0, scope_id: 0 };
    let only4 = net_helper::dns::resolve(Some(vec![v6, v4, v6]), false, false);
    assert_eq!(only4.len(), 1);
    assert!(matches!(only4[0], Endpoint::V4 { octets: [1, 2, 3, 4], port: 80 }));
    assert_eq!(select_addrs(vec![v6, v4], true).len(), 2);
    assert!(net_helper::dns::resolve(None, true, false).is_empty());
    assert_eq!(resolve_query("example.com", 443), "example.com:443");
    assert_eq!(report_header("qq.com", 1), "qq.com (1 record):");
    assert_eq!(report_header("qq.com", 3), "qq.com (3 records):");
    assert_eq!(record_label(&v4), "  IPv4  ");
    assert_eq!(record_label(&v6), "  IPv6  ");
}

#[test]
fn calendar_and_version() {
    assert!(is_leap(2000) && is_leap(2024) && !is_leap(1900) && !is_leap(2023));
    assert_eq!(civil_date(0), (1970, 1, 1));
    assert_eq!(civil_date(59), (1970, 3, 1));
    assert_eq!(civil_date(11016), (2000, 2, 29));
    assert_eq!(civil_date(19675), (2023, 11, 14));
    assert_eq!(version_stamp("1.0.0", 0), "1.0.0+19700101.0800");
    assert_eq!(version_stamp("1.0.0", 1_700_000_000), "1.0.0+20231115.0613");
    assert_eq!(version_stamp("1.0.0", 1_779_846_240), "1.0.0+20260527.0944");
    assert_eq!(version_text(Some("2.1.0"), "1.0.0", 0), "2.1.0");
    assert_eq!(version_text(Some(""), "1.0.0", 0), "1.0.0+19700101.0800");
    assert_eq!(version_text(None, "0.3.1", 86400 * 365), "0.3.1+19710101.0800");
}

#[test]
fn tls_setup() {
    let store = default_root_store();
    assert_eq!(store.len(), webpki_roots::TLS_SERVER_ROOTS.len());
    assert_eq!(store.len(), 120);
    assert_eq!(store.roots[0].subject, webpki_roots::TLS_SERVER_ROOTS[0].subject);
    assert!(server_name("example.com").is_ok());
    assert!(server_name("127.0.0.1").is_ok());
    assert!(matches!(server_name("bad name!"), Err(TlsSetupError::InvalidDomain)));
    let cfg = verifying_config();
    assert!(client_connection(cfg.clone(), "example.com").is_ok());
    assert!(matches!(client_connection(cfg, "no such host!"), Err(TlsSetupError::InvalidDomain)));
}

#[test]
fn tls_loops() {
    let p = |wrote| IoRound::Progress { wrote, read: 0 };
    assert_eq!(handshake_step(p(0), true, true), HandshakeStep::Again);
    assert_eq!(handshake_step(p(3), true, true), HandshakeStep::Done);
    assert_eq!(handshake_step(p(0), false, false), HandshakeStep::Done);
    let read_only = IoRound::Progress { wrote: 0, read: 7 };
    assert_eq!(handshake_step(read_only, true, true), HandshakeStep::Again);
    assert_eq!(handshake_step(IoRound::WouldBlock, true, true), HandshakeStep::Pause);
    assert_eq!(handshake_step(IoRound::WouldBlock, true, false), HandshakeStep::Fail);
    assert_eq!(handshake_step(IoRound::Failed, true, true), HandshakeStep::Fail);
    assert_eq!(flush_step(p(1)), HandshakeStep::Again);
    assert_eq!(flush_step(IoRound::WouldBlock), HandshakeStep::Done);
    assert_eq!(flush_step(IoRound::Failed), HandshakeStep::Fail);
}

#[test]
fn websocket_request() {
    let t = parse_ws_url("ws://127.0.0.1:9001/echo").unwrap();
    let req = opening_request(&t).unwrap();
    assert_eq!(req.uri().to_string(), "ws://127.0.0.1:9001/echo");
    let parsed: tungstenite::http::Uri = net_helper::args::handshake_url(&t).parse().unwrap();
    assert_eq!(req.uri(), &parsed);
    let bad = parse_ws_url("ws://a b/").unwrap();
    assert!(opening_request(&bad).is_err());
}
