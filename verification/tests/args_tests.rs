use net_helper::args::{
    command, handshake_url, parse_dns, parse_tcp, parse_udp, parse_ws, parse_ws_url, socket_query,
    unbracketed,
    ArgError, Command,
};

fn v(a: &[&str]) -> Vec<String> {
    a.iter().map(|s| s.to_string()).collect()
}

#[test]
fn command_selection() {
    assert_eq!(command(&v(&["nh"])), Command::Missing);
    assert_eq!(command(&v(&["nh", "-u"])), Command::Udp);
    assert_eq!(command(&v(&["nh", "--tcp"])), Command::Tcp);
    assert_eq!(command(&v(&["nh", "-d", "x"])), Command::Dns);
    assert_eq!(command(&v(&["nh", "-ws"])), Command::WebSocket);
    assert_eq!(command(&v(&["nh", "-h"])), Command::Help);
    assert_eq!(command(&v(&["nh", "--version"])), Command::Version);
    assert_eq!(command(&v(&["nh", "-x"])), Command::Unknown);
    assert_eq!(command(&v(&["nh", "--ws"])), Command::Unknown);
}

#[test]
fn tcp_arguments() {
    let t = parse_tcp(&v(&["-t", "-tls", "example.com", "443", "-6"])).unwrap();
    assert_eq!(t.host, "example.com");
    assert_eq!(t.port, 443);
    assert!(t.tls);
    assert!(t.ipv6);
    let t = parse_tcp(&v(&["-t", "h", "80"])).unwrap();
    assert!(!t.tls && !t.ipv6);
    assert!(matches!(parse_tcp(&v(&["-t", "h"])), Err(ArgError::Usage)));
    match parse_tcp(&v(&["-t", "h", "http"])) {
        Err(ArgError::InvalidPort(p)) => assert_eq!(p, "http"),
        _ => panic!(),
    }
    assert!(matches!(parse_tcp(&v(&["-t", "h", "70000"])), Err(ArgError::InvalidPort(_))));
}

#[test]
fn udp_and_dns_arguments() {
    let u = parse_udp(&v(&["-u", "example.com", "2077"])).unwrap();
    assert_eq!((u.host.as_str(), u.port, u.ipv6), ("example.com", 2077, false));
    let u = parse_udp(&v(&["-u", "h", "oops", "-ipv6"])).unwrap();
    assert_eq!(u.port, 0);
    assert!(u.ipv6);
    assert!(matches!(parse_udp(&v(&["-u", "h"])), Err(ArgError::Usage)));
    assert_eq!(parse_dns(&v(&["-d", "qq.com"])).unwrap(), "qq.com");
    assert!(matches!(parse_dns(&v(&["-d"])), Err(ArgError::Usage)));
    assert_eq!(socket_query("qq.com", 0), "qq.com:0");
}

#[test]
fn websocket_urls() {
    let t = parse_ws_url("ws://127.0.0.1:9001/echo").unwrap();
    assert!(!t.secure);
    assert_eq!((t.host.as_str(), t.port, t.path.as_str()), ("127.0.0.1", 9001, "/echo"));
    assert_eq!(handshake_url(&t), "ws://127.0.0.1:9001/echo");
    let t = parse_ws_url("wss://example.com").unwrap();
    assert!(t.secure);
    assert_eq!((t.host.as_str(), t.port, t.path.as_str()), ("example.com", 443, "/"));
    assert_eq!(handshake_url(&t), "wss://example.com:443/");
    let t = parse_ws_url("ws://h:bad/p/q").unwrap();
    assert_eq!((t.host.as_str(), t.port, t.path.as_str()), ("h", 80, "/p/q"));
    let t = parse_ws_url("ws://hé:81").unwrap();
    assert_eq!((t.host.as_str(), t.port), ("hé", 81));
    assert!(parse_ws_url("http://x").is_none());
    assert!(matches!(parse_ws(&v(&["-ws", "ftp://x"])), Err(ArgError::BadScheme)));
    assert!(matches!(parse_ws(&v(&["-ws"])), Err(ArgError::Usage)));
    let (t, ipv6) = parse_ws(&v(&["-ws", "ws://a/b", "-6"])).unwrap();
    assert_eq!(t.host, "a");
    assert!(ipv6);
}

#[test]
fn brackets_come_off_an_address() {
    assert_eq!(unbracketed("[::1]"), "::1");
    assert_eq!(unbracketed("[fe80::1%eth0]"), "fe80::1%eth0");
    assert_eq!(unbracketed("10.0.0.1"), "10.0.0.1");
    assert_eq!(unbracketed("example.com"), "example.com");
    assert_eq!(unbracketed("[]"), "");
    assert_eq!(unbracketed("["), "[");
    assert_eq!(unbracketed("[::1"), "[::1");
    assert_eq!(unbracketed("::1]"), "::1]");
}
