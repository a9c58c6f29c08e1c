//! Verified core of `net_helper`, a terminal network diagnostic tool
//! (UDP, TCP, TLS, WebSocket and DNS): everything the tool decides,
//! parses and renders, with the I/O left to the caller.

pub mod args;
pub mod console;
pub mod dns;
pub mod editor;
pub mod frame;
pub mod output;
pub mod render;
pub mod session;
pub mod strings;
pub mod text;
pub mod tls;
pub mod tty;
pub mod version;
pub mod ws;
