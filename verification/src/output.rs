//! Plain stdout printing with ANSI line control: every message first
//! clears the line the prompt stands on (or the line above it, for what
//! was just typed) and ends by printing the prompt again.

use vstd::prelude::*;
use crate::render::{newline_bytes, push_str, transfer, transfer_text};
use crate::strings::utf8_of;

verus! {

/// Moves up a line and clears it: ESC `[1A`, carriage return, ESC `[2K`.
pub open spec fn clr_up_text() -> Seq<char> {
    seq!['\x1b', '[', '1', 'A', '\r', '\x1b', '[', '2', 'K']
}

/// Clears the current line: carriage return, ESC `[2K`.
pub open spec fn clr_text() -> Seq<char> {
    seq!['\r', '\x1b', '[', '2', 'K']
}

/// The code that clears the previous line.
pub fn clr_up() -> (s: &'static str)
    ensures
        s@ == clr_up_text(),
{
    proof { reveal_strlit("\x1b[1A\r\x1b[2K"); }
    "\x1b[1A\r\x1b[2K"
}

/// The code that clears the current line.
pub fn clr() -> (s: &'static str)
    ensures
        s@ == clr_text(),
{
    proof { reveal_strlit("\r\x1b[2K"); }
    "\r\x1b[2K"
}

/// A status line: cleared line, message, newline.
pub fn status(msg: &str) -> (out: Vec<u8>)
    ensures
        out@ == utf8_of(clr_text()) + utf8_of(msg@) + seq![10u8],
{
    let mut out: Vec<u8> = Vec::new();
    push_str(&mut out, clr());
    push_str(&mut out, msg);
    out.push(10u8);
    out
}

/// The prompt.
pub fn prompt() -> (out: Vec<u8>)
    ensures
        out@ == utf8_of("> "@),
{
    let mut out: Vec<u8> = Vec::new();
    push_str(&mut out, "> ");
    out
}

/// What was sent: the typed line is cleared, then `[send <size>]` and the
/// lines behind `-> `, then the prompt.
pub fn send(data: &[u8]) -> (out: Vec<u8>)
    ensures
        out@ == utf8_of(clr_up_text()) + transfer_text("send"@, None, data@, "-> "@, seq![10u8])
            + utf8_of("> "@),
{
    let mut out: Vec<u8> = Vec::new();
    push_str(&mut out, clr_up());
    let nl = newline_bytes();
    let mut body = transfer("send", None, data, "-> ", nl.as_slice());
    out.append(&mut body);
    push_str(&mut out, "> ");
    out
}

/// What arrived: the prompt line is cleared, then `[recv <size>]` and the
/// lines behind `<- `, then the prompt.
pub fn recv(data: &[u8]) -> (out: Vec<u8>)
    ensures
        out@ == utf8_of(clr_text()) + transfer_text("recv"@, None, data@, "<- "@, seq![10u8])
            + utf8_of("> "@),
{
    let mut out: Vec<u8> = Vec::new();
    push_str(&mut out, clr());
    let nl = newline_bytes();
    let mut body = transfer("recv", None, data, "<- ", nl.as_slice());
    out.append(&mut body);
    push_str(&mut out, "> ");
    out
}

/// What arrived from a peer: the prompt line is cleared, then
/// `[recv <peer> <size>]` and the lines behind `<- `, then the prompt.
pub fn recv_from(from: &str, data: &[u8]) -> (out: Vec<u8>)
    ensures
        out@ == utf8_of(clr_text()) + transfer_text("recv"@, Some(from@), data@, "<- "@, seq![10u8])
            + utf8_of("> "@),
{
    let mut out: Vec<u8> = Vec::new();
    push_str(&mut out, clr());
    let nl = newline_bytes();
    let mut body = transfer("recv", Some(from), data, "<- ", nl.as_slice());
    out.append(&mut body);
    push_str(&mut out, "> ");
    out
}

} // verus!
