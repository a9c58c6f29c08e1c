//! The text the console writes around a transfer: a tag line naming the
//! direction, the peer when there is one, and the size, then the framed
//! payload.

use vstd::prelude::*;
use crate::frame::{framed, write_prefixed};
use crate::strings::utf8_of;
use crate::text::{size_fmt, size_text};

verus! {

/// Appends the UTF-8 bytes of `s` to `v`.
pub fn push_str(v: &mut Vec<u8>, s: &str)
    ensures
        final(v)@ == old(v)@ + utf8_of(s@),
{
    let b = s.as_bytes();
    v.extend_from_slice(b);
}

/// A lone newline.
pub fn newline_bytes() -> (v: Vec<u8>)
    ensures
        v@ == seq![10u8],
{
    vec![10u8]
}

/// The tag line of a transfer, `[<kind> <peer> <size>]` (the peer only
/// when there is one), ended by `eol`.
pub open spec fn tag_line(kind: Seq<char>, peer: Option<Seq<char>>, n: nat, eol: Seq<u8>) -> Seq<u8> {
    utf8_of("["@) + utf8_of(kind) + utf8_of(" "@) + match peer {
        Some(p) => utf8_of(p) + utf8_of(" "@),
        None => Seq::<u8>::empty(),
    } + utf8_of(size_text(n)) + utf8_of("]"@) + eol
}

/// A whole transfer: its tag line, then every line of the payload behind
/// `marker`, each ended by `eol`.
pub open spec fn transfer_text(
    kind: Seq<char>,
    peer: Option<Seq<char>>,
    data: Seq<u8>,
    marker: Seq<char>,
    eol: Seq<u8>,
) -> Seq<u8> {
    tag_line(kind, peer, data.len(), eol) + framed(data, utf8_of(marker), eol)
}

/// Renders a transfer as `transfer_text` describes it.
pub fn transfer(kind: &str, peer: Option<&str>, data: &[u8], marker: &str, eol: &[u8]) -> (out: Vec<u8>)
    ensures
        out@ == transfer_text(
            kind@,
            match peer {
                Some(p) => Some(p@),
                None => None,
            },
            data@,
            marker@,
            eol@,
        ),
{
    let mut out: Vec<u8> = Vec::new();
    push_str(&mut out, "[");
    push_str(&mut out, kind);
    push_str(&mut out, " ");
    match peer {
        Some(p) => {
            push_str(&mut out, p);
            push_str(&mut out, " ");
        },
        None => {},
    }
    let size = size_fmt(data.len());
    push_str(&mut out, size.as_str());
    push_str(&mut out, "]");
    out.extend_from_slice(eol);
    let body = write_prefixed(data, marker.as_bytes(), eol);
    let mut body_mut = body;
    out.append(&mut body_mut);
    proof {
        let pe = match peer {
            Some(p) => Some(p@),
            None => None,
        };
        assert(out@ =~= transfer_text(kind@, pe, data@, marker@, eol@));
    }
    out
}

} // verus!
