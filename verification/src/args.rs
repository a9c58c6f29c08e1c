//! The command line: which tool to run, and the arguments of each tool
//! (hosts, ports, flags, WebSocket URLs), as the tool reads them.

use vstd::prelude::*;
use vstd::utf8::*;
use crate::strings::utf8_of;
use crate::text::{
    all_digits, decimal, has_prefix, parse_u16, parse_u16_spec, push_decimal, same_text,
    starts_with_bytes,
};

verus! {

broadcast use vstd::utf8::group_utf8_lib;

/// The tool that the first argument selects.
#[derive(Debug, Clone, Copy, PartialEq, Eq, Structural)]
pub enum Command {
    /// `-u`, `--udp`
    Udp,
    /// `-t`, `--tcp`
    Tcp,
    /// `-d`, `--dns`
    Dns,
    /// `-ws`
    WebSocket,
    /// `-h`, `--help`
    Help,
    /// `-v`, `--version`
    Version,
    /// Any other first argument.
    Unknown,
    /// No argument at all.
    Missing,
}

/// A mistake in a tool's arguments.
#[derive(Debug)]
pub enum ArgError {
    /// Too few arguments: the tool's usage line is shown.
    Usage,
    /// The port is not a number from 0 to 65535 (the text given).
    InvalidPort(String),
    /// A WebSocket URL that starts with neither `ws://` nor `wss://`.
    BadScheme,
}

/// The command that a first argument names.
pub open spec fn command_of(flag: Seq<char>) -> Command {
    if flag == "-u"@ || flag == "--udp"@ {
        Command::Udp
    } else if flag == "-t"@ || flag == "--tcp"@ {
        Command::Tcp
    } else if flag == "-d"@ || flag == "--dns"@ {
        Command::Dns
    } else if flag == "-ws"@ {
        Command::WebSocket
    } else if flag == "-h"@ || flag == "--help"@ {
        Command::Help
    } else if flag == "-v"@ || flag == "--version"@ {
        Command::Version
    } else {
        Command::Unknown
    }
}

/// The command that a command line (program name first) selects.
pub open spec fn command_spec(args: Seq<String>) -> Command {
    if args.len() < 2 {
        Command::Missing
    } else {
        command_of(args[1]@)
    }
}

/// Selects the tool from the command line (program name first).
pub fn command(args: &[String]) -> (c: Command)
    ensures
        c == command_spec(args@),
{
    if args.len() < 2 {
        return Command::Missing;
    }
    let f = args[1].as_str();
    if same_text(f, "-u") || same_text(f, "--udp") {
        Command::Udp
    } else if same_text(f, "-t") || same_text(f, "--tcp") {
        Command::Tcp
    } else if same_text(f, "-d") || same_text(f, "--dns") {
        Command::Dns
    } else if same_text(f, "-ws") {
        Command::WebSocket
    } else if same_text(f, "-h") || same_text(f, "--help") {
        Command::Help
    } else if same_text(f, "-v") || same_text(f, "--version") {
        Command::Version
    } else {
        Command::Unknown
    }
}

/// Whether one of `args[from..]` is `a` or `b`.
pub open spec fn has_arg(args: Seq<String>, from: int, a: Seq<char>, b: Seq<char>) -> bool {
    exists|i: int| from <= i < args.len() && (args[i]@ == a || args[i]@ == b)
}

/// Whether one of `args[from..]` is `a` or `b`.
pub fn any_arg(args: &[String], from: usize, a: &str, b: &str) -> (r: bool)
    ensures
        r == has_arg(args@, from as int, a@, b@),
{
    let mut i = from;
    while i < args.len()
        invariant
            from <= i,
            forall|j: int| from <= j < i ==> !(args@[j]@ == a@ || args@[j]@ == b@),
        decreases args.len() - i,
    {
        if same_text(args[i].as_str(), a) || same_text(args[i].as_str(), b) {
            assert(from <= i && (args@[i as int]@ == a@ || args@[i as int]@ == b@));
            return true;
        }
        i = i + 1;
    }
    false
}

/// Whether an argument is an option (it starts with `-`).
pub open spec fn is_option(a: Seq<char>) -> bool {
    a.len() > 0 && a[0] == '-'
}

/// The arguments that are not options, in order.
pub open spec fn positionals(args: Seq<String>) -> Seq<String>
    decreases args.len(),
{
    if args.len() == 0 {
        Seq::empty()
    } else if is_option(args.last()@) {
        positionals(args.drop_last())
    } else {
        positionals(args.drop_last()).push(args.last())
    }
}

fn starts_with_dash(s: &str) -> (r: bool)
    ensures
        r == is_option(s@),
{
    let b = s.as_bytes();
    proof {
        if s@.len() > 0 {
            encode_utf8_first_scalar(s@);
            lemma_first_char_ascii(s@);
        } else {
            assert(utf8_of(s@).len() == 0);
        }
    }
    b.len() > 0 && b[0] == 45u8
}

/// The first byte of an encoding is 0x2d exactly when the first
/// character is `-`.
proof fn lemma_first_char_ascii(s: Seq<char>)
    requires
        s.len() > 0,
    ensures
        utf8_of(s).len() > 0,
        (utf8_of(s)[0] == 45u8) == (s[0] == '-'),
{
    reveal_with_fuel(encode_utf8, 1);
    let c = s[0] as u32;
    char_is_scalar(s[0]);
    char_u32_cast(s[0], c);
    assert(('-' as u32) == 45);
    char_u32_cast('-', 45);
    assert(encode_utf8(s) == encode_scalar(c) + encode_utf8(s.drop_first()));
    if c < 0x80 {
        assert(encode_scalar(c)[0] == leading_byte_width_1(c));
        assert(leading_byte_width_1(c) == c as u8) by (bit_vector)
            requires
                c < 0x80,
        ;
    } else if c < 0x800 {
        assert(encode_scalar(c)[0] == leading_byte_width_2(c));
        assert(leading_byte_width_2(c) >= 0xc0) by (bit_vector)
            requires
                0x80 <= c < 0x800,
        ;
    } else if c < 0x10000 {
        assert(encode_scalar(c)[0] == leading_byte_width_3(c));
        assert(leading_byte_width_3(c) >= 0xe0) by (bit_vector)
            requires
                0x800 <= c < 0x10000,
        ;
    } else {
        assert(encode_scalar(c)[0] == leading_byte_width_4(c));
        assert(leading_byte_width_4(c) >= 0xf0) by (bit_vector)
            requires
                0x10000 <= c,
                c <= 0x10ffff,
        ;
    }
}

/// The arguments of `args` that are not options.
pub fn collect_positionals(args: &[String]) -> (r: Vec<String>)
    ensures
        r@ == positionals(args@),
{
    let mut r: Vec<String> = Vec::new();
    let mut i: usize = 0;
    while i < args.len()
        invariant
            i <= args.len(),
            r@ == positionals(args@.take(i as int)),
        decreases args.len() - i,
    {
        proof {
            assert(args@.take(i + 1).drop_last() =~= args@.take(i as int));
            assert(args@.take(i + 1).last() == args@[i as int]);
        }
        if !starts_with_dash(args[i].as_str()) {
            r.push(args[i].clone());
        }
        i = i + 1;
    }
    proof {
        assert(args@.take(i as int) =~= args@);
    }
    r
}

/// What the TCP tool connects to.
#[derive(Debug)]
pub struct TcpArgs {
    pub host: String,
    pub port: u16,
    /// `-tls` / `--tls`: wrap the connection in TLS.
    pub tls: bool,
    /// `-ipv6` / `-6`: also use IPv6 addresses.
    pub ipv6: bool,
}

/// How the TCP tool reads its arguments (`args[0]` being its own flag):
/// the first two arguments that are not options are host and port.
pub open spec fn tcp_args_ok(args: Seq<String>, r: TcpArgs) -> bool {
    let sub = args.skip(1);
    let pos = positionals(sub);
    &&& pos.len() >= 2
    &&& r.host@ == pos[0]@
    &&& parse_u16_spec(utf8_of(pos[1]@)) == Some(r.port)
    &&& r.tls == has_arg(sub, 0, "-tls"@, "--tls"@)
    &&& r.ipv6 == has_arg(sub, 0, "-ipv6"@, "-6"@)
}

/// Reads the TCP tool's arguments (`args[0]` is the tool's own flag):
/// fewer than two non-option arguments is a usage error, an unreadable
/// port an invalid port.
pub fn parse_tcp(args: &[String]) -> (r: Result<TcpArgs, ArgError>)
    requires
        args.len() >= 1,
    ensures
        match r {
            Ok(t) => tcp_args_ok(args@, t),
            Err(ArgError::Usage) => positionals(args@.skip(1)).len() < 2,
            Err(ArgError::InvalidPort(p)) => {
                let pos = positionals(args@.skip(1));
                &&& pos.len() >= 2
                &&& p@ == pos[1]@
                &&& parse_u16_spec(utf8_of(pos[1]@)) is None
            },
            Err(ArgError::BadScheme) => false,
        },
{
    let sub = vstd::slice::slice_subrange(args, 1, args.len());
    assert(sub@ == args@.skip(1));
    let tls = any_arg(sub, 0, "-tls", "--tls");
    let pos = collect_positionals(sub);
    if pos.len() < 2 {
        return Err(ArgError::Usage);
    }
    let port = match parse_u16(pos[1].as_str()) {
        Some(p) => p,
        None => {
            return Err(ArgError::InvalidPort(pos[1].clone()));
        },
    };
    let ipv6 = any_arg(sub, 0, "-ipv6", "-6");
    Ok(TcpArgs { host: pos[0].clone(), port, tls, ipv6 })
}

/// What the UDP tool sends to.
#[derive(Debug)]
pub struct UdpArgs {
    pub host: String,
    pub port: u16,
    pub ipv6: bool,
}

/// Reads the UDP tool's arguments (`args[0]` is its own flag): host and
/// port come first; a port that does not read as a number counts as 0.
pub fn parse_udp(args: &[String]) -> (r: Result<UdpArgs, ArgError>)
    ensures
        match r {
            Ok(u) => {
                &&& args.len() >= 3
                &&& u.host@ == args@[1]@
                &&& u.port == match parse_u16_spec(utf8_of(args@[2]@)) {
                    Some(p) => p,
                    None => 0u16,
                }
                &&& u.ipv6 == has_arg(args@, 0, "-ipv6"@, "-6"@)
            },
            Err(e) => e is Usage && args.len() < 3,
        },
{
    if args.len() < 3 {
        return Err(ArgError::Usage);
    }
    let port = match parse_u16(args[2].as_str()) {
        Some(p) => p,
        None => 0,
    };
    let ipv6 = any_arg(args, 0, "-ipv6", "-6");
    Ok(UdpArgs { host: args[1].clone(), port, ipv6 })
}

/// Reads the DNS tool's argument (`args[0]` is its own flag): the domain.
pub fn parse_dns(args: &[String]) -> (r: Result<String, ArgError>)
    ensures
        match r {
            Ok(d) => args.len() >= 2 && d@ == args@[1]@,
            Err(e) => e is Usage && args.len() < 2,
        },
{
    if args.len() < 2 {
        return Err(ArgError::Usage);
    }
    Ok(args[1].clone())
}

/// The address text the resolver is asked about: `host:port`.
pub fn socket_query(host: &str, port: u16) -> (q: String)
    ensures
        q@ == host@ + ":"@ + decimal(port as nat),
{
    let mut q = String::from_str(host);
    q.append(":");
    push_decimal(&mut q, port as u64);
    q
}

/// A host's text without one pair of enclosing brackets (`[::1]` reads
/// as `::1`), over UTF-8 bytes; text not enclosed in brackets stays as it is.
pub open spec fn unbracketed_spec(b: Seq<u8>) -> Seq<u8> {
    if b.len() >= 2 && b[0] == 91u8 && b[b.len() - 1] == 93u8 {
        b.subrange(1, b.len() - 1)
    } else {
        b
    }
}

/// The part of a host that is read as an IP address: the text inside
/// `[` and `]` when the host is enclosed in them, otherwise all of it.
pub fn unbracketed(host: &str) -> (r: &str)
    ensures
        utf8_of(r@) == unbracketed_spec(utf8_of(host@)),
{
    let b = host.as_bytes();
    let n = b.len();
    if n >= 2 && b[0] == 91u8 && b[n - 1] == 93u8 {
        proof {
            lemma_boundary_after_ascii(b@, 1);
        }
        let (_, rest) = host.split_at(1);
        let rb = rest.as_bytes();
        assert(rb@ == b@.skip(1));
        proof {
            lemma_boundary_at_ascii(rb@, n - 2);
        }
        let (inner, _) = rest.split_at(n - 2);
        assert(utf8_of(inner@) =~= b@.subrange(1, n - 1));
        inner
    } else {
        host
    }
}

/// Index of the first `x` in `b`, or `b.len()` when there is none.
pub open spec fn first_index(b: Seq<u8>, x: u8) -> nat
    decreases b.len(),
{
    if b.len() == 0 {
        0
    } else if b[0] == x {
        0
    } else {
        1 + first_index(b.drop_first(), x)
    }
}

proof fn lemma_first_index(b: Seq<u8>, x: u8)
    ensures
        first_index(b, x) <= b.len(),
        forall|j: int| 0 <= j < first_index(b, x) ==> b[j] != x,
        first_index(b, x) < b.len() ==> b[first_index(b, x) as int] == x,
    decreases b.len(),
{
    if b.len() > 0 && b[0] != x {
        lemma_first_index(b.drop_first(), x);
        assert forall|j: int| 0 <= j < first_index(b, x) implies b[j] != x by {
            if j > 0 {
                assert(b[j] == b.drop_first()[j - 1]);
            }
        }
    }
}

fn find_byte(b: &[u8], x: u8) -> (i: usize)
    ensures
        i == first_index(b@, x),
{
    proof {
        lemma_first_index(b@, x);
    }
    let mut i: usize = 0;
    while i < b.len()
        invariant
            i <= b.len(),
            forall|j: int| 0 <= j < i ==> b@[j] != x,
            first_index(b@, x) <= b.len(),
            forall|j: int| 0 <= j < first_index(b@, x) ==> b@[j] != x,
            first_index(b@, x) < b.len() ==> b@[first_index(b@, x) as int] == x,
        decreases b.len() - i,
    {
        if b[i] == x {
            return i;
        }
        i = i + 1;
    }
    i
}

/// Right after an ASCII byte, a valid UTF-8 text is at a character boundary.
proof fn lemma_boundary_after_ascii(b: Seq<u8>, k: int)
    requires
        valid_utf8(b),
        1 <= k <= b.len(),
        b[k - 1] < 0x80,
    ensures
        is_char_boundary(b, k),
    decreases b.len(),
{
    let w = length_of_first_scalar(b);
    let tail = pop_first_scalar(b);
    assert(valid_first_scalar(b));
    assert(valid_utf8(tail));
    if k > w {
        assert(tail[k - w - 1] == b[k - 1]);
        lemma_boundary_after_ascii(tail, k - w);
    }
}

/// An ASCII byte in a valid UTF-8 text starts a character.
proof fn lemma_boundary_at_ascii(b: Seq<u8>, k: int)
    requires
        valid_utf8(b),
        0 <= k <= b.len(),
        k < b.len() ==> b[k] < 0x80,
    ensures
        is_char_boundary(b, k),
{
    if k < b.len() {
        is_char_boundary_iff_not_is_continuation_byte(b, k);
    } else {
        is_char_boundary_start_end_of_seq(b);
    }
}

/// Where a WebSocket tool connects: scheme, host, port and request path.
#[derive(Debug)]
pub struct WsTarget {
    /// `wss://`: the connection runs over TLS.
    pub secure: bool,
    pub host: String,
    pub port: u16,
    pub path: String,
}

/// A WebSocket URL read as bytes: `secure`, host, port and path bytes.
pub struct WsParts {
    pub secure: bool,
    pub host: Seq<u8>,
    pub port: u16,
    pub path: Seq<u8>,
}

/// How the WebSocket tool reads a URL: it must start with `ws://` or
/// `wss://`; the host and port run up to the first `/` (the path, `/`
/// when there is none); the port follows the first `:`, and when there is
/// none, or it does not read as a number, it is 443 for `wss` and 80 for
/// `ws`.
pub open spec fn ws_parts(u: Seq<u8>) -> Option<WsParts> {
    let secure = has_prefix(u, utf8_of("wss://"@));
    let plain = has_prefix(u, utf8_of("ws://"@));
    if !secure && !plain {
        None
    } else {
        let rest = u.skip(
            if secure {
                utf8_of("wss://"@).len() as int
            } else {
                utf8_of("ws://"@).len() as int
            },
        );
        let s = first_index(rest, 47u8);
        let hp = rest.take(s as int);
        let path = if s < rest.len() {
            rest.skip(s as int)
        } else {
            utf8_of("/"@)
        };
        let c = first_index(hp, 58u8);
        let dflt: u16 = if secure {
            443
        } else {
            80
        };
        let port = if c < hp.len() {
            match parse_u16_spec(hp.skip(c as int + 1)) {
                Some(p) => p,
                None => dflt,
            }
        } else {
            dflt
        };
        Some(WsParts { secure, host: hp.take(c as int), port, path })
    }
}

proof fn lemma_prefix_bytes()
    ensures
        utf8_of("wss://"@) == seq![119u8, 115u8, 115u8, 58u8, 47u8, 47u8],
        utf8_of("ws://"@) == seq![119u8, 115u8, 58u8, 47u8, 47u8],
{
    reveal_strlit("wss://");
    reveal_strlit("ws://");
    assert(is_ascii_chars("wss://"@));
    assert(is_ascii_chars("ws://"@));
    assert(utf8_of("wss://"@) =~= seq![119u8, 115u8, 115u8, 58u8, 47u8, 47u8]);
    assert(utf8_of("ws://"@) =~= seq![119u8, 115u8, 58u8, 47u8, 47u8]);
}

/// Reads a WebSocket URL as `ws_parts` describes; `None` when the scheme
/// is neither `ws://` nor `wss://`.
pub fn parse_ws_url(url: &str) -> (r: Option<WsTarget>)
    ensures
        match r {
            None => ws_parts(utf8_of(url@)) is None,
            Some(t) => ws_parts(utf8_of(url@)) matches Some(p) && p.secure == t.secure
                && p.host == utf8_of(t.host@) && p.port == t.port && p.path == utf8_of(t.path@),
        },
{
    let b = url.as_bytes();
    let ghost u = b@;
    let secure = starts_with_bytes(b, "wss://".as_bytes());
    let plain = starts_with_bytes(b, "ws://".as_bytes());
    if !secure && !plain {
        return None;
    }
    proof {
        lemma_prefix_bytes();
    }
    let skip: usize = if secure {
        "wss://".as_bytes().len()
    } else {
        "ws://".as_bytes().len()
    };
    proof {
        assert(u[skip - 1] == 47u8) by {
            assert(u.take(skip as int)[skip - 1] == u[skip - 1]);
        }
        lemma_boundary_after_ascii(u, skip as int);
    }
    let (_, rest) = url.split_at(skip);
    let rb = rest.as_bytes();
    let ghost rs = rb@;
    assert(rs == u.skip(skip as int));
    let s = find_byte(rb, 47u8);
    proof {
        lemma_first_index(rs, 47u8);
        lemma_boundary_at_ascii(rs, s as int);
    }
    let (hp, path) = if s < rb.len() {
        let (hp, p) = rest.split_at(s);
        (hp, p.to_owned())
    } else {
        (rest, "/".to_owned())
    };
    let hb = hp.as_bytes();
    let ghost hs = hb@;
    assert(hs == rs.take(s as int));
    let c = find_byte(hb, 58u8);
    proof {
        lemma_first_index(hs, 58u8);
        lemma_boundary_at_ascii(hs, c as int);
    }
    let dflt: u16 = if secure {
        443
    } else {
        80
    };
    let (host, port) = if c < hb.len() {
        let (h, p) = hp.split_at(c);
        proof {
            assert(utf8_of(p@)[0] == 58u8);
            lemma_boundary_after_ascii(utf8_of(p@), 1);
        }
        let (_, digits) = p.split_at(1);
        assert(utf8_of(digits@) == hs.skip(c as int + 1));
        let port = match parse_u16(digits) {
            Some(v) => v,
            None => dflt,
        };
        (h.to_owned(), port)
    } else {
        (hp.to_owned(), dflt)
    };
    proof {
        assert(utf8_of(host@) == hs.take(c as int));
    }
    Some(WsTarget { secure, host, port, path })
}

/// The URL of the opening handshake: scheme, host, port, path, the port
/// always written out.
pub open spec fn handshake_url_text(t: WsTarget) -> Seq<char> {
    (if t.secure {
        "wss"@
    } else {
        "ws"@
    }) + "://"@ + t.host@ + ":"@ + decimal(t.port as nat) + t.path@
}

/// Builds the URL of the opening handshake.
pub fn handshake_url(t: &WsTarget) -> (s: String)
    ensures
        s@ == handshake_url_text(*t),
{
    let mut s = if t.secure {
        String::from_str("wss")
    } else {
        String::from_str("ws")
    };
    s.append("://");
    s.append(t.host.as_str());
    s.append(":");
    push_decimal(&mut s, t.port as u64);
    s.append(t.path.as_str());
    s
}

/// Reads the WebSocket tool's arguments (`args[0]` is its own flag): the
/// URL comes first, `-ipv6` / `-6` anywhere.
pub fn parse_ws(args: &[String]) -> (r: Result<(WsTarget, bool), ArgError>)
    ensures
        match r {
            Ok((t, ipv6)) => {
                &&& args.len() >= 2
                &&& ws_parts(utf8_of(args@[1]@)) matches Some(p) && p.secure == t.secure && p.host
                    == utf8_of(t.host@) && p.port == t.port && p.path == utf8_of(t.path@)
                &&& ipv6 == has_arg(args@, 0, "-ipv6"@, "-6"@)
            },
            Err(ArgError::Usage) => args.len() < 2,
            Err(ArgError::BadScheme) => args.len() >= 2 && ws_parts(utf8_of(args@[1]@)) is None,
            Err(ArgError::InvalidPort(_)) => false,
        },
{
    if args.len() < 2 {
        return Err(ArgError::Usage);
    }
    match parse_ws_url(args[1].as_str()) {
        None => Err(ArgError::BadScheme),
        Some(t) => {
            let ipv6 = any_arg(args, 0, "-ipv6", "-6");
            Ok((t, ipv6))
        },
    }
}


proof fn lemma_utf8_concat(a: Seq<char>, b: Seq<char>)
    ensures
        utf8_of(a + b) == utf8_of(a) + utf8_of(b),
    decreases a.len(),
{
    if a.len() == 0 {
        assert(a + b =~= b);
        assert(utf8_of(a) =~= Seq::<u8>::empty());
        assert(utf8_of(a) + utf8_of(b) =~= utf8_of(b));
    } else {
        assert((a + b).drop_first() =~= a.drop_first() + b);
        assert((a + b)[0] == a[0]);
        lemma_utf8_concat(a.drop_first(), b);
        assert(utf8_of(a + b) =~= utf8_of(a) + utf8_of(b));
    }
}

proof fn lemma_first_index_concat(a: Seq<u8>, b: Seq<u8>, x: u8)
    requires
        forall|j: int| 0 <= j < a.len() ==> a[j] != x,
    ensures
        first_index(a + b, x) == a.len() + first_index(b, x),
    decreases a.len(),
{
    if a.len() == 0 {
        assert(a + b =~= b);
    } else {
        assert((a + b)[0] == a[0]);
        assert((a + b).drop_first() =~= a.drop_first() + b);
        lemma_first_index_concat(a.drop_first(), b, x);
    }
}

proof fn lemma_literal_bytes()
    ensures
        utf8_of("wss"@) == seq![119u8, 115u8, 115u8],
        utf8_of("ws"@) == seq![119u8, 115u8],
        utf8_of("://"@) == seq![58u8, 47u8, 47u8],
        utf8_of(":"@) == seq![58u8],
{
    reveal_strlit("wss");
    reveal_strlit("ws");
    reveal_strlit("://");
    reveal_strlit(":");
    assert(is_ascii_chars("wss"@));
    assert(is_ascii_chars("ws"@));
    assert(is_ascii_chars("://"@));
    assert(is_ascii_chars(":"@));
    assert(utf8_of("wss"@) =~= seq![119u8, 115u8, 115u8]);
    assert(utf8_of("ws"@) =~= seq![119u8, 115u8]);
    assert(utf8_of("://"@) =~= seq![58u8, 47u8, 47u8]);
    assert(utf8_of(":"@) =~= seq![58u8]);
}

/// The opening request names the target the tool connects to: its
/// handshake URL reads back as the same scheme, host, port and path, for
/// any target whose host holds no `/` or `:` and whose path starts with
/// `/` (as every target read from a URL does).
pub proof fn handshake_url_parses_back(t: WsTarget)
    requires
        forall|j: int| 0 <= j < utf8_of(t.host@).len() ==> utf8_of(t.host@)[j] != 47u8 && utf8_of(
            t.host@,
        )[j] != 58u8,
        utf8_of(t.path@).len() > 0,
        utf8_of(t.path@)[0] == 47u8,
    ensures
        ws_parts(utf8_of(handshake_url_text(t))) matches Some(p) && p.secure == t.secure && p.host
            == utf8_of(t.host@) && p.port == t.port && p.path == utf8_of(t.path@),
{
    lemma_literal_bytes();
    lemma_prefix_bytes();
    let scheme = if t.secure {
        "wss"@
    } else {
        "ws"@
    };
    let h = utf8_of(t.host@);
    let d = utf8_of(decimal(t.port as nat));
    let pb = utf8_of(t.path@);
    let u = utf8_of(handshake_url_text(t));
    lemma_utf8_concat(scheme, "://"@);
    lemma_utf8_concat(scheme + "://"@, t.host@);
    lemma_utf8_concat(scheme + "://"@ + t.host@, ":"@);
    lemma_utf8_concat(scheme + "://"@ + t.host@ + ":"@, decimal(t.port as nat));
    lemma_utf8_concat(scheme + "://"@ + t.host@ + ":"@ + decimal(t.port as nat), t.path@);
    let head = utf8_of(scheme) + utf8_of("://"@);
    assert(u =~= head + h + seq![58u8] + d + pb);
    let rest = h + seq![58u8] + d + pb;
    crate::text::decimal_parses_back(t.port);
    crate::text::decimal_bytes_are_digits(t.port as nat);
    assert forall|j: int| 0 <= j < d.len() implies d[j] != 47u8 && d[j] != 58u8 by {
        assert(crate::text::is_digit(d[j]));
    }
    if t.secure {
        assert(u.take(6) =~= utf8_of("wss://"@));
        assert(has_prefix(u, utf8_of("wss://"@)));
        assert(u.skip(6) =~= rest);
    } else {
        assert(!has_prefix(u, utf8_of("wss://"@))) by {
            assert(u[2] == 58u8);
        }
        assert(u.take(5) =~= utf8_of("ws://"@));
        assert(has_prefix(u, utf8_of("ws://"@)));
        assert(u.skip(5) =~= rest);
    }
    let before_path = h + seq![58u8] + d;
    assert(rest =~= before_path + pb);
    assert forall|j: int| 0 <= j < before_path.len() implies before_path[j] != 47u8 by {
        if j < h.len() {
            assert(before_path[j] == h[j]);
        } else if j == h.len() {
        } else {
            assert(before_path[j] == d[j - h.len() - 1]);
        }
    }
    lemma_first_index_concat(before_path, pb, 47u8);
    assert(first_index(pb, 47u8) == 0);
    assert(rest.take(before_path.len() as int) =~= before_path);
    assert(rest.skip(before_path.len() as int) =~= pb);
    let tail = seq![58u8] + d;
    assert(before_path =~= h + tail);
    lemma_first_index_concat(h, tail, 58u8);
    assert(first_index(tail, 58u8) == 0);
    assert(before_path.take(h.len() as int) =~= h);
    assert(before_path.skip(h.len() as int + 1) =~= d);
}


/// Every target read from a URL has a host without `/` or `:` and a path
/// that starts with `/`: what `handshake_url_parses_back` asks for.
pub proof fn parsed_target_shape(u: Seq<u8>)
    ensures
        ws_parts(u) matches Some(p) ==> {
            &&& forall|j: int| 0 <= j < p.host.len() ==> p.host[j] != 47u8 && p.host[j] != 58u8
            &&& p.path.len() > 0
            &&& p.path[0] == 47u8
        },
{
    if let Some(p) = ws_parts(u) {
        lemma_prefix_bytes();
        reveal_strlit("/");
        assert(is_ascii_chars("/"@));
        assert(utf8_of("/"@) =~= seq![47u8]);
        let secure = has_prefix(u, utf8_of("wss://"@));
        let rest = u.skip(
            if secure {
                utf8_of("wss://"@).len() as int
            } else {
                utf8_of("ws://"@).len() as int
            },
        );
        let s = first_index(rest, 47u8);
        lemma_first_index(rest, 47u8);
        let hp = rest.take(s as int);
        let c = first_index(hp, 58u8);
        lemma_first_index(hp, 58u8);
        assert forall|j: int| 0 <= j < p.host.len() implies p.host[j] != 47u8 && p.host[j]
            != 58u8 by {
            assert(p.host[j] == hp[j]);
            assert(hp[j] == rest[j]);
        }
        if s < rest.len() {
            assert(p.path[0] == rest[s as int]);
        }
    }
}

/// The first argument picks the tool: `-u`/`--udp` UDP, `-t`/`--tcp`
/// TCP, `-d`/`--dns` DNS, `-ws` WebSocket, `-h`/`--help` the help and
/// `-v`/`--version` the version; `--ws` is no flag of the tool, and a
/// command line without a first argument selects nothing.
pub proof fn flags_select_tools(args: Seq<String>)
    ensures
        args.len() < 2 ==> command_spec(args) == Command::Missing,
        args.len() >= 2 && (args[1]@ == "-u"@ || args[1]@ == "--udp"@) ==> command_spec(args)
            == Command::Udp,
        args.len() >= 2 && (args[1]@ == "-t"@ || args[1]@ == "--tcp"@) ==> command_spec(args)
            == Command::Tcp,
        args.len() >= 2 && (args[1]@ == "-d"@ || args[1]@ == "--dns"@) ==> command_spec(args)
            == Command::Dns,
        args.len() >= 2 && args[1]@ == "-ws"@ ==> command_spec(args) == Command::WebSocket,
        args.len() >= 2 && (args[1]@ == "-h"@ || args[1]@ == "--help"@) ==> command_spec(args)
            == Command::Help,
        args.len() >= 2 && (args[1]@ == "-v"@ || args[1]@ == "--version"@) ==> command_spec(args)
            == Command::Version,
        args.len() >= 2 && args[1]@ == "--ws"@ ==> command_spec(args) == Command::Unknown,
{
    reveal_strlit("-u");
    reveal_strlit("--udp");
    reveal_strlit("-t");
    reveal_strlit("--tcp");
    reveal_strlit("-d");
    reveal_strlit("--dns");
    reveal_strlit("-ws");
    reveal_strlit("-h");
    reveal_strlit("--help");
    reveal_strlit("-v");
    reveal_strlit("--version");
    reveal_strlit("--ws");
    assert("--udp"@.len() != "-u"@.len());
    assert("-t"@[1] != "-u"@[1]);
    assert("-t"@.len() != "--udp"@.len());
    assert("--tcp"@.len() != "-u"@.len());
    assert("--tcp"@[2] != "--udp"@[2]);
    assert("--tcp"@.len() != "-t"@.len());
    assert("-d"@[1] != "-u"@[1]);
    assert("-d"@.len() != "--udp"@.len());
    assert("-d"@[1] != "-t"@[1]);
    assert("-d"@.len() != "--tcp"@.len());
    assert("--dns"@.len() != "-u"@.len());
    assert("--dns"@[2] != "--udp"@[2]);
    assert("--dns"@.len() != "-t"@.len());
    assert("--dns"@[2] != "--tcp"@[2]);
    assert("--dns"@.len() != "-d"@.len());
    assert("-ws"@.len() != "-u"@.len());
    assert("-ws"@.len() != "--udp"@.len());
    assert("-ws"@.len() != "-t"@.len());
    assert("-ws"@.len() != "--tcp"@.len());
    assert("-ws"@.len() != "-d"@.len());
    assert("-ws"@.len() != "--dns"@.len());
    assert("-h"@[1] != "-u"@[1]);
    assert("-h"@.len() != "--udp"@.len());
    assert("-h"@[1] != "-t"@[1]);
    assert("-h"@.len() != "--tcp"@.len());
    assert("-h"@[1] != "-d"@[1]);
    assert("-h"@.len() != "--dns"@.len());
    assert("-h"@.len() != "-ws"@.len());
    assert("--help"@.len() != "-u"@.len());
    assert("--help"@.len() != "--udp"@.len());
    assert("--help"@.len() != "-t"@.len());
    assert("--help"@.len() != "--tcp"@.len());
    assert("--help"@.len() != "-d"@.len());
    assert("--help"@.len() != "--dns"@.len());
    assert("--help"@.len() != "-ws"@.len());
    assert("--help"@.len() != "-h"@.len());
    assert("-v"@[1] != "-u"@[1]);
    assert("-v"@.len() != "--udp"@.len());
    assert("-v"@[1] != "-t"@[1]);
    assert("-v"@.len() != "--tcp"@.len());
    assert("-v"@[1] != "-d"@[1]);
    assert("-v"@.len() != "--dns"@.len());
    assert("-v"@.len() != "-ws"@.len());
    assert("-v"@[1] != "-h"@[1]);
    assert("-v"@.len() != "--help"@.len());
    assert("--version"@.len() != "-u"@.len());
    assert("--version"@.len() != "--udp"@.len());
    assert("--version"@.len() != "-t"@.len());
    assert("--version"@.len() != "--tcp"@.len());
    assert("--version"@.len() != "-d"@.len());
    assert("--version"@.len() != "--dns"@.len());
    assert("--version"@.len() != "-ws"@.len());
    assert("--version"@.len() != "-h"@.len());
    assert("--version"@.len() != "--help"@.len());
    assert("--version"@.len() != "-v"@.len());
    assert("--ws"@.len() != "-u"@.len());
    assert("--ws"@.len() != "--udp"@.len());
    assert("--ws"@.len() != "-t"@.len());
    assert("--ws"@.len() != "--tcp"@.len());
    assert("--ws"@.len() != "-d"@.len());
    assert("--ws"@.len() != "--dns"@.len());
    assert("--ws"@.len() != "-ws"@.len());
    assert("--ws"@.len() != "-h"@.len());
    assert("--ws"@.len() != "--help"@.len());
    assert("--ws"@.len() != "-v"@.len());
    assert("--ws"@.len() != "--version"@.len());
}

/// The host part of what follows a URL's scheme: up to the first `/`.
pub open spec fn authority_bytes(rest: Seq<u8>) -> Seq<u8> {
    rest.take(first_index(rest, 47u8) as int)
}

/// A URL that names no port (no `:` before the path) is reached on its
/// scheme's port: 80 for `ws://`, 443 for `wss://`, and only `wss://`
/// runs over TLS.
pub proof fn default_ports(u: Seq<u8>)
    ensures
        has_prefix(u, seq![119u8, 115u8, 58u8, 47u8, 47u8]) && !authority_bytes(u.skip(5)).contains(
            58u8,
        ) ==> (ws_parts(u) matches Some(p) && p.port == 80 && !p.secure),
        has_prefix(u, seq![119u8, 115u8, 115u8, 58u8, 47u8, 47u8]) && !authority_bytes(
            u.skip(6),
        ).contains(58u8) ==> (ws_parts(u) matches Some(p) && p.port == 443 && p.secure),
{
    lemma_prefix_bytes();
    if has_prefix(u, seq![119u8, 115u8, 58u8, 47u8, 47u8]) && !authority_bytes(u.skip(5)).contains(
        58u8,
    ) {
        assert(u.take(5)[2] == u[2]);
        if has_prefix(u, utf8_of("wss://"@)) {
            assert(u.take(6)[2] == u[2]);
        }
        let hp = authority_bytes(u.skip(5));
        lemma_first_index(hp, 58u8);
        if first_index(hp, 58u8) < hp.len() {
            assert(hp[first_index(hp, 58u8) as int] == 58u8);
        }
    }
    if has_prefix(u, seq![119u8, 115u8, 115u8, 58u8, 47u8, 47u8]) && !authority_bytes(
        u.skip(6),
    ).contains(58u8) {
        let hp = authority_bytes(u.skip(6));
        lemma_first_index(hp, 58u8);
        if first_index(hp, 58u8) < hp.len() {
            assert(hp[first_index(hp, 58u8) as int] == 58u8);
        }
    }
}

} // verus!
