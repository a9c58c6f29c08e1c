//! Name resolution, around the system resolver: which of the addresses
//! it gives are used, and how a lookup is reported.

use vstd::prelude::*;
use crate::args::socket_query;
use crate::text::{decimal, push_decimal};

verus! {

/// A socket address as the resolver gives it.
#[derive(Debug, Clone, Copy)]
pub enum Endpoint {
    V4 { octets: [u8; 4], port: u16 },
    V6 { segments: [u16; 8], port: u16, flowinfo: u32, scope_id: u32 },
}

/// The addresses a session may use: all of them when IPv6 is allowed,
/// otherwise the IPv4 ones, in the resolver's order.
pub open spec fn usable(addrs: Seq<Endpoint>, ipv6: bool) -> Seq<Endpoint>
    decreases addrs.len(),
{
    if ipv6 || addrs.len() == 0 {
        addrs
    } else if addrs.last() is V4 {
        usable(addrs.drop_last(), ipv6).push(addrs.last())
    } else {
        usable(addrs.drop_last(), ipv6)
    }
}

/// The addresses to connect to, from what the resolver found for a host
/// (`None` when the lookup failed, which leaves none): all of them when
/// IPv6 is allowed or the host was written as an IP address (`literal`),
/// otherwise the IPv4 ones (see `usable`).
pub fn resolve(found: Option<Vec<Endpoint>>, ipv6: bool, literal: bool) -> (r: Vec<Endpoint>)
    ensures
        r@ == match found {
            Some(a) => usable(a@, ipv6 || literal),
            None => Seq::<Endpoint>::empty(),
        },
{
    match found {
        Some(addrs) => select_addrs(addrs, ipv6 || literal),
        None => Vec::new(),
    }
}

/// Keeps the addresses a session may use (see `usable`).
pub fn select_addrs(addrs: Vec<Endpoint>, ipv6: bool) -> (r: Vec<Endpoint>)
    ensures
        r@ == usable(addrs@, ipv6),
{
    if ipv6 {
        return addrs;
    }
    let mut r: Vec<Endpoint> = Vec::new();
    let mut i: usize = 0;
    while i < addrs.len()
        invariant
            !ipv6,
            i <= addrs.len(),
            r@ == usable(addrs@.take(i as int), ipv6),
        decreases addrs.len() - i,
    {
        proof {
            assert(addrs@.take(i + 1).drop_last() =~= addrs@.take(i as int));
            assert(addrs@.take(i + 1).last() == addrs@[i as int]);
        }
        let a = addrs[i];
        if let Endpoint::V4 { .. } = a {
            r.push(a);
        }
        i = i + 1;
    }
    proof {
        assert(addrs@.take(i as int) =~= addrs@);
    }
    r
}

/// Without IPv6, only IPv4 addresses are used, and a list that holds
/// only IPv4 addresses is used whole, in its order.
pub proof fn usable_without_ipv6(addrs: Seq<Endpoint>)
    ensures
        forall|i: int| 0 <= i < usable(addrs, false).len() ==> #[trigger] usable(addrs, false)[i] is V4,
        (forall|i: int| 0 <= i < addrs.len() ==> #[trigger] addrs[i] is V4) ==> usable(addrs, false) == addrs,
        usable(addrs, false).len() <= addrs.len(),
    decreases addrs.len(),
{
    if addrs.len() > 0 {
        let init = addrs.drop_last();
        usable_without_ipv6(init);
        if forall|i: int| 0 <= i < addrs.len() ==> #[trigger] addrs[i] is V4 {
            assert forall|i: int| 0 <= i < init.len() implies #[trigger] init[i] is V4 by {
                assert(init[i] == addrs[i]);
            }
            assert(addrs.last() is V4);
            assert(init.push(addrs.last()) =~= addrs);
        }
    }
}

/// The text a lookup of `host` for `port` asks the resolver about.
pub fn resolve_query(host: &str, port: u16) -> (q: String)
    ensures
        q@ == host@ + ":"@ + decimal(port as nat),
{
    socket_query(host, port)
}

/// The headline of a DNS report: `<domain> (<n> record)`, or `records`
/// when there are several, and a colon.
pub open spec fn report_header_text(domain: Seq<char>, n: nat) -> Seq<char> {
    domain + " ("@ + decimal(n) + " record"@ + (if n > 1 {
        "s"@
    } else {
        Seq::<char>::empty()
    }) + "):"@
}

/// Builds the headline of a DNS report.
pub fn report_header(domain: &str, n: usize) -> (s: String)
    ensures
        s@ == report_header_text(domain@, n as nat),
{
    let mut s = String::from_str(domain);
    s.append(" (");
    push_decimal(&mut s, n as u64);
    s.append(" record");
    if n > 1 {
        s.append("s");
    }
    s.append("):");
    proof {
        if n <= 1 {
            assert(s@ =~= report_header_text(domain@, n as nat));
        }
    }
    s
}

/// The label that a report puts before an address.
pub fn record_label(e: &Endpoint) -> (s: &'static str)
    ensures
        s@ == (if *e is V4 {
            "  IPv4  "@
        } else {
            "  IPv6  "@
        }),
{
    match e {
        Endpoint::V4 { .. } => "  IPv4  ",
        Endpoint::V6 { .. } => "  IPv6  ",
    }
}

/// Whether `s` ends with `suffix`.
pub open spec fn ends_with(s: Seq<char>, suffix: Seq<char>) -> bool {
    suffix.len() <= s.len() && s.skip(s.len() - suffix.len()) == suffix
}

/// A DNS headline starts with the domain and counts its records in the
/// plural whenever there are several: it ends with ` records):` for every
/// count above one and with ` record):` for a single record.
pub proof fn header_counts_records(domain: Seq<char>, n: nat)
    ensures
        report_header_text(domain, n).take(domain.len() as int) == domain,
        n > 1 ==> ends_with(report_header_text(domain, n), " records):"@),
        n == 1 ==> ends_with(report_header_text(domain, n), " record):"@),
        n == 1 ==> report_header_text(domain, n) == domain + " (1 record):"@,
{
    reveal_strlit(" record");
    reveal_strlit("s");
    reveal_strlit("):");
    reveal_strlit(" records):");
    reveal_strlit(" record):");
    reveal_strlit(" (");
    reveal_strlit(" (1 record):");
    let h = report_header_text(domain, n);
    let mid = " ("@ + decimal(n);
    assert(h.take(domain.len() as int) =~= domain);
    if n > 1 {
        assert(h == domain + mid + " record"@ + "s"@ + "):"@);
        assert(h.skip(h.len() - 10) =~= " records):"@);
    }
    if n == 1 {
        assert(decimal(1) =~= seq!['1']);
        assert(h == domain + mid + " record"@ + Seq::<char>::empty() + "):"@);
        assert(h.skip(h.len() - 9) =~= " record):"@);
        assert(h =~= domain + " (1 record):"@);
    }
}

} // verus!
