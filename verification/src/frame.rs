//! Line framing: every line of a payload is shown behind a direction
//! marker (`"-> "` for what was sent, `"<- "` for what came back) and
//! ended by the console's line terminator.

use vstd::prelude::*;

verus! {

/// The newline byte.
pub open spec fn newline() -> u8 {
    10u8
}

/// Index of the first newline in `s`, or `s.len()` when it holds none.
pub open spec fn first_newline(s: Seq<u8>) -> nat
    decreases s.len(),
{
    if s.len() == 0 {
        0
    } else if s[0] == newline() {
        0
    } else {
        1 + first_newline(s.drop_first())
    }
}

proof fn lemma_first_newline(s: Seq<u8>)
    ensures
        first_newline(s) <= s.len(),
        forall|j: int| 0 <= j < first_newline(s) ==> s[j] != newline(),
        first_newline(s) < s.len() ==> s[first_newline(s) as int] == newline(),
    decreases s.len(),
{
    if s.len() > 0 && s[0] != newline() {
        lemma_first_newline(s.drop_first());
        assert forall|j: int| 0 <= j < first_newline(s) implies s[j] != newline() by {
            if j > 0 {
                assert(s[j] == s.drop_first()[j - 1]);
            }
        }
    }
}

/// The lines of `data`: the pieces between newlines, the piece after the
/// last newline counting only when it is not empty.
pub open spec fn lines(data: Seq<u8>) -> Seq<Seq<u8>>
    decreases data.len(),
{
    if data.len() == 0 {
        seq![]
    } else {
        let k = first_newline(data);
        if k >= data.len() {
            seq![data]
        } else {
            seq![data.take(k as int)] + lines(data.skip(k as int + 1))
        }
    }
}

/// Each line behind `prefix` and ended by `eol`, one after the other.
pub open spec fn frame_lines(ls: Seq<Seq<u8>>, prefix: Seq<u8>, eol: Seq<u8>) -> Seq<u8>
    decreases ls.len(),
{
    if ls.len() == 0 {
        seq![]
    } else {
        prefix + ls[0] + eol + frame_lines(ls.drop_first(), prefix, eol)
    }
}

/// What the console shows of `data`: each of its lines behind `prefix`,
/// ended by `eol`.
pub open spec fn framed(data: Seq<u8>, prefix: Seq<u8>, eol: Seq<u8>) -> Seq<u8> {
    frame_lines(lines(data), prefix, eol)
}

proof fn lemma_frame_lines_add(a: Seq<Seq<u8>>, b: Seq<Seq<u8>>, prefix: Seq<u8>, eol: Seq<u8>)
    ensures
        frame_lines(a + b, prefix, eol) == frame_lines(a, prefix, eol) + frame_lines(b, prefix, eol),
    decreases a.len(),
{
    if a.len() == 0 {
        assert(a + b =~= b);
    } else {
        assert((a + b).drop_first() =~= a.drop_first() + b);
        lemma_frame_lines_add(a.drop_first(), b, prefix, eol);
        assert(frame_lines(a + b, prefix, eol) =~= frame_lines(a, prefix, eol) + frame_lines(
            b,
            prefix,
            eol,
        ));
    }
}

/// A run of bytes without newline is one line, or none when empty.
proof fn lemma_lines_no_newline(s: Seq<u8>)
    requires
        forall|j: int| 0 <= j < s.len() ==> s[j] != newline(),
    ensures
        lines(s) == (if s.len() == 0 { Seq::<Seq<u8>>::empty() } else { seq![s] }),
{
    lemma_first_newline(s);
}

/// Lines split at a newline: what comes before a line end does not
/// change how what follows is cut.
proof fn lemma_lines_append(p: Seq<u8>, r: Seq<u8>)
    requires
        p.len() == 0 || p.last() == newline(),
    ensures
        lines(p + r) == lines(p) + lines(r),
    decreases p.len(),
{
    if p.len() == 0 {
        assert(p + r =~= r);
        assert(lines(p) + lines(r) =~= lines(r));
    } else {
        lemma_first_newline(p);
        lemma_first_newline(p + r);
        let k = first_newline(p);
        assert(k < p.len()) by {
            if k == p.len() {
                assert(p[p.len() - 1] == newline());
            }
        }
        assert(first_newline(p + r) == k) by {
            let k2 = first_newline(p + r);
            if k2 < k {
                assert((p + r)[k2 as int] == p[k2 as int]);
            }
            if k2 > k {
                assert((p + r)[k as int] == p[k as int]);
            }
        }
        assert((p + r).take(k as int) =~= p.take(k as int));
        assert((p + r).skip(k as int + 1) =~= p.skip(k as int + 1) + r);
        let rest = p.skip(k as int + 1);
        assert(rest.len() == 0 || rest.last() == newline()) by {
            if rest.len() > 0 {
                assert(rest.last() == p.last());
            }
        }
        lemma_lines_append(rest, r);
        assert(lines(p + r) =~= lines(p) + lines(r));
    }
}

/// Writes every line of `data` behind `prefix` and ends it with `eol`;
/// a final piece without newline is written as a line too, and an empty
/// payload writes nothing.
pub fn write_prefixed(data: &[u8], prefix: &[u8], eol: &[u8]) -> (out: Vec<u8>)
    ensures
        out@ == framed(data@, prefix@, eol@),
{
    let mut out: Vec<u8> = Vec::new();
    let mut start: usize = 0;
    let mut i: usize = 0;
    let ghost d = data@;
    while i < data.len()
        invariant
            d == data@,
            start <= i <= data.len(),
            start == 0 || d[start - 1] == newline(),
            forall|j: int| start <= j < i ==> d[j] != newline(),
            out@ == framed(d.take(start as int), prefix@, eol@),
        decreases data.len() - i,
    {
        if data[i] == 10u8 {
            let ghost before = d.take(start as int);
            let ghost seg = d.subrange(start as int, i + 1);
            let ghost line = d.subrange(start as int, i as int);
            proof {
                assert(d.take(i + 1) =~= before + seg);
                assert(before.len() == 0 || before.last() == newline());
                lemma_lines_append(before, seg);
                lemma_first_newline(seg);
                assert(first_newline(seg) == i - start) by {
                    let k = first_newline(seg);
                    if k < i - start {
                        assert(seg[k as int] == d[start + k]);
                    }
                    assert(seg[i - start] == newline());
                }
                assert(seg.take(i - start) =~= line);
                assert(seg.skip(i - start + 1).len() == 0);
                assert(lines(seg.skip(i - start + 1)) =~= Seq::<Seq<u8>>::empty());
                assert(lines(seg) =~= seq![line]);
                lemma_frame_lines_add(lines(before), seq![line], prefix@, eol@);
                assert(frame_lines(seq![line], prefix@, eol@) =~= prefix@ + line + eol@) by {
                    assert(seq![line].drop_first() =~= Seq::<Seq<u8>>::empty());
                    assert(seq![line][0] == line);
                    assert(frame_lines(Seq::<Seq<u8>>::empty(), prefix@, eol@) =~= Seq::<u8>::empty());
                }
            }
            out.extend_from_slice(prefix);
            out.extend_from_slice(&data[start..i]);
            out.extend_from_slice(eol);
            start = i + 1;
            proof {
                assert(out@ =~= framed(d.take(start as int), prefix@, eol@));
            }
        }
        i = i + 1;
    }
    let ghost before = d.take(start as int);
    let ghost rest = d.skip(start as int);
    proof {
        assert(d =~= before + rest);
        lemma_lines_append(before, rest);
        assert forall|j: int| 0 <= j < rest.len() implies rest[j] != newline() by {
            assert(rest[j] == d[start + j]);
        }
        lemma_lines_no_newline(rest);
        lemma_frame_lines_add(lines(before), lines(rest), prefix@, eol@);
    }
    if start < data.len() {
        out.extend_from_slice(prefix);
        out.extend_from_slice(&data[start..data.len()]);
        out.extend_from_slice(eol);
        proof {
            assert(frame_lines(seq![rest], prefix@, eol@) =~= prefix@ + rest + eol@) by {
                assert(seq![rest].drop_first() =~= Seq::<Seq<u8>>::empty());
                assert(seq![rest][0] == rest);
                assert(frame_lines(Seq::<Seq<u8>>::empty(), prefix@, eol@) =~= Seq::<u8>::empty());
            }
            assert(out@ =~= framed(d, prefix@, eol@));
        }
    } else {
        proof {
            assert(rest.len() == 0);
            assert(out@ =~= framed(d, prefix@, eol@));
        }
    }
    out
}


/// Framing loses nothing: with no prefix and a newline as line end, the
/// framed payload is the payload itself, plus one newline when its last
/// line was not ended.
pub proof fn framed_keeps_payload(data: Seq<u8>)
    ensures
        framed(data, Seq::empty(), seq![newline()]) == (if data.len() > 0 && data.last()
            != newline() {
            data.push(newline())
        } else {
            data
        }),
    decreases data.len(),
{
    let e = Seq::<u8>::empty();
    let nl = seq![newline()];
    if data.len() > 0 {
        lemma_first_newline(data);
        let k = first_newline(data);
        if k >= data.len() {
            assert(data.last() != newline());
            assert(lines(data) == seq![data]);
            assert(seq![data].drop_first() =~= Seq::<Seq<u8>>::empty());
            assert(frame_lines(Seq::<Seq<u8>>::empty(), e, nl) =~= Seq::<u8>::empty());
            assert(framed(data, e, nl) =~= data.push(newline()));
        } else {
            let rest = data.skip(k as int + 1);
            framed_keeps_payload(rest);
            assert(lines(data) == seq![data.take(k as int)] + lines(rest));
            assert((seq![data.take(k as int)] + lines(rest)).drop_first() =~= lines(rest));
            assert(framed(data, e, nl) == e + data.take(k as int) + nl + framed(rest, e, nl));
            if rest.len() > 0 {
                assert(rest.last() == data.last());
                if rest.last() != newline() {
                    assert(framed(data, e, nl) =~= data.push(newline()));
                } else {
                    assert(framed(data, e, nl) =~= data);
                }
            } else {
                assert(data.last() == newline());
                assert(framed(data, e, nl) =~= data);
            }
        }
    }
}

} // verus!
