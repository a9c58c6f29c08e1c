//! Numbers as text: decimal rendering, the human-readable byte-size
//! labels that the console prints in front of every transfer, and port
//! numbers read the way `str::parse::<u16>` reads them.

use vstd::prelude::*;

verus! {

/// The ASCII digit for `d` (meant for `0 <= d < 10`).
pub open spec fn digit_char(d: int) -> char {
    (48 + d) as char
}

/// The decimal representation of `n`, without leading zeros.
pub open spec fn decimal(n: nat) -> Seq<char>
    decreases n,
{
    if n < 10 {
        seq![digit_char(n as int)]
    } else {
        decimal(n / 10).push(digit_char((n % 10) as int))
    }
}

/// `s` left-padded with `'0'` up to `width` characters.
pub open spec fn zero_pad(s: Seq<char>, width: nat) -> Seq<char> {
    if s.len() >= width {
        s
    } else {
        Seq::new((width - s.len()) as nat, |i: int| '0') + s
    }
}

/// `num / den` rounded to the nearest integer, ties going to the even one.
pub open spec fn round_half_even(num: nat, den: nat) -> nat
    recommends
        den > 0,
{
    let q = num / den;
    let r = num % den;
    if 2 * r > den || (2 * r == den && q % 2 == 1) {
        q + 1
    } else {
        q
    }
}

fn digit_str(d: u64) -> (s: &'static str)
    requires
        d < 10,
    ensures
        s@ == seq![digit_char(d as int)],
{
    if d == 0 {
        proof { reveal_strlit("0"); }
        "0"
    } else if d == 1 {
        proof { reveal_strlit("1"); }
        "1"
    } else if d == 2 {
        proof { reveal_strlit("2"); }
        "2"
    } else if d == 3 {
        proof { reveal_strlit("3"); }
        "3"
    } else if d == 4 {
        proof { reveal_strlit("4"); }
        "4"
    } else if d == 5 {
        proof { reveal_strlit("5"); }
        "5"
    } else if d == 6 {
        proof { reveal_strlit("6"); }
        "6"
    } else if d == 7 {
        proof { reveal_strlit("7"); }
        "7"
    } else if d == 8 {
        proof { reveal_strlit("8"); }
        "8"
    } else {
        proof { reveal_strlit("9"); }
        "9"
    }
}

/// Appends the decimal representation of `n` to `s`.
pub fn push_decimal(s: &mut String, n: u64)
    ensures
        final(s)@ == old(s)@ + decimal(n as nat),
    decreases n,
{
    if n >= 10 {
        push_decimal(s, n / 10);
    }
    s.append(digit_str(n % 10));
}

/// Appends `n` in decimal, left-padded with zeros to at least `width` digits.
pub fn push_padded(s: &mut String, n: u64, width: u64)
    requires
        width <= 20,
    ensures
        final(s)@ == old(s)@ + zero_pad(decimal(n as nat), width as nat),
{
    let ghost d = decimal(n as nat);
    let len = decimal_len(n);
    let mut i: u64 = len;
    let ghost start = s@;
    while i < width
        invariant
            len == d.len(),
            len <= i,
            i <= width || i == len,
            s@ == start + Seq::new((i - len) as nat, |j: int| '0'),
        decreases width - i,
    {
        proof { reveal_strlit("0"); }
        s.append("0");
        i = i + 1;
        assert(s@ =~= start + Seq::new((i - len) as nat, |j: int| '0'));
    }
    push_decimal(s, n);
    assert(s@ =~= old(s)@ + zero_pad(d, width as nat));
}

/// Number of decimal digits of `n`.
pub fn decimal_len(n: u64) -> (len: u64)
    ensures
        len == decimal(n as nat).len(),
        1 <= len <= 20,
    decreases n,
{
    if n < 10 {
        1
    } else {
        let l = decimal_len(n / 10);
        proof { decimal_len_bound(n as nat); }
        l + 1
    }
}

proof fn decimal_len_bound(n: nat)
    requires
        n <= u64::MAX,
    ensures
        1 <= decimal(n).len() <= 20,
{
    decimal_len_pos(n);
    assert(pow10(20) == 100_000_000_000_000_000_000nat) by {
        reveal_with_fuel(pow10, 21);
    }
    decimal_len_small(n, 20);
}

proof fn decimal_len_pos(n: nat)
    ensures
        decimal(n).len() >= 1,
    decreases n,
{
    if n >= 10 {
        decimal_len_pos(n / 10);
    }
}

proof fn decimal_len_small(n: nat, k: nat)
    requires
        k >= 1,
        n < pow10(k),
    ensures
        decimal(n).len() <= k,
    decreases n,
{
    if n >= 10 {
        assert(k >= 2) by {
            if k == 1 {
                assert(pow10(1) == 10) by {
                    reveal_with_fuel(pow10, 2);
                }
            }
        }
        decimal_len_small(n / 10, (k - 1) as nat);
    }
}

/// `10^k`.
pub open spec fn pow10(k: nat) -> nat
    decreases k,
{
    if k == 0 {
        1
    } else {
        10 * pow10((k - 1) as nat)
    }
}


/// `2^k`.
pub open spec fn two_pow(k: nat) -> nat
    decreases k,
{
    if k == 0 {
        1
    } else {
        2 * two_pow((k - 1) as nat)
    }
}

/// Number of binary digits of `n` (0 for 0).
pub open spec fn bit_len(n: nat) -> nat
    decreases n,
{
    if n == 0 {
        0
    } else {
        1 + bit_len(n / 2)
    }
}

/// The integer that converting `n` to an `f64` yields: `n` itself below
/// `2^53`, otherwise the nearest multiple of the spacing of 53-bit
/// significands at that magnitude, ties going to the even significand.
pub open spec fn f64_nearest(n: nat) -> nat {
    if n < two_pow(53) {
        n
    } else {
        let unit = two_pow((bit_len(n) - 53) as nat);
        round_half_even(n, unit) * unit
    }
}

/// The text of a byte count: plain bytes below 1024 (`"512b"`), kibibytes
/// with one decimal below 1024*1024 (`"1.5KB"`), mebibytes with two
/// decimals above (`"2.00MB"`). The decimals are those of the exact
/// quotient rounded half to even, the quotient being taken, for mebibytes,
/// of the count as an `f64`.
pub open spec fn size_text(n: nat) -> Seq<char> {
    if n < 1024 {
        decimal(n) + seq!['b']
    } else if n < 1048576 {
        let q = round_half_even(10 * n, 1024);
        decimal(q / 10) + seq!['.'] + decimal(q % 10) + seq!['K', 'B']
    } else {
        let q = round_half_even(100 * f64_nearest(n), 1048576);
        decimal(q / 100) + seq!['.'] + zero_pad(decimal(q % 100), 2) + seq!['M', 'B']
    }
}

proof fn lemma_bit_len_bound(n: nat, m: nat)
    ensures
        n < two_pow(m) <==> bit_len(n) <= m,
    decreases m,
{
    if m > 0 {
        lemma_bit_len_bound(n / 2, (m - 1) as nat);
    } else {
        if n > 0 {
            assert(bit_len(n) >= 1);
        }
    }
}

proof fn lemma_two_pow_pos(k: nat)
    ensures
        two_pow(k) >= 1,
    decreases k,
{
    if k > 0 {
        lemma_two_pow_pos((k - 1) as nat);
    }
}

proof fn lemma_two_pow_mono(a: nat, b: nat)
    requires
        a <= b,
    ensures
        two_pow(a) <= two_pow(b),
    decreases b,
{
    lemma_two_pow_pos(b);
    if a < b {
        lemma_two_pow_mono(a, (b - 1) as nat);
    }
}

fn round_half_even_exec(num: u128, den: u128) -> (r: u128)
    requires
        den > 0,
        num + den <= u128::MAX,
    ensures
        r == round_half_even(num as nat, den as nat),
        r * den <= num + den,
{
    let q = num / den;
    let rem = num % den;
    proof {
        assert(q * den + rem == num) by (nonlinear_arith)
            requires
                q == num / den,
                rem == num % den,
                den > 0,
        ;
        assert((q + 1) * den == q * den + den) by (nonlinear_arith);
    }
    if 2 * rem > den || (2 * rem == den && q % 2 == 1) {
        q + 1
    } else {
        q
    }
}

fn f64_nearest_exec(x: u64) -> (r: u128)
    ensures
        r == f64_nearest(x as nat),
        r <= 0x1_0000_0000_0000_0000,
{
    proof {
        assert(two_pow(53) == 0x20_0000_0000_0000nat) by {
            reveal_with_fuel(two_pow, 54);
        }
    }
    if x < 0x20_0000_0000_0000 {
        return x as u128;
    }
    proof {
        assert(two_pow(64) == 0x1_0000_0000_0000_0000nat) by {
            reveal_with_fuel(two_pow, 65);
        }
        lemma_bit_len_bound(x as nat, 64);
    }
    let mut t: u64 = x;
    let mut b: u64 = 0;
    while t > 0
        invariant
            bit_len(x as nat) == b + bit_len(t as nat),
            b <= 64,
            t <= x,
            t > 0 ==> b + bit_len(t as nat) <= 64,
        decreases t,
    {
        proof {
            assert(two_pow(64) == 0x1_0000_0000_0000_0000nat) by {
                reveal_with_fuel(two_pow, 65);
            }
            lemma_bit_len_bound(x as nat, 64);
        }
        t = t / 2;
        b = b + 1;
    }
    proof {
        lemma_bit_len_bound(x as nat, 53);
        assert(two_pow(64) == 0x1_0000_0000_0000_0000nat) by {
            reveal_with_fuel(two_pow, 65);
        }
        lemma_bit_len_bound(x as nat, 64);
    }
    let k = b - 53;
    let mut unit: u128 = 1;
    let mut i: u64 = 0;
    while i < k
        invariant
            i <= k,
            k <= 11,
            unit == two_pow(i as nat),
        decreases k - i,
    {
        proof {
            lemma_two_pow_mono(i as nat, 11);
            assert(two_pow(11) == 2048) by {
                reveal_with_fuel(two_pow, 12);
            }
        }
        unit = unit * 2;
        i = i + 1;
    }
    proof {
        lemma_two_pow_mono(k as nat, 11);
        assert(two_pow(11) == 2048) by {
            reveal_with_fuel(two_pow, 12);
        }
    }
    let q = round_half_even_exec(x as u128, unit);
    proof {
        // q * unit <= x + unit, and both the operands and x + unit are at most 2^64 + 2^11
        assert(q * unit <= 0x1_0000_0000_0000_0000 + 2048);
    }
    let r = q * unit;
    proof {
        // a rounded value is a multiple of `unit` no larger than the next one above x
        lemma_round_below_pow(x as nat, k as nat);
    }
    r
}

/// Rounding a 64-bit value to a multiple of `2^k` (k <= 11) never passes `2^64`.
proof fn lemma_round_below_pow(x: nat, k: nat)
    requires
        x < 0x1_0000_0000_0000_0000,
        k <= 11,
    ensures
        round_half_even(x, two_pow(k)) * two_pow(k) <= 0x1_0000_0000_0000_0000,
{
    let unit = two_pow(k);
    lemma_two_pow_pos(k);
    lemma_two_pow_mono(k, 11);
    assert(two_pow(11) == 2048) by {
        reveal_with_fuel(two_pow, 12);
    }
    lemma_two_pow_divides(k);
    let big: nat = 0x1_0000_0000_0000_0000;
    let q = x / unit;
    assert(q * unit <= x) by (nonlinear_arith)
        requires
            q == x / unit,
            unit > 0,
    ;
    assert(big % unit == 0);
    assert(q < big / unit) by (nonlinear_arith)
        requires
            q == x / unit,
            unit > 0,
            x < big,
            big % unit == 0,
    ;
    assert((q + 1) * unit <= big) by (nonlinear_arith)
        requires
            q + 1 <= big / unit,
            unit > 0,
            big % unit == 0,
    ;
    assert(q * unit <= (q + 1) * unit) by (nonlinear_arith);
}

proof fn lemma_two_pow_divides(k: nat)
    requires
        k <= 11,
    ensures
        0x1_0000_0000_0000_0000nat % two_pow(k) == 0,
{
    reveal_with_fuel(two_pow, 12);
    if k == 0 {
        assert(two_pow(0) == 1);
        assert(0x1_0000_0000_0000_0000nat % 1 == 0);
    } else if k == 1 {
        assert(two_pow(1) == 2);
        assert(0x1_0000_0000_0000_0000nat % 2 == 0);
    } else if k == 2 {
        assert(two_pow(2) == 4);
        assert(0x1_0000_0000_0000_0000nat % 4 == 0);
    } else if k == 3 {
        assert(two_pow(3) == 8);
        assert(0x1_0000_0000_0000_0000nat % 8 == 0);
    } else if k == 4 {
        assert(two_pow(4) == 16);
        assert(0x1_0000_0000_0000_0000nat % 16 == 0);
    } else if k == 5 {
        assert(two_pow(5) == 32);
        assert(0x1_0000_0000_0000_0000nat % 32 == 0);
    } else if k == 6 {
        assert(two_pow(6) == 64);
        assert(0x1_0000_0000_0000_0000nat % 64 == 0);
    } else if k == 7 {
        assert(two_pow(7) == 128);
        assert(0x1_0000_0000_0000_0000nat % 128 == 0);
    } else if k == 8 {
        assert(two_pow(8) == 256);
        assert(0x1_0000_0000_0000_0000nat % 256 == 0);
    } else if k == 9 {
        assert(two_pow(9) == 512);
        assert(0x1_0000_0000_0000_0000nat % 512 == 0);
    } else if k == 10 {
        assert(two_pow(10) == 1024);
        assert(0x1_0000_0000_0000_0000nat % 1024 == 0);
    } else if k == 11 {
        assert(two_pow(11) == 2048);
        assert(0x1_0000_0000_0000_0000nat % 2048 == 0);
    }
}

/// The size label for `n` bytes, as the console prints it.
pub fn size_fmt(n: usize) -> (s: String)
    ensures
        s@ == size_text(n as nat),
{
    let mut s = String::new();
    if n < 1024 {
        push_decimal(&mut s, n as u64);
        proof { reveal_strlit("b"); }
        s.append("b");
    } else if n < 1048576 {
        let q = round_half_even_exec(10 * (n as u128), 1024);
        push_decimal(&mut s, (q / 10) as u64);
        proof { reveal_strlit("."); }
        s.append(".");
        push_decimal(&mut s, (q % 10) as u64);
        proof { reveal_strlit("KB"); }
        s.append("KB");
    } else {
        let r = f64_nearest_exec(n as u64);
        let q = round_half_even_exec(100 * r, 1048576);
        proof {
            assert(q * 1048576 <= 100 * r + 1048576);
        }
        push_decimal(&mut s, (q / 100) as u64);
        proof { reveal_strlit("."); }
        s.append(".");
        push_padded(&mut s, (q % 100) as u64, 2);
        proof { reveal_strlit("MB"); }
        s.append("MB");
    }
    s
}


/// Whether `a` and `b` hold the same bytes.
pub fn bytes_eq(a: &[u8], b: &[u8]) -> (eq: bool)
    ensures
        eq == (a@ == b@),
{
    if a.len() != b.len() {
        return false;
    }
    let mut i: usize = 0;
    while i < a.len()
        invariant
            a.len() == b.len(),
            i <= a.len(),
            forall|j: int| 0 <= j < i ==> a@[j] == b@[j],
        decreases a.len() - i,
    {
        if a[i] != b[i] {
            return false;
        }
        i = i + 1;
    }
    assert(a@ =~= b@);
    true
}

/// Whether `a` and `b` are the same text.
pub fn same_text(a: &str, b: &str) -> (eq: bool)
    ensures
        eq == (a@ == b@),
{
    proof {
        vstd::utf8::encode_utf8_decode_utf8(a@);
        vstd::utf8::encode_utf8_decode_utf8(b@);
    }
    bytes_eq(a.as_bytes(), b.as_bytes())
}

/// Whether `b` starts with the bytes `p`.
pub open spec fn has_prefix(b: Seq<u8>, p: Seq<u8>) -> bool {
    p.len() <= b.len() && b.take(p.len() as int) == p
}

/// Whether `b` starts with the bytes `p`.
pub fn starts_with_bytes(b: &[u8], p: &[u8]) -> (r: bool)
    ensures
        r == has_prefix(b@, p@),
{
    if p.len() > b.len() {
        return false;
    }
    let head = vstd::slice::slice_subrange(b, 0, p.len());
    bytes_eq(head, p)
}

/// Whether `c` is an ASCII digit.
pub open spec fn is_digit(c: u8) -> bool {
    48 <= c <= 57
}

/// The value of a run of ASCII digits.
pub open spec fn digits_value(d: Seq<u8>) -> nat
    decreases d.len(),
{
    if d.len() == 0 {
        0
    } else {
        digits_value(d.drop_last()) * 10 + (d.last() - 48) as nat
    }
}

/// `b` without its leading `+`, if it has one.
pub open spec fn unsigned_part(b: Seq<u8>) -> Seq<u8> {
    if b.len() > 0 && b[0] == 43u8 {
        b.skip(1)
    } else {
        b
    }
}

/// Whether `d` is a non-empty run of ASCII digits.
pub open spec fn all_digits(d: Seq<u8>) -> bool {
    d.len() > 0 && forall|i: int| 0 <= i < d.len() ==> is_digit(d[i])
}

/// How `str::parse::<u16>` reads `b`: an optional `+`, then one or more
/// ASCII digits (leading zeros allowed) whose value fits in 16 bits.
pub open spec fn parse_u16_spec(b: Seq<u8>) -> Option<u16> {
    let d = unsigned_part(b);
    if all_digits(d) && digits_value(d) <= 65535 {
        Some(digits_value(d) as u16)
    } else {
        None
    }
}

proof fn lemma_digits_prefix(d: Seq<u8>, i: int)
    requires
        0 <= i <= d.len(),
        forall|j: int| 0 <= j < d.len() ==> is_digit(d[j]),
    ensures
        digits_value(d.take(i)) <= digits_value(d),
    decreases d.len() - i,
{
    if i < d.len() {
        lemma_digits_prefix(d, i + 1);
        assert(d.take(i + 1).drop_last() =~= d.take(i));
    } else {
        assert(d.take(i) =~= d);
    }
}

/// Reads a port number (or any `u16`) the way `str::parse::<u16>` does.
pub fn parse_u16(s: &str) -> (r: Option<u16>)
    ensures
        r == parse_u16_spec(crate::strings::utf8_of(s@)),
{
    let b = s.as_bytes();
    let start: usize = if b.len() > 0 && b[0] == 43u8 {
        1
    } else {
        0
    };
    let ghost d = b@.skip(start as int);
    proof {
        assert(d =~= unsigned_part(b@));
    }
    if b.len() == start {
        return None;
    }
    let mut v: u32 = 0;
    let mut i: usize = start;
    while i < b.len()
        invariant
            start <= i <= b.len(),
            d == b@.skip(start as int),
            d == unsigned_part(b@),
            b@ == crate::strings::utf8_of(s@),
            d.len() > 0,
            forall|j: int| 0 <= j < i - start ==> is_digit(d[j]),
            v == digits_value(d.take(i - start)),
            v <= 65535,
        decreases b.len() - i,
    {
        let c = b[i];
        if c < 48u8 || c > 57u8 {
            assert(!is_digit(d[i - start]));
            assert(!all_digits(d));
            return None;
        }
        proof {
            assert(d.take(i - start + 1).drop_last() =~= d.take(i - start));
        }
        v = v * 10 + (c - 48u8) as u32;
        i = i + 1;
        if v > 65535 {
            proof {
                if all_digits(d) {
                    lemma_digits_prefix(d, i - start);
                }
            }
            return None;
        }
    }
    proof {
        assert(d.take(i - start) =~= d);
    }
    Some(v as u16)
}


/// The bytes of ASCII text, one per character.
pub open spec fn ascii_bytes(s: Seq<char>) -> Seq<u8> {
    Seq::new(s.len(), |i: int| s[i] as u8)
}

proof fn lemma_decimal_ascii(n: nat)
    ensures
        vstd::utf8::is_ascii_chars(decimal(n)),
        forall|i: int| 0 <= i < decimal(n).len() ==> 48 <= #[trigger] (decimal(n)[i] as u32) <= 57,
    decreases n,
{
    if n >= 10 {
        lemma_decimal_ascii(n / 10);
        let d = decimal(n / 10);
        assert forall|i: int| 0 <= i < decimal(n).len() implies 48 <= #[trigger] (decimal(n)[i]
            as u32) <= 57 by {
            if i < d.len() {
                assert(decimal(n)[i] == d[i]);
            }
        }
    }
}

proof fn lemma_decimal_value(n: nat)
    ensures
        digits_value(ascii_bytes(decimal(n))) == n,
        all_digits(ascii_bytes(decimal(n))),
    decreases n,
{
    lemma_decimal_ascii(n);
    decimal_len_pos(n);
    let b = ascii_bytes(decimal(n));
    if n >= 10 {
        lemma_decimal_value(n / 10);
        let d = decimal(n / 10);
        assert(b.drop_last() =~= ascii_bytes(d));
        assert(b.last() == (48 + n % 10) as u8);
    } else {
        assert(b.drop_last() =~= Seq::<u8>::empty());
        assert(b.last() == (48 + n) as u8);
        assert(digits_value(b.drop_last()) == 0);
    }
    assert forall|i: int| 0 <= i < b.len() implies is_digit(#[trigger] b[i]) by {
        assert(48 <= (decimal(n)[i] as u32) <= 57);
    }
}

/// A number written in decimal reads back as the same number: the port
/// that a URL is given with is the port parsed from it.
pub proof fn decimal_parses_back(p: u16)
    ensures
        parse_u16_spec(crate::strings::utf8_of(decimal(p as nat))) == Some(p),
{
    lemma_decimal_ascii(p as nat);
    lemma_decimal_value(p as nat);
    let s = decimal(p as nat);
    vstd::utf8::is_ascii_chars_encode_utf8(s);
    let b = crate::strings::utf8_of(s);
    assert(b =~= ascii_bytes(s));
    assert(b[0] != 43u8) by {
        assert(48 <= (s[0] as u32) <= 57);
    }
    assert(unsigned_part(b) == b);
}


/// A number written in decimal is a run of ASCII digits.
pub proof fn decimal_bytes_are_digits(n: nat)
    ensures
        all_digits(crate::strings::utf8_of(decimal(n))),
{
    lemma_decimal_ascii(n);
    lemma_decimal_value(n);
    vstd::utf8::is_ascii_chars_encode_utf8(decimal(n));
    assert(crate::strings::utf8_of(decimal(n)) =~= ascii_bytes(decimal(n)));
}

} // verus!
