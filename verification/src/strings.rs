//! The few `String` methods that the line editor needs and that vstd does
//! not specify, each stated as std documents it, over the UTF-8 bytes.

use vstd::prelude::*;
use vstd::utf8::*;

verus! {

/// The UTF-8 bytes of a string.
pub open spec fn utf8_of(s: Seq<char>) -> Seq<u8> {
    encode_utf8(s)
}

/// `String::insert`: the encoding of `ch` goes in at byte `idx`. std panics
/// when `idx` is past the end or inside a character, and when the grown
/// string would exceed `isize::MAX` bytes; `requires` leaves those out.
#[verifier::external_body]
pub(crate) fn string_insert(s: &mut String, idx: usize, ch: char)
    requires
        is_char_boundary(utf8_of(old(s)@), idx as int),
        utf8_of(old(s)@).len() + utf8_of(seq![ch]).len() <= isize::MAX,
    ensures
        utf8_of(final(s)@) == utf8_of(old(s)@).take(idx as int) + utf8_of(seq![ch]) + utf8_of(
            old(s)@,
        ).skip(idx as int),
{
    s.insert(idx, ch)
}

/// `String::insert_str`: the bytes of `ins` go in at byte `idx`. std
/// panics when `idx` is past the end or inside a character, and when the
/// grown string would exceed `isize::MAX` bytes; `requires` leaves those out.
#[verifier::external_body]
pub(crate) fn string_insert_str(s: &mut String, idx: usize, ins: &str)
    requires
        is_char_boundary(utf8_of(old(s)@), idx as int),
        utf8_of(old(s)@).len() + utf8_of(ins@).len() <= isize::MAX,
    ensures
        utf8_of(final(s)@) == utf8_of(old(s)@).take(idx as int) + utf8_of(ins@) + utf8_of(
            old(s)@,
        ).skip(idx as int),
{
    s.insert_str(idx, ins)
}

/// `String::remove`: the character whose encoding starts at byte `idx`
/// leaves the string and is returned. std panics when `idx` is not before
/// the end or lies inside a character; `requires` leaves those out.
#[verifier::external_body]
pub(crate) fn string_remove(s: &mut String, idx: usize) -> (c: char)
    requires
        idx < utf8_of(old(s)@).len(),
        is_char_boundary(utf8_of(old(s)@), idx as int),
    ensures
        utf8_of(final(s)@) == utf8_of(old(s)@).take(idx as int) + utf8_of(old(s)@).skip(
            idx + length_of_first_scalar(utf8_of(old(s)@).skip(idx as int)),
        ),
        c as u32 == decode_first_scalar(utf8_of(old(s)@).skip(idx as int)),
{
    s.remove(idx)
}

} // verus!
