//! Hexadecimal notation for byte strings: what a string of hex digits stands
//! for, how bytes are written in lower-case digits, and the calls into the
//! `hex` crate that compute both.

use vstd::prelude::*;

verus! {

/// The value of the hex digit `c`, in either case; `None` for any other
/// character.
pub open spec fn hex_value(c: char) -> Option<int> {
    if '0' <= c <= '9' {
        Some(c as int - '0' as int)
    } else if 'a' <= c <= 'f' {
        Some(c as int - 'a' as int + 10)
    } else if 'A' <= c <= 'F' {
        Some(c as int - 'A' as int + 10)
    } else {
        None
    }
}

/// Whether `c` is one of `0`-`9`, `a`-`f`, `A`-`F`.
pub open spec fn is_hex_digit(c: char) -> bool {
    hex_value(c) is Some
}

/// Whether `s` is the hex notation of some byte string: an even number of
/// characters, each of them a hex digit.
pub open spec fn is_hex_string(s: Seq<char>) -> bool {
    &&& s.len() % 2 == 0
    &&& forall|i: int| 0 <= i < s.len() ==> is_hex_digit(#[trigger] s[i])
}

/// The byte that the two digits `high` and `low` stand for.
pub open spec fn hex_pair_value(high: char, low: char) -> u8 {
    (16 * hex_value(high)->0 + hex_value(low)->0) as u8
}

/// The bytes that the hex string `s` stands for, two digits to a byte, the
/// high digit first.
pub open spec fn hex_decoding(s: Seq<char>) -> Seq<u8> {
    Seq::new(s.len() / 2, |i: int| hex_pair_value(s[2 * i], s[2 * i + 1]))
}

/// The lower-case hex digit with value `v`, for `0 <= v < 16`.
pub open spec fn lower_hex_digit(v: int) -> char {
    if v < 10 {
        ('0' as int + v) as char
    } else {
        ('a' as int + v - 10) as char
    }
}

/// `bytes` in lower-case hex notation, two digits to a byte, the high digit
/// first.
pub open spec fn hex_encoding(bytes: Seq<u8>) -> Seq<char> {
    Seq::new(
        2 * bytes.len(),
        |i: int|
            if i % 2 == 0 {
                lower_hex_digit(bytes[i / 2] as int / 16)
            } else {
                lower_hex_digit(bytes[i / 2] as int % 16)
            },
    )
}

/// `c` as a small letter where it is one of the capital letters `A`-`Z`, and
/// `c` itself where it is not.
pub open spec fn ascii_lower(c: char) -> char {
    if 'A' <= c <= 'Z' {
        (c as int + 32) as char
    } else {
        c
    }
}

/// `s` with each capital letter `A`-`Z` made small.
pub open spec fn in_lower_case(s: Seq<char>) -> Seq<char> {
    Seq::new(s.len(), |i: int| ascii_lower(s[i]))
}

/// The error of the `hex` crate's decoder. Nothing is read from it: any
/// failure to decode means the same to this library.
#[verifier::external_type_specification]
#[verifier::external_body]
pub struct ExFromHexError(hex::FromHexError);

/// Calls `hex::decode` on the bytes of `s`.
///
/// Trusted: the call succeeds exactly on an even number of hex digits of
/// either case, and then returns one byte for each pair of digits, sixteen
/// times the first digit's value plus the second's. A character outside ASCII
/// is encoded in bytes that are no hex digits, so it is refused like any other
/// character that is no hex digit.
#[verifier::external_body]
pub(crate) fn decode(s: &str) -> (r: Result<Vec<u8>, hex::FromHexError>)
    ensures
        r is Ok <==> is_hex_string(s@),
        r matches Ok(bytes) ==> bytes@ == hex_decoding(s@),
{
    hex::decode(s)
}

/// Calls `hex::encode` on `bytes`.
///
/// Trusted: the result holds two lower-case hex digits for each byte, in
/// order, the high four bits first.
#[verifier::external_body]
pub(crate) fn encode(bytes: &[u8]) -> (s: String)
    ensures
        s@ == hex_encoding(bytes@),
{
    hex::encode(bytes)
}

/// Each digit that `lower_hex_digit` writes is read back with its value.
pub proof fn lemma_lower_hex_digit_value(v: int)
    requires
        0 <= v < 16,
    ensures
        hex_value(lower_hex_digit(v)) == Some(v),
{
}

/// What `hex_encoding` writes is a hex string of twice the length.
pub proof fn lemma_hex_encoding_is_hex_string(bytes: Seq<u8>)
    ensures
        hex_encoding(bytes).len() == 2 * bytes.len(),
        is_hex_string(hex_encoding(bytes)),
{
    let s = hex_encoding(bytes);
    assert forall|i: int| 0 <= i < s.len() implies is_hex_digit(#[trigger] s[i]) by {
        let b = bytes[i / 2] as int;
        lemma_lower_hex_digit_value(b / 16);
        lemma_lower_hex_digit_value(b % 16);
    }
}

/// Decoding undoes encoding.
pub proof fn lemma_hex_round_trip(bytes: Seq<u8>)
    ensures
        hex_decoding(hex_encoding(bytes)) == bytes,
{
    let s = hex_encoding(bytes);
    let back = hex_decoding(s);
    assert(back.len() == bytes.len());
    assert forall|i: int| 0 <= i < bytes.len() implies back[i] == bytes[i] by {
        let b = bytes[i] as int;
        assert((2 * i) / 2 == i && (2 * i) % 2 == 0);
        assert((2 * i + 1) / 2 == i && (2 * i + 1) % 2 == 1);
        lemma_lower_hex_digit_value(b / 16);
        lemma_lower_hex_digit_value(b % 16);
        assert(s[2 * i] == lower_hex_digit(b / 16));
        assert(s[2 * i + 1] == lower_hex_digit(b % 16));
        assert(16 * (b / 16) + b % 16 == b);
    }
    assert(back =~= bytes);
}

/// A hex digit has the same value in either case.
pub proof fn lemma_hex_value_ignores_case(c: char)
    ensures
        hex_value(ascii_lower(c)) == hex_value(c),
{
}

/// A hex string stands for the same bytes in either case, and a string is a
/// hex string in one case exactly if it is one in the other.
pub proof fn lemma_hex_decoding_ignores_case(s: Seq<char>)
    ensures
        is_hex_string(in_lower_case(s)) == is_hex_string(s),
        hex_decoding(in_lower_case(s)) == hex_decoding(s),
{
    let lower = in_lower_case(s);
    assert forall|i: int| 0 <= i < s.len() implies hex_value(#[trigger] lower[i]) == hex_value(
        s[i],
    ) by {
        lemma_hex_value_ignores_case(s[i]);
    }
    if is_hex_string(s) {
        assert forall|i: int| 0 <= i < lower.len() implies is_hex_digit(#[trigger] lower[i]) by {
            assert(is_hex_digit(s[i]));
        }
    }
    if is_hex_string(lower) {
        assert forall|i: int| 0 <= i < s.len() implies is_hex_digit(#[trigger] s[i]) by {
            assert(is_hex_digit(lower[i]));
        }
    }
    assert forall|i: int| 0 <= i < s.len() / 2 implies hex_decoding(lower)[i] == hex_decoding(
        s,
    )[i] by {
        assert(hex_value(lower[2 * i]) == hex_value(s[2 * i]));
        assert(hex_value(lower[2 * i + 1]) == hex_value(s[2 * i + 1]));
    }
    assert(hex_decoding(lower) =~= hex_decoding(s));
}

} // verus!
