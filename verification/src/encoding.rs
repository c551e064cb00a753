//! Percent-encoding and UTF-8, as the outside crates and `std` compute them.

use vstd::prelude::*;
use vstd::utf8::{decode_utf8, encode_utf8, valid_utf8};

verus! {

/// `b` is an ASCII hexadecimal digit, either case.
pub open spec fn is_hex_digit(b: u8) -> bool {
    (0x30 <= b <= 0x39) || (0x41 <= b <= 0x46) || (0x61 <= b <= 0x66)
}

/// The value of an ASCII hexadecimal digit.
pub open spec fn hex_value(b: u8) -> nat {
    if 0x30 <= b <= 0x39 {
        (b - 0x30) as nat
    } else if 0x41 <= b <= 0x46 {
        (b - 0x41 + 10) as nat
    } else {
        (b - 0x61 + 10) as nat
    }
}

/// Percent-decoding: each `%` followed by two hexadecimal digits becomes the
/// byte they denote; every other byte, a `%` without two digits after it
/// included, stays as it is.
pub open spec fn percent_decoded(b: Seq<u8>) -> Seq<u8>
    decreases b.len(),
{
    if b.len() == 0 {
        Seq::empty()
    } else if b[0] == 0x25 && b.len() >= 3 && is_hex_digit(b[1]) && is_hex_digit(b[2]) {
        seq![(hex_value(b[1]) * 16 + hex_value(b[2])) as u8] + percent_decoded(b.skip(3))
    } else {
        seq![b[0]] + percent_decoded(b.skip(1))
    }
}

/// The text that the bytes encode in UTF-8, or `None` when they are not UTF-8.
pub open spec fn utf8_text(b: Seq<u8>) -> Option<Seq<char>> {
    if valid_utf8(b) {
        Some(decode_utf8(b))
    } else {
        None
    }
}

/// The text of `s` with percent-escapes decoded, or `None` when the decoded
/// bytes are not UTF-8.
pub open spec fn percent_decoded_text(s: Seq<char>) -> Option<Seq<char>> {
    utf8_text(percent_decoded(encode_utf8(s)))
}

/// Bytes that percent-encoding leaves alone: ASCII letters and digits and `- . _ ~`.
pub open spec fn is_unreserved(b: u8) -> bool {
    ||| 0x30 <= b <= 0x39
    ||| 0x41 <= b <= 0x5a
    ||| 0x61 <= b <= 0x7a
    ||| b == 0x2d || b == 0x2e || b == 0x5f || b == 0x7e
}

/// The uppercase hexadecimal digit of `d < 16`.
pub open spec fn hex_upper(d: nat) -> char {
    if d < 10 {
        crate::text::digit_char(d)
    } else if d == 10 { 'A' }
    else if d == 11 { 'B' }
    else if d == 12 { 'C' }
    else if d == 13 { 'D' }
    else if d == 14 { 'E' }
    else { 'F' }
}

/// Percent-encoding of bytes: unreserved bytes as themselves, every other
/// byte as `%` and two uppercase hexadecimal digits.
pub open spec fn url_encoded(b: Seq<u8>) -> Seq<char>
    decreases b.len(),
{
    if b.len() == 0 {
        Seq::empty()
    } else {
        let head = if is_unreserved(b[0]) {
            seq![b[0] as char]
        } else {
            seq!['%', hex_upper((b[0] / 16) as nat), hex_upper((b[0] % 16) as nat)]
        };
        head + url_encoded(b.skip(1))
    }
}

/// `percent_encoding::percent_decode_str(s).decode_utf8()`.
/// Trusted: percent-escapes of the UTF-8 bytes of `s` are decoded as
/// `percent_decoded` states, and the result is the decoded text when those
/// bytes are UTF-8, else `None`.
#[verifier::external_body]
pub(crate) fn percent_decode_utf8(s: &str) -> (r: Option<String>)
    ensures
        match r {
            Some(t) => percent_decoded_text(s@) == Some(t@),
            None => percent_decoded_text(s@) is None,
        },
{
    match percent_encoding::percent_decode_str(s).decode_utf8() {
        Ok(t) => Some(t.into_owned()),
        Err(_) => None,
    }
}

/// `urlencoding::decode(s)`.
/// Trusted: the same decoding as `percent_decode_utf8` (escapes decoded, `+`
/// kept), `None` when the decoded bytes are not UTF-8.
#[verifier::external_body]
pub(crate) fn url_decode(s: &str) -> (r: Option<String>)
    ensures
        match r {
            Some(t) => percent_decoded_text(s@) == Some(t@),
            None => percent_decoded_text(s@) is None,
        },
{
    match urlencoding::decode(s) {
        Ok(t) => Some(t.into_owned()),
        Err(_) => None,
    }
}

/// `urlencoding::encode(s)`.
/// Trusted: the UTF-8 bytes of `s`, each unreserved byte kept and every other
/// byte written as `%XX` in uppercase hexadecimal.
#[verifier::external_body]
pub(crate) fn url_encode(s: &str) -> (r: String)
    ensures
        r@ == url_encoded(encode_utf8(s@)),
{
    urlencoding::encode(s).into_owned()
}

/// `std::str::from_utf8`. Trusted: succeeds exactly on valid UTF-8, with the
/// characters that the bytes encode.
#[verifier::external_body]
pub(crate) fn str_from_utf8(b: &[u8]) -> (r: Option<&str>)
    ensures
        match r {
            Some(t) => utf8_text(b@) == Some(t@),
            None => utf8_text(b@) is None,
        },
{
    std::str::from_utf8(b).ok()
}

/// The text that `bytes` encode in UTF-8, or the empty text when they are not
/// UTF-8 (`from_utf8(..).unwrap_or_default()`).
pub fn utf8_or_empty(bytes: &[u8]) -> (s: String)
    ensures
        s@ == match utf8_text(bytes@) {
            Some(t) => t,
            None => Seq::empty(),
        },
{
    match str_from_utf8(bytes) {
        Some(t) => t.to_string(),
        None => String::new(),
    }
}

} // verus!
