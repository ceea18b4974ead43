//! Percent-encoding of identifiers in URLs.

use vstd::prelude::*;
use vstd::utf8::{encode_utf8, valid_utf8};

verus! {

/// The bytes that may not stand in the path of a URL as they are: controls,
/// everything outside ASCII, the space and ``" # < > ` ? { }``.
pub open spec fn needs_escape(b: u8) -> bool {
    b < 0x20 || b > 0x7e || b == 0x20 || b == 0x22 || b == 0x23 || b == 0x3c || b == 0x3e || b
        == 0x60 || b == 0x3f || b == 0x7b || b == 0x7d
}

/// The upper-case hexadecimal digit for a number below sixteen.
pub open spec fn hex_digit(n: u8) -> char {
    if n < 10 {
        ((0x30 + n) as u8) as char
    } else {
        ((0x37 + n) as u8) as char
    }
}

/// How one byte is written: as itself, or as `%` and two hexadecimal digits.
pub open spec fn escaped(b: u8) -> Seq<char> {
    if needs_escape(b) {
        seq!['%', hex_digit(b / 16), hex_digit(b % 16)]
    } else {
        seq![b as char]
    }
}

/// The percent-encoding of a byte string.
pub open spec fn percent_encoded(bytes: Seq<u8>) -> Seq<char>
    decreases bytes.len(),
{
    if bytes.len() == 0 {
        Seq::empty()
    } else {
        escaped(bytes[0]) + percent_encoded(bytes.drop_first())
    }
}

/// The number that a hexadecimal digit of either case denotes.
pub open spec fn hex_value(b: u8) -> Option<u8> {
    if 0x30 <= b <= 0x39 {
        Some((b - 0x30) as u8)
    } else if 0x41 <= b <= 0x46 {
        Some((b - 0x37) as u8)
    } else if 0x61 <= b <= 0x66 {
        Some((b - 0x57) as u8)
    } else {
        None
    }
}

/// Whether an escape, `%` and two hexadecimal digits, stands at the front.
pub open spec fn escape_ahead(bytes: Seq<u8>) -> bool {
    bytes.len() >= 3 && bytes[0] == 0x25 && hex_value(bytes[1]) is Some && hex_value(bytes[2])
        is Some
}

/// The bytes that a percent-encoded string stands for. A `%` that no two
/// hexadecimal digits follow stands for itself.
pub open spec fn percent_decoded(bytes: Seq<u8>) -> Seq<u8>
    decreases bytes.len(),
{
    if bytes.len() == 0 {
        Seq::empty()
    } else if escape_ahead(bytes) {
        seq![(hex_value(bytes[1])->0 * 16 + hex_value(bytes[2])->0) as u8] + percent_decoded(
            bytes.skip(3),
        )
    } else {
        seq![bytes[0]] + percent_decoded(bytes.skip(1))
    }
}

/// Percent-encodes `input` for the path of a URL.
///
/// Trusted: `percent_encoding::percent_encode` with `DEFAULT_ENCODE_SET`,
/// written out through its `Display`. The contract claims that it writes
/// each byte as [`escaped`] says, one after the other.
#[verifier::external_body]
pub(crate) fn percent_encode(input: &[u8]) -> (out: String)
    ensures
        out@ == percent_encoded(input@),
{
    percent_encoding::percent_encode(input, percent_encoding::DEFAULT_ENCODE_SET).to_string()
}

/// Undoes percent-encoding and reads the result as UTF-8.
///
/// Trusted: `percent_encoding::percent_decode` followed by `decode_utf8`.
/// The contract claims that the bytes are decoded as [`percent_decoded`]
/// says, and that a string comes back exactly when those bytes are
/// well-formed UTF-8, in which case it holds them.
#[verifier::external_body]
pub(crate) fn percent_decode(input: &[u8]) -> (out: Option<String>)
    ensures
        out is Some <==> valid_utf8(percent_decoded(input@)),
        out matches Some(text) ==> encode_utf8(text@) == percent_decoded(input@),
{
    match percent_encoding::percent_decode(input).decode_utf8() {
        Ok(text) => Some(text.into_owned()),
        Err(_) => None,
    }
}

} // verus!
