//! Percent-encoding of URI text: the escapes `%XX` and the bytes they stand
//! for.

use crate::hex::{hex_digit_value, is_hex_byte, is_hex_digit};
use crate::views::ok_view;
use vstd::prelude::*;
use vstd::utf8::{
    decode_utf8, encode_utf8, encode_utf8_decode_utf8, encode_utf8_valid_utf8, is_ascii_chars,
    is_ascii_chars_encode_utf8, valid_utf8,
};

verus! {

/// Why a text could not be percent-decoded.
#[derive(Clone, Copy, Debug, PartialEq, Eq, Structural)]
pub enum DecodeError {
    /// A `%` is not followed by two hexadecimal digits.
    MalformedEscape,
    /// The decoded bytes are not UTF-8.
    InvalidUtf8,
}

/// Whether an escape stands at place `i` of `b`: a `%` and two hexadecimal
/// digits.
pub open spec fn escape_at(b: Seq<u8>, i: int) -> bool {
    0 <= i && i + 2 < b.len() && b[i] == 0x25 && is_hex_digit(b[i + 1]) && is_hex_digit(b[i + 2])
}

/// The byte that the escape at place `i` of `b` stands for.
pub open spec fn escape_value(b: Seq<u8>, i: int) -> u8 {
    (16 * hex_digit_value(b[i + 1]) + hex_digit_value(b[i + 2])) as u8
}

/// The bytes that `b` stands for: each escape gives its byte, every other
/// byte stands for itself, a `%` that begins no escape too.
pub open spec fn percent_decoded(b: Seq<u8>) -> Seq<u8>
    decreases b.len(),
{
    if b.len() == 0 {
        b
    } else if escape_at(b, 0) {
        seq![escape_value(b, 0)] + percent_decoded(b.skip(3))
    } else {
        seq![b[0]] + percent_decoded(b.skip(1))
    }
}

/// Whether some `%` in `b` begins no escape.
pub open spec fn has_malformed_escape(b: Seq<u8>) -> bool {
    exists|i: int| 0 <= i < b.len() && b[i] == 0x25 && !escape_at(b, i)
}

/// What decoding the text `raw` gives.
pub open spec fn decoded(raw: Seq<char>) -> Result<Seq<char>, DecodeError> {
    let bytes = encode_utf8(raw);
    if has_malformed_escape(bytes) {
        Err(DecodeError::MalformedEscape)
    } else if !valid_utf8(percent_decoded(bytes)) {
        Err(DecodeError::InvalidUtf8)
    } else {
        Ok(decode_utf8(percent_decoded(bytes)))
    }
}

/// Whether the byte is written as it is when encoding: an ASCII letter or
/// digit, or one of `-`, `.`, `_`, `~`.
pub open spec fn is_unreserved(b: u8) -> bool {
    (0x30 <= b <= 0x39) || (0x41 <= b <= 0x5a) || (0x61 <= b <= 0x7a) || b == 0x2d || b == 0x2e
        || b == 0x5f || b == 0x7e
}

/// The ASCII code of the upper-case hexadecimal digit for `n`, which is
/// below 16.
pub open spec fn hex_digit(n: int) -> u8 {
    if n < 10 {
        (0x30 + n) as u8
    } else {
        (0x41 + n - 10) as u8
    }
}

/// How one byte is written when encoding.
pub open spec fn encoded_byte(b: u8) -> Seq<u8> {
    if is_unreserved(b) {
        seq![b]
    } else {
        seq![0x25u8, hex_digit(b as int / 16), hex_digit(b as int % 16)]
    }
}

/// The percent-encoding of the bytes `b`.
pub open spec fn percent_encoded(b: Seq<u8>) -> Seq<u8>
    decreases b.len(),
{
    if b.len() == 0 {
        b
    } else {
        encoded_byte(b[0]) + percent_encoded(b.skip(1))
    }
}

/// The characters with the given ASCII codes.
pub open spec fn ascii_text(b: Seq<u8>) -> Seq<char> {
    b.map_values(|x: u8| x as char)
}

/// The percent-encoding of the text `s`.
pub open spec fn encoded(s: Seq<char>) -> Seq<char> {
    ascii_text(percent_encoded(encode_utf8(s)))
}

/// Calls `urlencoding::decode`. It replaces each `%` that two hexadecimal
/// digits follow by the byte they spell, copies every other byte, and fails
/// exactly when the bytes so made are not UTF-8.
#[verifier::external_body]
fn urlencoding_decode(data: &str) -> (r: Option<String>)
    ensures
        match r {
            Some(s) => valid_utf8(percent_decoded(encode_utf8(data@))) && s@ == decode_utf8(
                percent_decoded(encode_utf8(data@)),
            ),
            None => !valid_utf8(percent_decoded(encode_utf8(data@))),
        },
{
    urlencoding::decode(data).ok().map(|text| text.into_owned())
}

/// Calls `urlencoding::encode`. It writes letters, digits and `-`, `.`, `_`,
/// `~` as they are and every other byte of the text as `%` and two upper-case
/// hexadecimal digits.
#[verifier::external_body]
fn urlencoding_encode(data: &str) -> (r: String)
    ensures
        r@ == encoded(data@),
{
    urlencoding::encode(data).into_owned()
}

/// Whether some `%` in `bytes` is not followed by two hexadecimal digits.
pub fn find_malformed_escape(bytes: &[u8]) -> (r: bool)
    ensures
        r == has_malformed_escape(bytes@),
{
    let n: usize = bytes.len();
    let mut i: usize = 0;
    while i < n
        invariant
            n == bytes@.len(),
            i <= n,
            forall|j: int| 0 <= j < i && bytes@[j] == 0x25 ==> escape_at(bytes@, j),
        decreases n - i,
    {
        if bytes[i] == 0x25 {
            if n - i < 3 || !is_hex_byte(bytes[i + 1]) || !is_hex_byte(bytes[i + 2]) {
                assert(!escape_at(bytes@, i as int));
                return true;
            }
        }
        i += 1;
    }
    false
}

/// Percent-decodes `raw`. A `%` that two hexadecimal digits do not follow is
/// an error, and so are decoded bytes that are not UTF-8.
pub fn decode(raw: &str) -> (r: Result<String, DecodeError>)
    ensures
        ok_view(r) == decoded(raw@),
{
    if find_malformed_escape(raw.as_bytes()) {
        return Err(DecodeError::MalformedEscape);
    }
    match urlencoding_decode(raw) {
        Some(s) => Ok(s),
        None => Err(DecodeError::InvalidUtf8),
    }
}

/// Percent-encodes `s`: all but letters, digits and `-`, `.`, `_`, `~`.
pub fn encode(s: &str) -> (r: String)
    ensures
        r@ == encoded(s@),
{
    urlencoding_encode(s)
}

/// Whether every `%` in `b` begins an escape and every byte is ASCII.
pub open spec fn is_well_escaped(b: Seq<u8>) -> bool {
    forall|i: int|
        0 <= i < b.len() ==> #[trigger] b[i] < 128 && (b[i] == 0x25 ==> escape_at(b, i))
}

proof fn lemma_hex_digit(n: int)
    requires
        0 <= n < 16,
    ensures
        is_hex_digit(hex_digit(n)),
        hex_digit_value(hex_digit(n)) == n,
        hex_digit(n) != 0x25,
        hex_digit(n) < 128,
{
}

proof fn lemma_well_escaped_concat(first: Seq<u8>, rest: Seq<u8>)
    requires
        is_well_escaped(first),
        is_well_escaped(rest),
    ensures
        is_well_escaped(first + rest),
{
    let whole = first + rest;
    assert forall|i: int| 0 <= i < whole.len() implies #[trigger] whole[i] < 128 && (whole[i]
        == 0x25 ==> escape_at(whole, i)) by {
        if i < first.len() {
            assert(whole[i] == first[i]);
            if first[i] == 0x25 {
                assert(escape_at(first, i));
                assert(whole[i + 1] == first[i + 1]);
                assert(whole[i + 2] == first[i + 2]);
            }
        } else {
            let k: int = i - first.len();
            assert(whole[i] == rest[k]);
            if rest[k] == 0x25 {
                assert(escape_at(rest, k));
                assert(whole[i + 1] == rest[k + 1]);
                assert(whole[i + 2] == rest[k + 2]);
            }
        }
    }
}

/// Decoding the encoding of any bytes gives the bytes back, and the encoding
/// holds nothing but ASCII and well-formed escapes.
pub proof fn lemma_percent_round_trip(b: Seq<u8>)
    ensures
        percent_decoded(percent_encoded(b)) == b,
        is_well_escaped(percent_encoded(b)),
    decreases b.len(),
{
    if b.len() > 0 {
        let x: u8 = b[0];
        let first = encoded_byte(x);
        let rest = percent_encoded(b.skip(1));
        let whole = first + rest;
        lemma_percent_round_trip(b.skip(1));
        lemma_hex_digit(x as int / 16);
        lemma_hex_digit(x as int % 16);
        assert(is_well_escaped(first));
        lemma_well_escaped_concat(first, rest);
        if is_unreserved(x) {
            assert(whole[0] == x);
            assert(!escape_at(whole, 0));
            assert(whole.skip(1) =~= rest);
        } else {
            assert(whole[0] == 0x25);
            assert(whole[1] == hex_digit(x as int / 16));
            assert(whole[2] == hex_digit(x as int % 16));
            assert(escape_at(whole, 0));
            assert(escape_value(whole, 0) == x);
            assert(whole.skip(3) =~= rest);
        }
        assert(seq![x] + b.skip(1) =~= b);
    }
}

/// Decoding inverts encoding: for every text `s`, decoding what encoding
/// made of `s` succeeds and gives `s` back.
pub proof fn lemma_decode_inverts_encode(s: Seq<char>)
    ensures
        decoded(encoded(s)) == Ok::<Seq<char>, DecodeError>(s),
{
    let bytes = encode_utf8(s);
    let wire = percent_encoded(bytes);
    let text = ascii_text(wire);
    lemma_percent_round_trip(bytes);
    assert(is_ascii_chars(text)) by {
        assert forall|i: int| 0 <= i < text.len() implies '\0' <= #[trigger] text[i]
            <= '\u{7f}' by {
            assert(wire[i] < 128);
        }
    }
    is_ascii_chars_encode_utf8(text);
    assert(encode_utf8(text) =~= wire) by {
        assert forall|i: int| 0 <= i < wire.len() implies encode_utf8(text)[i] == wire[i] by {
            assert(text[i] as u8 == encode_utf8(text)[i]);
            assert(wire[i] < 128);
        }
    }
    assert(!has_malformed_escape(wire));
    encode_utf8_valid_utf8(s);
    encode_utf8_decode_utf8(s);
}

} // verus!
