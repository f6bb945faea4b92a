//! Hexadecimal digits and the bytes that a run of them spells.

use crate::text::{chars_of, str_from_utf8, utf8_text};
use crate::views::opt_view;
use vstd::prelude::*;

verus! {

/// Whether `b` is the ASCII code of a hexadecimal digit, of either case.
pub open spec fn is_hex_digit(b: u8) -> bool {
    (0x30 <= b <= 0x39) || (0x41 <= b <= 0x46) || (0x61 <= b <= 0x66)
}

/// The number that the hexadecimal digit with ASCII code `b` stands for.
pub open spec fn hex_digit_value(b: u8) -> int {
    if 0x30 <= b <= 0x39 {
        b - 0x30
    } else if 0x41 <= b <= 0x46 {
        b - 0x41 + 10
    } else {
        b - 0x61 + 10
    }
}

/// Whether `c` is a hexadecimal digit, of either case.
pub open spec fn is_hex_char(c: char) -> bool {
    ('0' <= c <= '9') || ('A' <= c <= 'F') || ('a' <= c <= 'f')
}

/// The number that the hexadecimal digit `c` stands for.
pub open spec fn hex_char_value(c: char) -> int {
    hex_digit_value(c as u8)
}

/// Whether `s` is a run of hexadecimal digits of even length.
pub open spec fn is_hex_text(s: Seq<char>) -> bool {
    s.len() % 2 == 0 && forall|i: int| 0 <= i < s.len() ==> is_hex_char(#[trigger] s[i])
}

/// The bytes that the digits of `s` spell, two digits to a byte, the high
/// digit first.
pub open spec fn hex_bytes(s: Seq<char>) -> Seq<u8> {
    Seq::new(
        (s.len() / 2) as nat,
        |i: int| (16 * hex_char_value(s[2 * i]) + hex_char_value(s[2 * i + 1])) as u8,
    )
}

/// The bytes that `s` spells, if it is a run of hexadecimal digits of even
/// length.
pub open spec fn hex_decoded(s: Seq<char>) -> Option<Seq<u8>> {
    if is_hex_text(s) {
        Some(hex_bytes(s))
    } else {
        None
    }
}

/// The text that `s` spells: its bytes read as UTF-8.
pub open spec fn hex_text(s: Seq<char>) -> Option<Seq<char>> {
    match hex_decoded(s) {
        Some(bytes) => utf8_text(bytes),
        None => None,
    }
}

/// Whether the byte is the code of a hexadecimal digit.
pub fn is_hex_byte(b: u8) -> (r: bool)
    ensures
        r == is_hex_digit(b),
{
    (0x30 <= b && b <= 0x39) || (0x41 <= b && b <= 0x46) || (0x61 <= b && b <= 0x66)
}

/// The value of one hexadecimal digit, if `c` is one.
pub fn hex_value(c: char) -> (r: Option<u8>)
    ensures
        match r {
            Some(v) => is_hex_char(c) && v == hex_char_value(c) && v < 16,
            None => !is_hex_char(c),
        },
{
    if '0' <= c && c <= '9' {
        Some((c as u8) - 0x30)
    } else if 'A' <= c && c <= 'F' {
        Some((c as u8) - 0x41 + 10)
    } else if 'a' <= c && c <= 'f' {
        Some((c as u8) - 0x61 + 10)
    } else {
        None
    }
}

/// Reads `payload` two hexadecimal digits at a time. An odd length or a
/// character that is no hexadecimal digit gives `None`.
pub fn hex_decode(payload: &str) -> (r: Option<Vec<u8>>)
    ensures
        opt_view(r) == hex_decoded(payload@),
{
    let v = chars_of(payload);
    let n: usize = v.len();
    let mut out: Vec<u8> = Vec::new();
    let mut i: usize = 0;
    while i < n
        invariant
            n == v.len(),
            v@ == payload@,
            i <= n,
            i % 2 == 0,
            out.len() == i / 2,
            forall|k: int| 0 <= k < i ==> is_hex_char(#[trigger] v@[k]),
            forall|k: int| 0 <= k < out.len() ==> #[trigger] out@[k] == hex_bytes(v@)[k],
        decreases n - i,
    {
        if n - i < 2 {
            assert(v@.len() % 2 != 0);
            return None;
        }
        let high = hex_value(v[i]);
        let low = hex_value(v[i + 1]);
        match (high, low) {
            (Some(h), Some(l)) => {
                out.push(16 * h + l);
            },
            _ => {
                assert(!is_hex_char(v@[i as int]) || !is_hex_char(v@[i + 1]));
                return None;
            },
        }
        i += 2;
    }
    assert(out@ =~= hex_bytes(v@));
    Some(out)
}

/// Reads `payload` as hexadecimal digits and the bytes they spell as UTF-8
/// text.
pub fn decode_hex_text(payload: &str) -> (r: Option<String>)
    ensures
        opt_view(r) == hex_text(payload@),
{
    match hex_decode(payload) {
        Some(bytes) => match str_from_utf8(bytes.as_slice()) {
            Some(text) => Some(String::from_str(text)),
            None => None,
        },
        None => None,
    }
}

} // verus!
