//! Hex color parsing.
//!
//! A color is written `#RRGGBB` (or `RRGGBB`): one optional `#`, then
//! exactly six hex digits in either case. Anything else is no color.

use vstd::prelude::*;
use vstd::string::StringSliceAdditionalSpecFns;

verus! {

/// The value of one ASCII hex digit, in either case.
pub open spec fn hex_digit_value(c: u8) -> Option<u8> {
    if 0x30 <= c <= 0x39 {
        Some((c - 0x30) as u8)
    } else if 0x61 <= c <= 0x66 {
        Some((c - 0x61 + 10) as u8)
    } else if 0x41 <= c <= 0x46 {
        Some((c - 0x41 + 10) as u8)
    } else {
        None
    }
}

/// Two hex digits read as one byte, high digit first.
pub open spec fn hex_pair_value(c0: u8, c1: u8) -> Option<u8> {
    match (hex_digit_value(c0), hex_digit_value(c1)) {
        (Some(hi), Some(lo)) => Some((16 * hi + lo) as u8),
        _ => None,
    }
}

/// The bytes of a hex color after one leading `#` is removed, if present.
pub open spec fn hex_body(bytes: Seq<u8>) -> Seq<u8> {
    if bytes.len() > 0 && bytes[0] == 0x23 {
        bytes.drop_first()
    } else {
        bytes
    }
}

/// The sRGB triple that a hex color's bytes denote, if they denote one.
pub open spec fn spec_parse_hex(bytes: Seq<u8>) -> Option<(u8, u8, u8)> {
    let h = hex_body(bytes);
    if h.len() != 6 {
        None
    } else {
        match (hex_pair_value(h[0], h[1]), hex_pair_value(h[2], h[3]), hex_pair_value(h[4], h[5])) {
            (Some(r), Some(g), Some(b)) => Some((r, g, b)),
            _ => None,
        }
    }
}

fn hex_digit(c: u8) -> (res: Option<u8>)
    ensures
        res == hex_digit_value(c),
{
    if 0x30 <= c && c <= 0x39 {
        Some(c - 0x30)
    } else if 0x61 <= c && c <= 0x66 {
        Some(c - 0x61 + 10)
    } else if 0x41 <= c && c <= 0x46 {
        Some(c - 0x41 + 10)
    } else {
        None
    }
}

fn hex_pair(c0: u8, c1: u8) -> (res: Option<u8>)
    ensures
        res == hex_pair_value(c0, c1),
{
    match (hex_digit(c0), hex_digit(c1)) {
        (Some(hi), Some(lo)) => Some(16 * hi + lo),
        _ => None,
    }
}

/// Parse a `#RRGGBB` (or `RRGGBB`) hex string into an sRGB triple.
///
/// Any other string, whatever characters it holds, gives `None`.
pub fn parse_hex(hex: &str) -> (res: Option<[u8; 3]>)
    ensures
        res is Some <==> spec_parse_hex(hex.spec_bytes()) is Some,
        res matches Some(rgb) ==> spec_parse_hex(hex.spec_bytes()) == Some((rgb[0], rgb[1], rgb[2])),
{
    let bytes = hex.as_bytes();
    let start: usize = if bytes.len() > 0 && bytes[0] == 0x23 { 1 } else { 0 };
    assert(hex_body(bytes@) =~= bytes@.subrange(start as int, bytes@.len() as int));
    if bytes.len() - start != 6 {
        return None;
    }
    let r = match hex_pair(bytes[start], bytes[start + 1]) {
        Some(v) => v,
        None => return None,
    };
    let g = match hex_pair(bytes[start + 2], bytes[start + 3]) {
        Some(v) => v,
        None => return None,
    };
    let b = match hex_pair(bytes[start + 4], bytes[start + 5]) {
        Some(v) => v,
        None => return None,
    };
    Some([r, g, b])
}

/// The ASCII hex digit for a value below 16, in upper or lower case.
pub open spec fn hex_digit_byte(d: u8, upper: bool) -> u8 {
    if d < 10 {
        (0x30 + d) as u8
    } else if upper {
        (0x41 + d - 10) as u8
    } else {
        (0x61 + d - 10) as u8
    }
}

/// The bytes of `#RRGGBB` for an sRGB triple.
pub open spec fn hex_encoding(r: u8, g: u8, b: u8, upper: bool) -> Seq<u8> {
    seq![
        0x23u8,
        hex_digit_byte(r / 16, upper),
        hex_digit_byte(r % 16, upper),
        hex_digit_byte(g / 16, upper),
        hex_digit_byte(g % 16, upper),
        hex_digit_byte(b / 16, upper),
        hex_digit_byte(b % 16, upper),
    ]
}

proof fn lemma_hex_byte_pair(v: u8, upper: bool)
    ensures
        hex_pair_value(hex_digit_byte(v / 16, upper), hex_digit_byte(v % 16, upper)) == Some(v),
{
}

/// Every sRGB triple written as `#RRGGBB`, with upper- or lower-case digits,
/// parses back to itself.
pub proof fn lemma_parse_hex_of_encoding(r: u8, g: u8, b: u8, upper: bool)
    ensures
        spec_parse_hex(hex_encoding(r, g, b, upper)) == Some((r, g, b)),
{
    let e = hex_encoding(r, g, b, upper);
    lemma_hex_byte_pair(r, upper);
    lemma_hex_byte_pair(g, upper);
    lemma_hex_byte_pair(b, upper);
    assert(hex_body(e) =~= e.drop_first());
}

/// The bytes of `#RRGGBB` for an sRGB triple, each of the six digits in the
/// case that `upper[k]` chooses for it.
pub open spec fn hex_encoding_mixed_case(r: u8, g: u8, b: u8, upper: Seq<bool>) -> Seq<u8> {
    seq![
        0x23u8,
        hex_digit_byte(r / 16, upper[0]),
        hex_digit_byte(r % 16, upper[1]),
        hex_digit_byte(g / 16, upper[2]),
        hex_digit_byte(g % 16, upper[3]),
        hex_digit_byte(b / 16, upper[4]),
        hex_digit_byte(b % 16, upper[5]),
    ]
}

proof fn lemma_hex_byte_pair_mixed(v: u8, upper_hi: bool, upper_lo: bool)
    ensures
        hex_pair_value(hex_digit_byte(v / 16, upper_hi), hex_digit_byte(v % 16, upper_lo)) == Some(v),
{
}

/// Every digit may take its own case: an sRGB triple written as `#RRGGBB` or
/// `RRGGBB`, with each of the six digits in upper or lower case as chosen,
/// parses back to itself.
pub proof fn lemma_parse_hex_of_mixed_case_encoding(r: u8, g: u8, b: u8, upper: Seq<bool>)
    requires
        upper.len() == 6,
    ensures
        spec_parse_hex(hex_encoding_mixed_case(r, g, b, upper)) == Some((r, g, b)),
        spec_parse_hex(hex_encoding_mixed_case(r, g, b, upper).drop_first()) == Some((r, g, b)),
{
    let e = hex_encoding_mixed_case(r, g, b, upper);
    lemma_hex_byte_pair_mixed(r, upper[0], upper[1]);
    lemma_hex_byte_pair_mixed(g, upper[2], upper[3]);
    lemma_hex_byte_pair_mixed(b, upper[4], upper[5]);
    assert(hex_body(e) =~= e.drop_first());
    assert(hex_body(e.drop_first()) =~= e.drop_first());
}

/// An ASCII hex digit: `0`-`9`, `a`-`f` or `A`-`F`.
pub open spec fn is_ascii_hex_digit(c: u8) -> bool {
    (0x30 <= c <= 0x39) || (0x61 <= c <= 0x66) || (0x41 <= c <= 0x46)
}

/// A string is a color exactly when it is six ASCII hex digits, each in
/// either case, or a `#` followed by six such digits.
pub proof fn lemma_parse_hex_accepts_exactly_six_digits(bytes: Seq<u8>)
    ensures
        spec_parse_hex(bytes) is Some <==> {
            ||| (bytes.len() == 6 && forall|k: int| 0 <= k < 6 ==> is_ascii_hex_digit(#[trigger] bytes[k]))
            ||| (bytes.len() == 7 && bytes[0] == 0x23 && forall|k: int|
                1 <= k < 7 ==> is_ascii_hex_digit(#[trigger] bytes[k]))
        },
{
    let h = hex_body(bytes);
    assert forall|c: u8| #[trigger] hex_digit_value(c) is Some <==> is_ascii_hex_digit(c) by {}
    if bytes.len() > 0 && bytes[0] == 0x23 {
        assert forall|k: int| 0 <= k < h.len() implies #[trigger] h[k] == bytes[k + 1] by {}
    }
    if h.len() == 6 {
        assert(is_ascii_hex_digit(h[0]) == (hex_digit_value(h[0]) is Some));
        assert(is_ascii_hex_digit(h[1]) == (hex_digit_value(h[1]) is Some));
        assert(is_ascii_hex_digit(h[2]) == (hex_digit_value(h[2]) is Some));
        assert(is_ascii_hex_digit(h[3]) == (hex_digit_value(h[3]) is Some));
        assert(is_ascii_hex_digit(h[4]) == (hex_digit_value(h[4]) is Some));
        assert(is_ascii_hex_digit(h[5]) == (hex_digit_value(h[5]) is Some));
    }
}

/// The leading `#` is optional: a color reads the same with and without it.
pub proof fn lemma_hash_prefix_optional(body: Seq<u8>)
    requires
        body.len() == 0 || body[0] != 0x23,
    ensures
        spec_parse_hex(seq![0x23u8] + body) == spec_parse_hex(body),
{
    assert(hex_body(seq![0x23u8] + body) =~= body);
    assert(hex_body(body) =~= body);
}

} // verus!
