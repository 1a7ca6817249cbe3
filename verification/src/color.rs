use vstd::prelude::*;

use crate::data::ColorParseError;
use crate::data::Rgb;

verus! {

/// A character that is a hexadecimal digit, in either case.
pub open spec fn is_hex_digit(c: char) -> bool {
    ('0' <= c && c <= '9') || ('a' <= c && c <= 'f') || ('A' <= c && c <= 'F')
}

/// Value of one hexadecimal digit.
pub open spec fn hex_val(c: char) -> int {
    if '0' <= c && c <= '9' {
        c as int - '0' as int
    } else if 'a' <= c && c <= 'f' {
        c as int - 'a' as int + 10
    } else if 'A' <= c && c <= 'F' {
        c as int - 'A' as int + 10
    } else {
        0
    }
}

/// Every character of the string is a hexadecimal digit.
pub open spec fn all_hex_digits(s: Seq<char>) -> bool {
    forall|i: int| 0 <= i < s.len() ==> is_hex_digit(#[trigger] s[i])
}

/// A string that hex-decodes to bytes: even length, hexadecimal digits only.
pub open spec fn valid_hex(s: Seq<char>) -> bool {
    s.len() % 2 == 0 && all_hex_digits(s)
}

/// The bytes a hexadecimal string decodes to: each pair of digits, high
/// digit first, gives one byte.
pub open spec fn hex_bytes(s: Seq<char>) -> Seq<u8>
    decreases s.len(),
{
    if s.len() < 2 {
        Seq::empty()
    } else {
        seq![(hex_val(s[0]) * 16 + hex_val(s[1])) as u8] + hex_bytes(s.skip(2))
    }
}

proof fn lemma_hex_bytes_len(s: Seq<char>)
    ensures
        hex_bytes(s).len() == s.len() / 2,
    decreases s.len(),
{
    if s.len() >= 2 {
        lemma_hex_bytes_len(s.skip(2));
    }
}

/// Relies on hex::decode: it returns the decoded bytes exactly when the
/// input has even length and holds only hexadecimal digits of either case,
/// pairing digits high-first, and reports an error otherwise.
#[verifier::external_body]
fn hex_decode(s: &str) -> (r: Option<Vec<u8>>)
    requires
        s.is_ascii(),
    ensures
        match r {
            Some(bytes) => valid_hex(s@) && bytes@ == hex_bytes(s@),
            None => !valid_hex(s@),
        },
{
    hex::decode(s).ok()
}

/// The color a hex string of the form `#RRGGBB` (any character may stand in
/// for `#`) denotes, or nothing if the string is malformed: wrong length, or
/// a non-hex character among the six digits.
pub open spec fn hex_color_spec(s: Seq<char>) -> Option<Rgb> {
    if s.len() == 7 && valid_hex(s.subrange(1, 7)) {
        let bytes = hex_bytes(s.subrange(1, 7));
        Some(Rgb { r: bytes[0], g: bytes[1], b: bytes[2] })
    } else {
        None
    }
}

/// Parses a 7-character `#RRGGBB` string into a color; a string of any other
/// length, or one with a non-hex character among its last six, is rejected.
pub fn hex_to_color(hex: &str) -> (r: Result<Rgb, ColorParseError>)
    ensures
        r matches Ok(c) ==> hex_color_spec(hex@) == Some(c),
        r is Err <==> hex_color_spec(hex@) is None,
{
    let n = hex.unicode_len();
    if n != 7 {
        return Err(ColorParseError);
    }
    let digits = hex.substring_char(1, 7);
    if !digits.is_ascii() {
        proof {
            let ghost d = digits@;
            assert(!vstd::utf8::is_ascii_chars(d));
            let i = choose|i: int| !(0 <= i < d.len() ==> '\0' <= #[trigger] d[i] <= '\u{7f}');
            assert(!is_hex_digit(d[i]));
        }
        return Err(ColorParseError);
    }
    match hex_decode(digits) {
        None => Err(ColorParseError),
        Some(bytes) => {
            proof {
                lemma_hex_bytes_len(digits@);
            }
            Ok(Rgb { r: bytes[0], g: bytes[1], b: bytes[2] })
        },
    }
}

/// Parses both gradient endpoints of a color request. Either endpoint being
/// malformed rejects the whole request, before any render starts.
pub fn parse_gradient_endpoints(colors: &crate::data::ColorHex) -> (r: Result<
    (Rgb, Rgb),
    ColorParseError,
>)
    ensures
        r matches Ok(pair) ==> hex_color_spec(colors.hex_start@) == Some(pair.0)
            && hex_color_spec(colors.hex_end@) == Some(pair.1),
        r is Err <==> hex_color_spec(colors.hex_start@) is None || hex_color_spec(
            colors.hex_end@,
        ) is None,
{
    let start = match hex_to_color(colors.hex_start.as_str()) {
        Ok(c) => c,
        Err(e) => {
            return Err(e);
        },
    };
    let end = match hex_to_color(colors.hex_end.as_str()) {
        Ok(c) => c,
        Err(e) => {
            return Err(e);
        },
    };
    Ok((start, end))
}

/// The "overlay" blend of a luma byte over a base-color channel byte, on the
/// byte scale. With both bytes read as fractions of 256, it is the nearest
/// byte to 256 times `2*luma*top` when `luma < 1/2`, and to 256 times
/// `1 - 2*(1-luma)*(1-top)` otherwise, clamped to 255; ties round up.
pub open spec fn blend_overlay(luma: int, top: int) -> int {
    if luma < 128 {
        (2 * luma * top + 128) / 256
    } else {
        let lifted = (65536 + 128 - 2 * (256 - luma) * (256 - top)) / 256;
        if lifted > 255 {
            255
        } else {
            lifted
        }
    }
}

/// Blends one channel of the base color with a luma byte by the overlay
/// formula; the lookup-table path of the color mapper is built from this.
pub fn blend_channel_overlay(luma: u8, top: u8) -> (blended: u8)
    ensures
        blended == blend_overlay(luma as int, top as int),
{
    if luma < 128 {
        proof {
            assert(2 * luma * top <= 2 * 127 * 255) by (nonlinear_arith)
                requires
                    luma <= 127,
                    top <= 255,
            ;
        }
        let v: u32 = (2 * (luma as u32) * (top as u32) + 128) / 256;
        v as u8
    } else {
        proof {
            assert(2 * (256 - luma) * (256 - top) <= 2 * 128 * 256) by (nonlinear_arith)
                requires
                    128 <= luma <= 255,
                    top <= 255,
            ;
            assert(2 * (256 - luma) * (256 - top) >= 0) by (nonlinear_arith)
                requires
                    luma <= 255,
                    top <= 255,
            ;
        }
        let v: u32 = (65536 + 128 - 2 * (256 - luma as u32) * (256 - top as u32)) / 256;
        if v > 255 {
            255
        } else {
            v as u8
        }
    }
}

/// Blends a luma byte over each channel of the base color.
pub fn blend_with_color(luma: u8, color: &Rgb) -> (blended: Rgb)
    ensures
        blended.r == blend_overlay(luma as int, color.r as int),
        blended.g == blend_overlay(luma as int, color.g as int),
        blended.b == blend_overlay(luma as int, color.b as int),
{
    Rgb {
        r: blend_channel_overlay(luma, color.r),
        g: blend_channel_overlay(luma, color.g),
        b: blend_channel_overlay(luma, color.b),
    }
}

/// Builds the 256-entry lookup table mapping each luma byte to the base
/// color blended with it, so a render recomputes no blend per pixel.
pub fn create_color_lut(color: &Rgb) -> (lut: Vec<Rgb>)
    ensures
        lut@.len() == 256,
        forall|i: int|
            0 <= i < 256 ==> #[trigger] lut@[i] == (Rgb {
                r: blend_overlay(i, color.r as int) as u8,
                g: blend_overlay(i, color.g as int) as u8,
                b: blend_overlay(i, color.b as int) as u8,
            }),
{
    let mut lut: Vec<Rgb> = Vec::new();
    let mut luma: usize = 0;
    while luma < 256
        invariant
            luma <= 256,
            lut@.len() == luma,
            forall|i: int|
                0 <= i < luma ==> #[trigger] lut@[i] == (Rgb {
                    r: blend_overlay(i, color.r as int) as u8,
                    g: blend_overlay(i, color.g as int) as u8,
                    b: blend_overlay(i, color.b as int) as u8,
                }),
        decreases 256 - luma,
    {
        lut.push(blend_with_color(luma as u8, color));
        luma = luma + 1;
    }
    lut
}

} // verus!
