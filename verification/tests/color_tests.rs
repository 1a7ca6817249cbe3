use fractal_core::blend_channel_overlay;
use fractal_core::blend_with_color;
use fractal_core::create_color_lut;
use fractal_core::hex_to_color;
use fractal_core::parse_gradient_endpoints;
use fractal_core::ColorHex;
use fractal_core::Rgb;

#[test]
fn parses_colors() {
    let input = "#ff0000".to_owned();
    let color = hex_to_color(&input).unwrap();
    assert_eq!(color.r, 255);
    assert_eq!(color.g, 0);
    assert_eq!(color.b, 0);
}

#[test]
fn utils_parses_colors() {
    let input = "#ff0000".to_owned();
    let color = hex_to_color(&input).unwrap();
    assert_eq!(color.r, 255);
    assert_eq!(color.g, 0);
    assert_eq!(color.b, 0);
}

#[test]
fn parses_uppercase_red() {
    let color = hex_to_color("#FF0000").unwrap();
    assert_eq!((color.r, color.g, color.b), (255, 0, 0));
}

#[test]
fn parses_mixed_digits() {
    let color = hex_to_color("#12aBcD").unwrap();
    assert_eq!((color.r, color.g, color.b), (0x12, 0xab, 0xcd));
}

#[test]
fn rejects_short_hex() {
    assert!(hex_to_color("#FF000").is_err());
}

#[test]
fn rejects_long_hex() {
    assert!(hex_to_color("#ff00000").is_err());
}

#[test]
fn rejects_non_hex_digit() {
    assert!(hex_to_color("#gg0000").is_err());
}

#[test]
fn rejects_empty_string() {
    assert!(hex_to_color("").is_err());
}

#[test]
fn rejects_multibyte_characters() {
    assert!(hex_to_color("#ff00é0").is_err());
}

#[test]
fn first_character_is_ignored() {
    let color = hex_to_color("xff0000").unwrap();
    assert_eq!(color.r, 255);
}

#[test]
fn parses_both_gradient_endpoints() {
    let endpoints = ColorHex { hex_start: "#000000".to_owned(), hex_end: "#ffffff".to_owned() };
    let start = hex_to_color(&endpoints.hex_start).unwrap();
    let end = hex_to_color(&endpoints.hex_end).unwrap();
    assert_eq!((start.r, start.g, start.b), (0, 0, 0));
    assert_eq!((end.r, end.g, end.b), (255, 255, 255));
}

#[test]
fn blends_dark_luma_toward_black() {
    assert_eq!(blend_channel_overlay(0, 200), 0);
    assert_eq!(blend_channel_overlay(64, 128), 64);
    assert_eq!(blend_channel_overlay(127, 255), 253);
}

#[test]
fn blends_bright_luma_toward_white() {
    assert_eq!(blend_channel_overlay(128, 255), 255);
    assert_eq!(blend_channel_overlay(255, 0), 254);
    assert_eq!(blend_channel_overlay(255, 255), 255);
    assert_eq!(blend_channel_overlay(192, 0), 128);
}

#[test]
fn blends_every_channel() {
    let base = Rgb { r: 255, g: 0, b: 128 };
    let blended = blend_with_color(100, &base);
    assert_eq!(blended.r, blend_channel_overlay(100, 255));
    assert_eq!(blended.g, blend_channel_overlay(100, 0));
    assert_eq!(blended.b, blend_channel_overlay(100, 128));
}

#[test]
fn lut_has_one_entry_per_luma_byte() {
    let base = Rgb { r: 255, g: 0, b: 0 };
    let lut = create_color_lut(&base);
    assert_eq!(lut.len(), 256);
    for (luma, entry) in lut.iter().enumerate() {
        let expected = blend_with_color(luma as u8, &base);
        assert_eq!(entry, &expected);
    }
}

#[test]
fn gradient_endpoints_parse_together() {
    let good = ColorHex { hex_start: "#102030".to_owned(), hex_end: "#a0b0c0".to_owned() };
    let (start, end) = parse_gradient_endpoints(&good).unwrap();
    assert_eq!((start.r, start.g, start.b), (0x10, 0x20, 0x30));
    assert_eq!((end.r, end.g, end.b), (0xa0, 0xb0, 0xc0));
}

#[test]
fn one_bad_endpoint_rejects_the_pair() {
    let bad = ColorHex { hex_start: "#102030".to_owned(), hex_end: "#a0b0c".to_owned() };
    assert!(parse_gradient_endpoints(&bad).is_err());
}
