use mandelzoom::GradientError;
use mandelzoom::color::{hex_to_rgb, rgb_to_hex};

#[test]
fn parse_with_hash() {
    assert_eq!(hex_to_rgb("#1C448E"), Ok(vec![0x1C, 0x44, 0x8E]));
}

#[test]
fn parse_without_hash() {
    assert_eq!(hex_to_rgb("FFE381"), Ok(vec![0xFF, 0xE3, 0x81]));
}

#[test]
fn parse_lowercase() {
    assert_eq!(hex_to_rgb("cec288"), Ok(vec![0xCE, 0xC2, 0x88]));
}

#[test]
fn parse_mixed_case() {
    assert_eq!(hex_to_rgb("#dBfE87"), Ok(vec![0xDB, 0xFE, 0x87]));
}

#[test]
fn parse_extremes() {
    assert_eq!(hex_to_rgb("000000"), Ok(vec![0, 0, 0]));
    assert_eq!(hex_to_rgb("#FFFFFF"), Ok(vec![255, 255, 255]));
}

#[test]
fn reject_too_short() {
    assert_eq!(hex_to_rgb("12345"), Err(GradientError::InvalidColorFormat));
    assert_eq!(hex_to_rgb("#12345"), Err(GradientError::InvalidColorFormat));
    assert_eq!(hex_to_rgb(""), Err(GradientError::InvalidColorFormat));
    assert_eq!(hex_to_rgb("#"), Err(GradientError::InvalidColorFormat));
}

#[test]
fn reject_too_long() {
    assert_eq!(hex_to_rgb("1234567"), Err(GradientError::InvalidColorFormat));
    assert_eq!(hex_to_rgb("#1C448E0"), Err(GradientError::InvalidColorFormat));
}

#[test]
fn reject_non_hex_digits() {
    assert_eq!(hex_to_rgb("12345G"), Err(GradientError::InvalidColorFormat));
    assert_eq!(hex_to_rgb("#zzzzzz"), Err(GradientError::InvalidColorFormat));
    assert_eq!(hex_to_rgb("-12345"), Err(GradientError::InvalidColorFormat));
}

#[test]
fn reject_double_hash() {
    // only one leading `#` is stripped; the second makes the color invalid
    assert_eq!(hex_to_rgb("##AABBCC"), Err(GradientError::InvalidColorFormat));
}

#[test]
fn encode_zero_padded() {
    assert_eq!(rgb_to_hex(0, 0, 0), "000000");
    assert_eq!(rgb_to_hex(1, 2, 3), "010203");
    assert_eq!(rgb_to_hex(255, 255, 255), "FFFFFF");
}

#[test]
fn round_trip_uppercase_input() {
    let rgb = hex_to_rgb("#1C448E").unwrap();
    assert_eq!(rgb_to_hex(rgb[0], rgb[1], rgb[2]), "1C448E");
}

#[test]
fn round_trip_lowercase_input() {
    let rgb = hex_to_rgb("6f8695").unwrap();
    assert_eq!(rgb_to_hex(rgb[0], rgb[1], rgb[2]), "6F8695");
}
