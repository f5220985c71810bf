use math_core::mathml_renderer::color::RGB;
use math_core::mathml_renderer::itoa::{append_u8_as_hex, digit_to_hex_ascii, fmt_u32, fmt_u8_as_hex};

#[test]
fn test_fmt_u32() {
    assert_eq!(fmt_u32(0), "0");
    assert_eq!(fmt_u32(1), "1");
    assert_eq!(fmt_u32(10), "10");
    assert_eq!(fmt_u32(1234567890), "1234567890");
    assert_eq!(fmt_u32(u32::MAX), "4294967295");
}

#[test]
fn test_fmt_u8_hex() {
    assert_eq!(fmt_u8_as_hex(0), "00");
    assert_eq!(fmt_u8_as_hex(1), "01");
    assert_eq!(fmt_u8_as_hex(10), "0A");
    assert_eq!(fmt_u8_as_hex(15), "0F");
    assert_eq!(fmt_u8_as_hex(16), "10");
    assert_eq!(fmt_u8_as_hex(255), "FF");
}

#[test]
fn test_append_u8_hex() {
    let mut buf = String::new();
    append_u8_as_hex(&mut buf, 0);
    assert_eq!(&buf, "00");
    buf.clear();
}

#[test]
fn append_u8_hex_keeps_prefix() {
    let mut buf = String::from("#");
    append_u8_as_hex(&mut buf, 0xAB);
    assert_eq!(&buf, "#AB");
}

#[test]
fn hex_digits() {
    assert_eq!(digit_to_hex_ascii(0), b'0');
    assert_eq!(digit_to_hex_ascii(9), b'9');
    assert_eq!(digit_to_hex_ascii(10), b'A');
    assert_eq!(digit_to_hex_ascii(15), b'F');
}

#[test]
fn decimal_round_trip() {
    for n in [0u32, 7, 42, 100, 65535, 99999, u32::MAX] {
        assert_eq!(fmt_u32(n).parse::<u32>().unwrap(), n);
    }
}

#[test]
fn hex_round_trip() {
    for b in 0..=255u8 {
        assert_eq!(u8::from_str_radix(&fmt_u8_as_hex(b), 16).unwrap(), b);
    }
}

#[test]
fn rgb_as_hex() {
    let mut out = String::from("color:");
    RGB::new(255, 0, 171).append_as_hex(&mut out);
    assert_eq!(out, "color:#FF00AB");
}
