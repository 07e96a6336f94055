use batch_renderer::color::Color;

fn rgba(c: Color) -> (u8, u8, u8, u8) {
    (c.r, c.g, c.b, c.a)
}

#[test]
fn from_hex_black_with_hash() {
    assert_eq!(rgba(Color::from_hex("#000000")), (0, 0, 0, 255));
}

#[test]
fn from_hex_white_without_hash() {
    assert_eq!(rgba(Color::from_hex("FFFFFF")), (255, 255, 255, 255));
}

#[test]
fn from_hex_mixed_channels() {
    let c = Color::from_hex("514B8E");
    assert_eq!(rgba(c), (0x51, 0x4B, 0x8E, 255));
    assert!((c.r as f32 / 255.0 - 0.3176).abs() < 1e-4);
    assert!((c.g as f32 / 255.0 - 0.2941).abs() < 1e-4);
    assert!((c.b as f32 / 255.0 - 0.5569).abs() < 1e-4);
}

#[test]
fn from_hex_lower_case_digits() {
    assert_eq!(rgba(Color::from_hex("#a3212c")), (0xA3, 0x21, 0x2C, 255));
}

#[test]
fn try_from_hex_accepts_valid() {
    assert_eq!(Color::try_from_hex("#00A67D").map(rgba), Some((0x00, 0xA6, 0x7D, 255)));
}

#[test]
fn try_from_hex_rejects_malformed() {
    assert!(Color::try_from_hex("").is_none());
    assert!(Color::try_from_hex("#").is_none());
    assert!(Color::try_from_hex("12345").is_none());
    assert!(Color::try_from_hex("1234567").is_none());
    assert!(Color::try_from_hex("#12345G").is_none());
    assert!(Color::try_from_hex("##123456").is_none());
    assert!(Color::try_from_hex("+12345").is_none());
    assert!(Color::try_from_hex("12345\u{e9}").is_none());
}
