use collaborate::color::{color_u32_to_css, color_u32_to_hex, parse_hex_color};

#[test]
fn hex_color_six_digits() {
    assert_eq!(parse_hex_color("#ff8000"), Some(0xFF8000FF));
    assert_eq!(parse_hex_color("FF8000"), Some(0xFF8000FF));
    assert_eq!(parse_hex_color("##00aAfF"), Some(0x00AAFFFF));
}

#[test]
fn hex_color_three_digits_are_doubled() {
    assert_eq!(parse_hex_color("#f80"), Some(0xFF8800FF));
    assert_eq!(parse_hex_color("abc"), Some(0xAABBCCFF));
}

#[test]
fn hex_color_rejects_other_lengths_and_digits() {
    assert_eq!(parse_hex_color(""), None);
    assert_eq!(parse_hex_color("#"), None);
    assert_eq!(parse_hex_color("#ff80"), None);
    assert_eq!(parse_hex_color("#gg0000"), None);
    assert_eq!(parse_hex_color("#ff80001"), None);
}

#[test]
fn hex_color_rejects_a_sign_before_a_digit() {
    assert_eq!(parse_hex_color("+f0000"), None);
    assert_eq!(parse_hex_color("#+f+f+f"), None);
    assert_eq!(parse_hex_color("+ff"), None);
    assert_eq!(parse_hex_color("-10000"), None);
}

#[test]
fn color_hex_drops_alpha() {
    assert_eq!(color_u32_to_hex(0xFF8000FF), "#ff8000");
    assert_eq!(color_u32_to_hex(0x01020300), "#010203");
    assert_eq!(color_u32_to_hex(0xFFFFFFFF), format!("#{:02x}{:02x}{:02x}", 255, 255, 255));
}

#[test]
fn hex_round_trip() {
    for c in [0x000000FFu32, 0x123456FF, 0xABCDEFFF, 0xFFFFFFFF] {
        assert_eq!(parse_hex_color(&color_u32_to_hex(c)), Some(c));
    }
}

#[test]
fn css_matches_float_formatting() {
    for c in [0u32, 0xFF, 0x80, 0x7F, 0x01, 0xFE, 0x12345633, 0xFFFFFF00, 0xDEADBEEF] {
        let r = (c >> 24) & 0xFF;
        let g = (c >> 16) & 0xFF;
        let b = (c >> 8) & 0xFF;
        let a = c & 0xFF;
        let expected = format!("rgba({},{},{},{:.2})", r, g, b, a as f64 / 255.0);
        assert_eq!(color_u32_to_css(c), expected);
    }
}

#[test]
fn css_every_alpha_matches_float_formatting() {
    for a in 0u32..=255 {
        let c = 0x10203000 | a;
        let expected = format!("rgba(16,32,48,{:.2})", a as f64 / 255.0);
        assert_eq!(color_u32_to_css(c), expected);
    }
}
