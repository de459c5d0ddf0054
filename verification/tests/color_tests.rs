use opaline::{ColorParseError, OpalineColor};

#[test]
fn new_creates_color() {
    let c = OpalineColor::new(255, 128, 0);
    assert_eq!(c.r, 255);
    assert_eq!(c.g, 128);
    assert_eq!(c.b, 0);
}

#[test]
fn from_hex_valid() {
    let c = OpalineColor::from_hex("#e135ff").expect("valid hex");
    assert_eq!(c, OpalineColor::new(225, 53, 255));
}

#[test]
fn from_hex_lowercase() {
    let c = OpalineColor::from_hex("#80ffea").expect("valid hex");
    assert_eq!(c, OpalineColor::new(128, 255, 234));
}

#[test]
fn from_hex_black() {
    let c = OpalineColor::from_hex("#000000").expect("valid hex");
    assert_eq!(c, OpalineColor::new(0, 0, 0));
}

#[test]
fn from_hex_white() {
    let c = OpalineColor::from_hex("#ffffff").expect("valid hex");
    assert_eq!(c, OpalineColor::new(255, 255, 255));
}

#[test]
fn from_hex_uppercase_digits() {
    let c = OpalineColor::from_hex("#E135FF").expect("valid hex");
    assert_eq!(c, OpalineColor::new(225, 53, 255));
}

#[test]
fn from_hex_trims_whitespace() {
    let c = OpalineColor::from_hex("  #ff0000  ").expect("valid hex with whitespace");
    assert_eq!(c, OpalineColor::new(255, 0, 0));
}

#[test]
fn from_hex_rejects_short() {
    let err = OpalineColor::from_hex("#fff").expect_err("should fail");
    assert!(matches!(err, ColorParseError::InvalidLength(4)));
}

#[test]
fn from_hex_rejects_no_hash() {
    let err = OpalineColor::from_hex("ff0000").expect_err("should fail");
    assert!(matches!(err, ColorParseError::InvalidLength(_)));
}

#[test]
fn from_hex_rejects_invalid_chars() {
    let err = OpalineColor::from_hex("#gggggg").expect_err("should fail");
    assert!(matches!(err, ColorParseError::InvalidHex(_)));
}

#[test]
fn invalid_hex_error_carries_trimmed_input() {
    let err = OpalineColor::from_hex(" #gggggg ").expect_err("should fail");
    match err {
        ColorParseError::InvalidHex(s) => assert_eq!(s, "#gggggg"),
        other => panic!("unexpected error: {other:?}"),
    }
}

#[test]
fn to_hex_roundtrip() {
    let c = OpalineColor::new(225, 53, 255);
    assert_eq!(c.to_hex(), "#e135ff");
    assert_eq!(OpalineColor::from_hex(&c.to_hex()).expect("roundtrip"), c);
}

#[test]
fn to_hex_pads_low_channels() {
    assert_eq!(OpalineColor::new(1, 2, 3).to_hex(), "#010203");
    assert_eq!(OpalineColor::new(0, 0, 0).to_hex(), "#000000");
}

#[test]
fn roundtrip_many_colors() {
    let samples = [
        (0u8, 0u8, 0u8),
        (255, 255, 255),
        (128, 128, 128),
        (1, 2, 3),
        (80, 250, 123),
        (225, 53, 255),
        (30, 30, 40),
    ];
    for (r, g, b) in samples {
        let c = OpalineColor::new(r, g, b);
        assert_eq!(OpalineColor::from_hex(&c.to_hex()).expect("roundtrip"), c);
    }
}

#[test]
fn to_rgb_tuple() {
    let c = OpalineColor::new(10, 20, 30);
    assert_eq!(c.to_rgb_tuple(), (10, 20, 30));
}

#[test]
fn from_str_parses() {
    let c: OpalineColor = "#50fa7b".parse().expect("valid hex via FromStr");
    assert_eq!(c, OpalineColor::new(80, 250, 123));
}

#[test]
fn default_is_fallback() {
    assert_eq!(OpalineColor::default(), OpalineColor::fallback());
    assert_eq!(OpalineColor::default(), OpalineColor::new(128, 128, 128));
}

#[test]
fn lerp_at_zero() {
    let a = OpalineColor::new(0, 0, 0);
    let b = OpalineColor::new(255, 255, 255);
    assert_eq!(a.lerp(b, 0, 1), a);
}

#[test]
fn lerp_at_one() {
    let a = OpalineColor::new(0, 0, 0);
    let b = OpalineColor::new(255, 255, 255);
    assert_eq!(a.lerp(b, 1, 1), b);
}

#[test]
fn lerp_midpoint() {
    let a = OpalineColor::new(0, 0, 0);
    let b = OpalineColor::new(254, 254, 254);
    let mid = a.lerp(b, 1, 2);
    assert_eq!(mid, OpalineColor::new(127, 127, 127));
}

#[test]
fn lerp_midpoint_rounds_half_up() {
    let a = OpalineColor::new(0, 0, 0);
    let b = OpalineColor::new(255, 255, 255);
    // 127.5 rounds up
    assert_eq!(a.lerp(b, 1, 2), OpalineColor::new(128, 128, 128));
}

#[test]
fn lerp_same_color_fixed_point() {
    let a = OpalineColor::new(42, 200, 7);
    for num in [0i64, 1, 2, 3, 7] {
        assert_eq!(a.lerp(a, num, 7), a);
    }
}

#[test]
fn lerp_clamps_below_zero() {
    let a = OpalineColor::new(100, 100, 100);
    let b = OpalineColor::new(200, 200, 200);
    assert_eq!(a.lerp(b, -1, 1), a);
}

#[test]
fn lerp_clamps_above_one() {
    let a = OpalineColor::new(100, 100, 100);
    let b = OpalineColor::new(200, 200, 200);
    assert_eq!(a.lerp(b, 2, 1), b);
}

#[test]
fn lerp_exact_quarter() {
    let a = OpalineColor::new(0, 0, 0);
    let b = OpalineColor::new(100, 100, 100);
    // 25 exactly at one quarter
    assert_eq!(a.lerp(b, 1, 4), OpalineColor::new(25, 25, 25));
}

#[test]
fn from_packed_u32() {
    let c = OpalineColor::from(0xe135ffu32);
    assert_eq!(c, OpalineColor::new(225, 53, 255));
    // upper 8 bits are ignored
    let c2 = OpalineColor::from(0xff50fa7bu32);
    assert_eq!(c2, OpalineColor::new(80, 250, 123));
}
