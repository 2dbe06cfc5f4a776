use eve_preview_manager::color::{
    color32_to_hex, format_hex_color, hex_to_color32, parse_hex_color, Color32, HexColor, Opacity,
};

#[test]
fn test_hex_color_parsing() {
    // 8-digit format (AARRGGBB)
    assert_eq!(HexColor::parse("#7FFF0000"), Some(HexColor::from_argb32(0x7FFF0000)));
    assert_eq!(HexColor::parse("7FFF0000"), Some(HexColor::from_argb32(0x7FFF0000)));
    assert_eq!(HexColor::parse("FFFFFFFF"), Some(HexColor::from_argb32(0xFFFFFFFF)));

    // 6-digit format (RRGGBB) - should prepend FF for full opacity
    assert_eq!(HexColor::parse("#FF0000"), Some(HexColor::from_argb32(0xFFFF0000)));
    assert_eq!(HexColor::parse("FF0000"), Some(HexColor::from_argb32(0xFFFF0000)));
    assert_eq!(HexColor::parse("#5bfc37"), Some(HexColor::from_argb32(0xFF5BFC37)));
    assert_eq!(HexColor::parse("5bfc37"), Some(HexColor::from_argb32(0xFF5BFC37)));

    // Invalid
    assert_eq!(HexColor::parse("invalid"), None);
    assert_eq!(HexColor::parse(""), None);
}

#[test]
fn test_hex_color_to_x11() {
    let color = HexColor::from_argb32(0xFF_80_40_20);
    let x11 = color.to_x11_color();

    // 0xFF -> 0xFFFF, 0x80 -> 0x8080, 0x40 -> 0x4040, 0x20 -> 0x2020
    assert_eq!(x11.alpha, 0xFFFF);
    assert_eq!(x11.red, 0x8080);
    assert_eq!(x11.green, 0x4040);
    assert_eq!(x11.blue, 0x2020);
}

#[test]
fn test_opacity_percent() {
    let opacity = Opacity::from_percent(75);
    assert_eq!(opacity.percent(), 75);

    let opacity = Opacity::from_percent(150); // clamped
    assert_eq!(opacity.percent(), 100);
}

#[test]
fn test_opacity_to_argb32() {
    let opacity = Opacity::from_percent(100);
    assert_eq!(opacity.to_argb32(), 0xFF000000);

    let opacity = Opacity::from_percent(50);
    let argb = opacity.to_argb32();
    let alpha = (argb >> 24) & 0xFF;
    assert!((127..=128).contains(&alpha)); // ~50% of 255
}

#[test]
fn test_opacity_round_trip() {
    let original = Opacity::from_percent(75);
    let argb = original.to_argb32();
    let recovered = Opacity::from_argb32(argb);

    // Allow 1% difference due to rounding
    assert!((original.percent() as i16 - recovered.percent() as i16).abs() <= 1);
}

#[test]
fn opacity_round_trip_is_exact_for_every_percent() {
    for p in 0u8..=100 {
        let o = Opacity::from_percent(p);
        assert_eq!(Opacity::from_argb32(o.to_argb32()).percent(), p);
    }
}

#[test]
fn opacity_from_argb32_rounds_to_nearest() {
    assert_eq!(Opacity::from_argb32(0x80000000).percent(), 50);
    assert_eq!(Opacity::from_argb32(0x00FFFFFF).percent(), 0);
    assert_eq!(Opacity::from_argb32(0xFF000000).percent(), 100);
    assert_eq!(Opacity::from_argb32(0x01000000).percent(), 0);
    assert_eq!(Opacity::from_argb32(0x02000000).percent(), 1);
}

#[test]
fn hex_parse_accepts_plus_sign_and_rejects_bad_input() {
    assert_eq!(HexColor::parse("#+FF0000"), Some(HexColor::from_argb32(0xFFFF0000)));
    assert_eq!(HexColor::parse("#+"), None);
    assert_eq!(HexColor::parse("#"), None);
    assert_eq!(HexColor::parse("#1FFFFFFFF"), None);
    assert_eq!(HexColor::parse("#FF00GG"), None);
    assert_eq!(HexColor::parse("#00000000"), Some(HexColor::from_argb32(0x00000000)));
    assert_eq!(HexColor::parse("00FF0000"), Some(HexColor::from_argb32(0x00FF0000)));
    assert_eq!(HexColor::parse("#0000FF"), Some(HexColor::from_argb32(0xFF0000FF)));
    assert_eq!(HexColor::parse("#1").map(|c| c.argb32()), Some(0xFF000001));
}

#[test]
fn color32_hex_round_trip() {
    let c = Color32 { r: 0x12, g: 0xAB, b: 0x00, a: 0x7F };
    let s = color32_to_hex(c);
    assert_eq!(s, "#7F12AB00");
    assert_eq!(hex_to_color32(&s), Some(c));
    let opaque = Color32 { r: 255, g: 1, b: 2, a: 255 };
    assert_eq!(hex_to_color32(&color32_to_hex(opaque)), Some(opaque));
}

#[test]
fn transparent_color32_round_trip() {
    let c = Color32 { r: 1, g: 2, b: 3, a: 0 };
    assert_eq!(color32_to_hex(c), "#00010203");
    assert_eq!(hex_to_color32("#00010203"), Some(c));
    assert_eq!(hex_to_color32("nothex"), None);
}

#[test]
fn parse_hex_color_six_digits_is_opaque() {
    assert_eq!(parse_hex_color("#FF8000"), Ok(Color32 { r: 255, g: 128, b: 0, a: 255 }));
    assert_eq!(parse_hex_color("40ff00"), Ok(Color32 { r: 0x40, g: 0xFF, b: 0, a: 255 }));
    assert_eq!(parse_hex_color("##102030"), Ok(Color32 { r: 0x10, g: 0x20, b: 0x30, a: 255 }));
}

#[test]
fn parse_hex_color_eight_digits_carries_alpha() {
    assert_eq!(parse_hex_color("#7F112233"), Ok(Color32 { r: 0x11, g: 0x22, b: 0x33, a: 0x7F }));
    assert_eq!(parse_hex_color("#00000000"), Ok(Color32 { r: 0, g: 0, b: 0, a: 0 }));
}

#[test]
fn parse_hex_color_rejects_bad_text() {
    assert_eq!(parse_hex_color(""), Err(()));
    assert_eq!(parse_hex_color("#FFF"), Err(()));
    assert_eq!(parse_hex_color("#GG0000"), Err(()));
    assert_eq!(parse_hex_color("#FF00000"), Err(()));
    assert_eq!(parse_hex_color("#é12345"), Err(()));
}

#[test]
fn parse_hex_color_accepts_plus_sign_pairs() {
    // Each pair is read like `u8::from_str_radix`, which takes a leading '+'.
    assert_eq!(parse_hex_color("+F0000"), Ok(Color32 { r: 15, g: 0, b: 0, a: 255 }));
}

#[test]
fn format_hex_color_short_when_opaque() {
    assert_eq!(format_hex_color(Color32 { r: 0x40, g: 0xFF, b: 0, a: 255 }), "#40FF00");
    assert_eq!(format_hex_color(Color32 { r: 1, g: 2, b: 3, a: 0x80 }), "#80010203");
    assert_eq!(format_hex_color(Color32 { r: 0, g: 0, b: 0, a: 0 }), "#00000000");
}

#[test]
fn format_then_parse_round_trip() {
    for c in [
        Color32 { r: 0xAB, g: 0xCD, b: 0xEF, a: 255 },
        Color32 { r: 0xAB, g: 0xCD, b: 0xEF, a: 0 },
        Color32 { r: 9, g: 10, b: 250, a: 17 },
    ] {
        assert_eq!(parse_hex_color(&format_hex_color(c)), Ok(c));
    }
}
