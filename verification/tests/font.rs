use eve_preview_manager::font::{font_display_name, parse_font_name, trim_str};

#[test]
fn test_parse_font_name() {
    assert_eq!(parse_font_name("Open Sans"), ("Open Sans", None));
    assert_eq!(parse_font_name("Open Sans Condensed Bold"), ("Open Sans", Some("Condensed Bold")));
    assert_eq!(parse_font_name("Fira Code Regular"), ("Fira Code", Some("Regular")));
    assert_eq!(parse_font_name("Roboto Condensed"), ("Roboto", Some("Condensed")));
    assert_eq!(parse_font_name("Noto Sans Bold Italic"), ("Noto Sans", Some("Bold Italic")));
}

#[test]
fn style_alone_or_glued_is_no_split() {
    assert_eq!(parse_font_name("Bold"), ("Bold", None));
    assert_eq!(parse_font_name("FooBold"), ("FooBold", None));
    assert_eq!(parse_font_name("   Bold"), ("   Bold", None));
    assert_eq!(parse_font_name("  Mono  Light"), ("Mono", Some("Light")));
}

#[test]
fn trim_removes_unicode_whitespace() {
    assert_eq!(trim_str("  a b \t"), "a b");
    assert_eq!(trim_str("\u{3000}x\u{a0}"), "x");
    assert_eq!(trim_str("   "), "");
}

#[test]
fn fontconfig_names() {
    assert_eq!(font_display_name("DejaVu Sans", Some("Regular")), "DejaVu Sans");
    assert_eq!(font_display_name("DejaVu Sans", Some("Bold")), "DejaVu Sans Bold");
    assert_eq!(font_display_name("DejaVu Sans", None), "DejaVu Sans");
}
