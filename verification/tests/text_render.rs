use eve_preview_manager::text_render::{compose_text, Glyph};

fn glyph(x_offset: i32, width: usize, height: usize, ymin: i32, bitmap: Vec<u8>) -> Glyph {
    Glyph { x_offset, width, height, ymin, bitmap }
}

#[test]
fn compose_places_glyphs_on_a_shared_baseline() {
    let glyphs = vec![
        glyph(0, 2, 2, 0, vec![255, 0, 0, 128]),
        glyph(1, 1, 1, -1, vec![255]),
    ];
    let r = compose_text(&glyphs, 3, 0xFF102030);
    assert_eq!(r.width, 3);
    assert_eq!(r.height, 3);
    let full = [0x30, 0x20, 0x10, 0xFF];
    let half = [24, 16, 8, 128];
    let none = [0, 0, 0, 0];
    let mut expected: Vec<u8> = Vec::new();
    for px in [full, none, none, none, half, none, none, full, none] {
        expected.extend_from_slice(&px);
    }
    assert_eq!(r.data, expected);
}

#[test]
fn compose_later_glyph_wins_only_where_it_covers() {
    let glyphs = vec![
        glyph(0, 2, 1, 0, vec![200, 100]),
        glyph(0, 2, 1, 0, vec![0, 255]),
    ];
    let r = compose_text(&glyphs, 2, 0xFFFFFFFF);
    assert_eq!(r.width, 2);
    assert_eq!(r.height, 1);
    assert_eq!(r.data, vec![200, 200, 200, 200, 255, 255, 255, 255]);
}

#[test]
fn compose_without_glyphs_or_width_is_empty() {
    let r = compose_text(&Vec::new(), 10, 0xFFFFFFFF);
    assert_eq!((r.width, r.height, r.data.len()), (0, 0, 0));
    let glyphs = vec![glyph(0, 1, 1, 0, vec![255])];
    let r = compose_text(&glyphs, 0, 0xFFFFFFFF);
    assert_eq!((r.width, r.height, r.data.len()), (0, 0, 0));
}
