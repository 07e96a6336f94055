use batch_renderer::font::{printable_ascii, FontAtlas, GlyphBitmap, GlyphPlacement};

fn solid(ch: char, width: usize, height: usize, value: u8) -> GlyphBitmap {
    GlyphBitmap { ch, width, height, offset_x: 0, offset_y: 0, advance: width as u32 + 1, coverage: vec![value; width * height] }
}

#[test]
fn atlas_packs_left_to_right() {
    let glyphs = vec![solid('a', 2, 2, 10), solid('b', 1, 2, 20)];
    let atlas = FontAtlas::new(&glyphs, 8, 3, 3, 1);
    assert_eq!(atlas.texture_id, 0);
    assert_eq!((atlas.atlas_width, atlas.atlas_height), (8, 3));
    assert_eq!(
        atlas.atlas_data,
        vec![
            10, 10, 0, 20, 0, 0, 0, 0,
            10, 10, 0, 20, 0, 0, 0, 0,
            0, 0, 0, 0, 0, 0, 0, 0,
        ]
    );
    assert_eq!(atlas.placements[1], GlyphPlacement { ch: 'b', x: 3, y: 0, width: 1, height: 2, offset_x: 0, offset_y: 0, advance: 2 });
}

#[test]
fn atlas_wraps_to_next_row() {
    let glyphs = vec![solid('a', 3, 1, 1), solid('b', 3, 1, 2)];
    let atlas = FontAtlas::new(&glyphs, 5, 4, 2, 1);
    assert_eq!(atlas.placements[0], GlyphPlacement { ch: 'a', x: 0, y: 0, width: 3, height: 1, offset_x: 0, offset_y: 0, advance: 4 });
    assert_eq!(atlas.placements[1], GlyphPlacement { ch: 'b', x: 0, y: 2, width: 3, height: 1, offset_x: 0, offset_y: 0, advance: 4 });
    assert_eq!(
        atlas.atlas_data,
        vec![
            1, 1, 1, 0, 0,
            0, 0, 0, 0, 0,
            2, 2, 2, 0, 0,
            0, 0, 0, 0, 0,
        ]
    );
}

#[test]
fn atlas_clips_pixels_outside() {
    let mut g = solid('q', 2, 2, 0);
    g.coverage = vec![1, 2, 3, 4];
    g.offset_x = -1;
    g.offset_y = 1;
    let atlas = FontAtlas::new(&vec![g], 3, 2, 5, 0);
    assert_eq!(atlas.atlas_data, vec![0, 0, 0, 2, 0, 0]);
}

#[test]
fn atlas_wide_glyph_stays_on_first_row() {
    let glyphs = vec![solid('w', 6, 1, 9)];
    let atlas = FontAtlas::new(&glyphs, 4, 1, 1, 0);
    assert_eq!(atlas.placements[0].x, 0);
    assert_eq!(atlas.placements[0].y, 0);
    assert_eq!(atlas.atlas_data, vec![9, 9, 9, 9]);
}

#[test]
fn atlas_later_glyph_wins_overlap() {
    let mut a = solid('a', 2, 1, 5);
    a.offset_x = 0;
    let mut b = solid('b', 2, 1, 7);
    b.offset_x = -3;
    let atlas = FontAtlas::new(&vec![a, b], 6, 1, 1, 1);
    assert_eq!(atlas.placements[1].x, 0);
    assert_eq!(atlas.placements[1].offset_x, -3);
    assert_eq!(atlas.atlas_data, vec![7, 7, 0, 0, 0, 0]);
}

#[test]
fn atlas_of_no_glyphs_is_blank() {
    let atlas = FontAtlas::new(&Vec::new(), 4, 2, 30, 5);
    assert_eq!(atlas.atlas_data, vec![0; 8]);
    assert!(atlas.placements.is_empty());
}

#[test]
fn atlas_wraps_when_offset_pixels_cross_edge() {
    let a = solid('a', 2, 1, 1);
    let mut b = solid('b', 2, 1, 2);
    b.offset_x = 2;
    // Pen 3 plus width 2 fits in 6, but the pixels start at 3 + 2 and would end at 7.
    let atlas = FontAtlas::new(&vec![a, b], 6, 3, 2, 1);
    assert_eq!(atlas.placements[1], GlyphPlacement { ch: 'b', x: 2, y: 2, width: 2, height: 1, offset_x: 2, offset_y: 0, advance: 3 });
    assert_eq!(
        atlas.atlas_data,
        vec![
            1, 1, 0, 0, 0, 0,
            0, 0, 0, 0, 0, 0,
            0, 0, 2, 2, 0, 0,
        ]
    );
}

#[test]
fn atlas_records_rectangle_with_offset() {
    let mut g = solid('g', 1, 2, 4);
    g.offset_x = 1;
    g.offset_y = 1;
    g.advance = 7;
    let atlas = FontAtlas::new(&vec![g], 4, 4, 5, 0);
    assert_eq!(atlas.placements[0], GlyphPlacement { ch: 'g', x: 1, y: 1, width: 1, height: 2, offset_x: 1, offset_y: 1, advance: 7 });
    assert_eq!(atlas.atlas_data[1 * 4 + 1], 4);
    assert_eq!(atlas.atlas_data[2 * 4 + 1], 4);
}

#[test]
fn printable_ascii_range() {
    let chars = printable_ascii();
    assert_eq!(chars.len(), 95);
    assert_eq!(chars[0], ' ');
    assert_eq!(chars[94], '~');
    assert!(chars.iter().enumerate().all(|(i, c)| *c as usize == 32 + i));
}
