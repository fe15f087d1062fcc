use omara_screensavers::bounce::{
    bounce_palette, flare_cells, flare_stars, next_color_index, sparkle_color, star_base_color, star_glyph,
    FlareCell, STAR_COUNT,
};

#[test]
fn palette_values() {
    assert_eq!(
        bounce_palette(),
        vec![(180, 0, 255), (0, 200, 255), (255, 200, 0), (0, 255, 150), (255, 100, 180)]
    );
}

#[test]
fn color_cycles_on_hits_only() {
    assert_eq!(next_color_index(0, true, 5), 1);
    assert_eq!(next_color_index(4, true, 5), 0);
    assert_eq!(next_color_index(2, false, 5), 2);
    let mut idx = 0;
    for frame in 0..100 {
        idx = next_color_index(idx, frame % 3 == 0, 5);
        assert!(idx < 5);
    }
}

#[test]
fn starfield_glyphs_and_colors() {
    assert_eq!(STAR_COUNT, 160);
    assert_eq!(star_glyph(0), '\u{2726}');
    assert_eq!(star_glyph(7), '\u{2022}');
    assert_eq!(star_glyph(119), '\u{2726}');
    assert_eq!(star_glyph(1), '.');
    assert_eq!(star_base_color(0), (200, 200, 225));
    assert_eq!(star_base_color(4), (140, 140, 165));
    assert_eq!(star_base_color(1), (80, 80, 105));
    assert_eq!(star_base_color(36), (200, 200, 225));
}

#[test]
fn sparkle_tints() {
    assert_eq!(sparkle_color((80, 80, 105), 0), (80, 80, 105));
    assert_eq!(sparkle_color((80, 80, 105), 70), (135, 107, 123));
    assert_eq!(sparkle_color((80, 80, 105), 30), (110, 95, 115));
    // a negative sparkle wraps round to a large 8-bit value, as `as u8` does
    assert_eq!(sparkle_color((80, 80, 105), -10), (255, 203, 187));
    assert_eq!(sparkle_color((200, 200, 225), -70), (255, 255, 255));
}

#[test]
fn flare_stars_are_fixed() {
    assert_eq!(flare_stars(), vec![7, 29, 61]);
}

#[test]
fn flare_in_the_open() {
    let cells = flare_cells(10, 10, 80, 24);
    assert_eq!(cells.len(), 16);
    assert_eq!(cells[0], FlareCell { x: 11, y: 10, ch: '\u{2500}', color: (68, 68, 98) });
    assert_eq!(cells[1], FlareCell { x: 9, y: 10, ch: '\u{2500}', color: (68, 68, 98) });
    assert_eq!(cells[9], FlareCell { x: 5, y: 10, ch: '\u{2500}', color: (20, 20, 50) });
    assert_eq!(cells[10], FlareCell { x: 10, y: 11, ch: '\u{2502}', color: (55, 55, 75) });
    assert_eq!(cells[15], FlareCell { x: 10, y: 7, ch: '\u{2502}', color: (25, 25, 45) });
}

#[test]
fn flare_in_a_corner() {
    let cells = flare_cells(0, 0, 3, 2);
    assert_eq!(
        cells,
        vec![
            FlareCell { x: 1, y: 0, ch: '\u{2500}', color: (68, 68, 98) },
            FlareCell { x: 2, y: 0, ch: '\u{2500}', color: (56, 56, 86) },
            FlareCell { x: 0, y: 1, ch: '\u{2502}', color: (55, 55, 75) },
        ]
    );
}
