use omara_screensavers::layout::{
    center_offset, centered_logo, centered_logo_fits, logo_fits_grid, place_logo, placement_fits_at,
    visible_glyphs, Glyph,
};
use omara_screensavers::text::{logo_size, split_lines};

fn g(x: u16, y: u16, ch: char) -> Glyph {
    Glyph { x, y, ch }
}

#[test]
fn center_offset_values() {
    assert_eq!(center_offset(80, 20), 30);
    assert_eq!(center_offset(81, 20), 30);
    assert_eq!(center_offset(10, 20), 0);
    assert_eq!(center_offset(20, 20), 0);
    assert_eq!(center_offset(0, 0), 0);
}

#[test]
fn place_logo_skips_spaces() {
    let lines = split_lines("a b\n c");
    assert_eq!(place_logo(&lines, 1, 2), vec![g(1, 2, 'a'), g(3, 2, 'b'), g(2, 3, 'c')]);
}

#[test]
fn placement_overflow_is_detected() {
    let lines = split_lines("ab");
    assert!(placement_fits_at(&lines, 65534, 0));
    assert!(!placement_fits_at(&lines, 65535, 0));
    let spaced = split_lines("a ");
    assert!(placement_fits_at(&spaced, 65535, 0));
    let tall = split_lines("\n\nx");
    assert!(!placement_fits_at(&tall, 0, 65534));
}

#[test]
fn centered_logo_is_centered() {
    let lines = split_lines("XX\nXX");
    assert!(centered_logo_fits(&lines, 10, 6));
    assert_eq!(
        centered_logo(&lines, 10, 6),
        vec![g(4, 2, 'X'), g(5, 2, 'X'), g(4, 3, 'X'), g(5, 3, 'X')]
    );
}

#[test]
fn centered_logo_that_fits_stays_on_screen() {
    let lines = split_lines(" /\\ \n/  \\\n\\__/");
    let size = logo_size(&lines);
    for (w, h) in [(4u16, 3u16), (5, 3), (80, 24), (7, 9)] {
        assert!(size.width <= w && size.height <= h);
        for glyph in centered_logo(&lines, w, h) {
            assert!(glyph.x < w && glyph.y < h);
        }
    }
}

#[test]
fn oversized_logo_starts_at_corner() {
    let lines = split_lines("ABCDEF");
    assert_eq!(centered_logo(&lines, 3, 1)[0], g(0, 0, 'A'));
    let shown = visible_glyphs(&centered_logo(&lines, 3, 1), 3, 1);
    assert_eq!(shown, vec![g(0, 0, 'A'), g(1, 0, 'B'), g(2, 0, 'C')]);
}

#[test]
fn visible_glyphs_keeps_order() {
    let glyphs = vec![g(0, 0, 'a'), g(5, 0, 'b'), g(1, 1, 'c'), g(1, 9, 'd')];
    assert_eq!(visible_glyphs(&glyphs, 3, 3), vec![g(0, 0, 'a'), g(1, 1, 'c')]);
}

#[test]
fn logo_fits_grid_limits() {
    assert!(logo_fits_grid(&split_lines("abc\ndef")));
    let long: Vec<char> = std::iter::repeat('x').take(65536).collect();
    assert!(!logo_fits_grid(&vec![long]));
    let edge: Vec<char> = std::iter::repeat('x').take(65535).collect();
    assert!(logo_fits_grid(&vec![edge]));
}
