use omara_screensavers::text::split_lines;
use omara_screensavers::wormhole::{
    zoom_glyph_in_line, ink_char_at, ink_chars, pick_zoom_glyph, random_star_symbol, star_symbol_at, star_symbols, zoom_room,
};

#[test]
fn star_symbol_set() {
    assert_eq!(star_symbols(), vec!['.', '*', 'o', 'O', '+', 'x']);
    let mut rng = rand::rng();
    for _ in 0..50 {
        assert!(star_symbols().contains(&random_star_symbol(&mut rng)));
    }
}

#[test]
fn ink_drops_spaces() {
    assert_eq!(ink_chars(&vec![' ', 'a', ' ', 'b', ' ']), vec!['a', 'b']);
    assert!(ink_chars(&vec![' ', ' ']).is_empty());
    assert!(ink_chars(&Vec::new()).is_empty());
}

#[test]
fn zoom_glyph_comes_from_logo() {
    let lines = split_lines("O M\n   \nA R A");
    let mut rng = rand::rng();
    let mut saw_none = false;
    for _ in 0..200 {
        match pick_zoom_glyph(&lines, 3, &mut rng) {
            Some(c) => assert!("OMAR".contains(c)),
            None => saw_none = true,
        }
    }
    assert!(saw_none);
    for _ in 0..50 {
        let c = pick_zoom_glyph(&lines, 1, &mut rng).unwrap();
        assert!(c == 'O' || c == 'M');
    }
}

#[test]
fn zoom_letter_limit() {
    assert!(zoom_room(15));
    assert!(!zoom_room(16));
}

#[test]
fn symbol_and_ink_by_number() {
    assert_eq!(star_symbol_at(0), '.');
    assert_eq!(star_symbol_at(5), 'x');
    assert_eq!(ink_char_at(&vec![' ', 'a', ' ', 'b'], 1), 'b');
}

#[test]
fn zoom_glyph_in_a_line() {
    let mut rng = rand::rng();
    assert_eq!(zoom_glyph_in_line(&vec![' ', ' '], &mut rng), None);
    assert_eq!(zoom_glyph_in_line(&Vec::new(), &mut rng), None);
    for _ in 0..50 {
        let c = zoom_glyph_in_line(&vec![' ', 'a', ' ', 'b'], &mut rng).unwrap();
        assert!(c == 'a' || c == 'b');
    }
}

#[test]
fn blank_first_line_still_sends_letters() {
    let lines = split_lines("\nOMARA");
    let mut rng = rand::rng();
    let mut letters = 0;
    for _ in 0..200 {
        if let Some(c) = pick_zoom_glyph(&lines, 2, &mut rng) {
            assert!("OMAR".contains(c));
            letters += 1;
        }
    }
    assert!(letters > 0);
}
