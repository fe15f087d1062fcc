use omara_screensavers::trails::{
    dense_trail_level, extra_trail_length, extra_trail_length_from, fresh_trail_length, layer_trail_length,
    rain_charset, rain_trail_level, random_rotation, rotate_charset, trail_glyph, trail_length_from, Layer,
};

#[test]
fn charset_is_omara_and_symbols() {
    let s: String = rain_charset().into_iter().collect();
    assert_eq!(s, "OMARA:.*\"=+-><|/\\01");
}

#[test]
fn trail_glyph_cycles() {
    let chars = rain_charset();
    assert_eq!(trail_glyph(&chars, 0), 'O');
    assert_eq!(trail_glyph(&chars, 5), ':');
    assert_eq!(trail_glyph(&chars, 19), 'O');
    assert_eq!(trail_glyph(&chars, 20), 'M');
}

#[test]
fn dense_levels() {
    assert_eq!(dense_trail_level(0), 230);
    assert_eq!(dense_trail_level(1), 171);
    assert_eq!(dense_trail_level(16), 36);
    assert_eq!(dense_trail_level(17), 30);
    assert_eq!(dense_trail_level(20), 30);
    assert_eq!(dense_trail_level(21), 30);
    assert_eq!(dense_trail_level(26), 30);
    assert_eq!(dense_trail_level(u16::MAX), 30);
}

#[test]
fn rain_levels() {
    assert_eq!(rain_trail_level(0), 230);
    assert_eq!(rain_trail_level(1), 185);
    assert_eq!(rain_trail_level(19), 5);
    assert_eq!(rain_trail_level(20), 0);
    assert_eq!(rain_trail_level(30), 0);
}

#[test]
fn trails_only_fade() {
    for i in 0..40u16 {
        assert!(dense_trail_level(i + 1) <= dense_trail_level(i));
        assert!(dense_trail_level(i) <= dense_trail_level(0));
    }
    for i in 0..40u16 {
        assert!(rain_trail_level(i + 1) <= rain_trail_level(i));
        assert!(rain_trail_level(i) <= rain_trail_level(0));
    }
}

#[test]
fn rotation_matches_rotate_left() {
    let chars = rain_charset();
    for r in 0..=chars.len() {
        let mut expected = chars.clone();
        expected.rotate_left(r);
        assert_eq!(rotate_charset(&chars, r), expected);
    }
}

#[test]
fn rotation_round_trip_restores() {
    let chars = vec!['a', 'b', 'c', 'd'];
    assert_eq!(rotate_charset(&chars, 1), vec!['b', 'c', 'd', 'a']);
    for r in 0..=4 {
        let once = rotate_charset(&chars, r);
        assert_eq!(rotate_charset(&once, 4 - r), chars);
    }
}

#[test]
fn random_rotation_is_a_rotation() {
    let chars = rain_charset();
    let mut rng = rand::rng();
    for _ in 0..50 {
        let rotated = random_rotation(&chars, &mut rng);
        assert!((0..chars.len()).any(|r| rotate_charset(&chars, r) == rotated));
    }
}

#[test]
fn trail_lengths_from_samples() {
    assert_eq!(trail_length_from(0), 6);
    assert_eq!(trail_length_from(17), 23);
    assert_eq!(trail_length_from(18), 6);
    assert_eq!(trail_length_from(65535), 65535 % 18 + 6);
    assert_eq!(extra_trail_length_from(13), 18);
    assert_eq!(extra_trail_length_from(14), 5);
}

#[test]
fn random_trail_lengths_in_range() {
    let mut rng = rand::rng();
    for _ in 0..200 {
        assert!((6..=23).contains(&fresh_trail_length(&mut rng)));
        assert!((5..=18).contains(&extra_trail_length(&mut rng)));
        assert!((12..28).contains(&layer_trail_length(Layer::Primary, &mut rng)));
        assert!((7..18).contains(&layer_trail_length(Layer::Extra, &mut rng)));
        assert!((5..14).contains(&layer_trail_length(Layer::Deep, &mut rng)));
    }
}
