use omara_screensavers::text::{blank, load_branding, logo_size, split_lines, white_space, LogoSize};

fn lines_of(text: &str) -> Vec<String> {
    split_lines(text).iter().map(|l| l.iter().collect()).collect()
}

#[test]
fn split_lines_follows_str_lines() {
    let text = "foo\r\nbar\n\nbaz\r";
    assert_eq!(lines_of(text), vec!["foo", "bar", "", "baz\r"]);
    let std_lines: Vec<String> = text.lines().map(|l| l.to_string()).collect();
    assert_eq!(lines_of(text), std_lines);
}

#[test]
fn split_lines_edge_cases() {
    assert!(lines_of("").is_empty());
    assert_eq!(lines_of("\n"), vec![""]);
    assert_eq!(lines_of("a\n"), vec!["a"]);
    assert_eq!(lines_of("a\n\n"), vec!["a", ""]);
    assert_eq!(lines_of("\r\n\r\n"), vec!["", ""]);
    assert_eq!(lines_of("x\ry"), vec!["x\ry"]);
}

#[test]
fn lines_never_hold_a_line_feed() {
    for text in ["a\nb\nc", "\n\n\n", "ab\r\ncd\r", "no newline at all"] {
        for line in split_lines(text) {
            assert!(!line.contains(&'\n'));
        }
    }
}

#[test]
fn final_line_feed_changes_nothing() {
    for text in ["abc", "a\nb", "x\r\ny", "  "] {
        let with_feed = format!("{}\n", text);
        assert_eq!(lines_of(text), lines_of(&with_feed));
    }
}

#[test]
fn white_space_is_the_unicode_set() {
    for c in ['\t', '\n', '\u{b}', '\u{c}', '\r', ' ', '\u{85}', '\u{a0}', '\u{1680}', '\u{2000}', '\u{200a}', '\u{2028}', '\u{2029}', '\u{202f}', '\u{205f}', '\u{3000}'] {
        assert!(white_space(c), "{:?}", c);
        assert_eq!(white_space(c), c.is_whitespace());
    }
    for c in ['a', '0', '\u{200b}', '\u{8}', '\u{e}', '\u{2026}'] {
        assert!(!white_space(c), "{:?}", c);
        assert_eq!(white_space(c), c.is_whitespace());
    }
}

#[test]
fn blank_matches_trim() {
    for text in ["", "   ", " \t\r\n", "\u{3000}\u{a0}", " a ", "x", "\n\nOMARA\n"] {
        assert_eq!(blank(text), text.trim().is_empty(), "{:?}", text);
    }
}

#[test]
fn branding_prefers_user_art() {
    assert_eq!(load_branding(Some("MY ART\n".to_string()), "DEFAULT"), "MY ART\n");
}

#[test]
fn branding_falls_back_on_blank_or_missing() {
    assert_eq!(load_branding(Some("  \n\t".to_string()), "DEFAULT"), "DEFAULT");
    assert_eq!(load_branding(Some(String::new()), "DEFAULT"), "DEFAULT");
    assert_eq!(load_branding(None, "DEFAULT"), "DEFAULT");
}

#[test]
fn logo_size_measures_lines() {
    let lines = split_lines("ab\nabcd\n\u{2588}\u{2588}");
    assert_eq!(logo_size(&lines), LogoSize { width: 4, height: 3 });
}

#[test]
fn logo_size_of_no_lines_is_fallback_width() {
    assert_eq!(logo_size(&Vec::new()), LogoSize { width: 56, height: 0 });
}

#[test]
fn logo_size_cuts_to_sixteen_bits() {
    let long: Vec<char> = std::iter::repeat('x').take(65536 + 3).collect();
    assert_eq!(logo_size(&vec![long]), LogoSize { width: 3, height: 1 });
}
