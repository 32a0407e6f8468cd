use horaires::text::{join, replace_char, same_text, text_at_most, trim, white_space};

#[test]
fn same_text_compares_characters() {
    assert!(same_text("café", "café"));
    assert!(!same_text("café", "cafe"));
    assert!(!same_text("ab", "abc"));
    assert!(same_text("", ""));
}

#[test]
fn trim_drops_outer_white_space() {
    assert_eq!(trim("  restaurant \t"), "restaurant");
    assert_eq!(trim("\u{3000}bar\u{a0}"), "bar");
    assert_eq!(trim("   "), "");
    assert_eq!(trim("a b"), "a b");
    for s in ["", " x ", "\n\ty z\r\n", "\u{2028}q\u{85}"] {
        assert_eq!(trim(s), s.trim());
    }
}

#[test]
fn white_space_matches_std() {
    for c in ['\t', '\n', ' ', '\u{85}', '\u{a0}', '\u{1680}', '\u{2000}', '\u{200a}', '\u{3000}', 'a', '_', '\u{200b}'] {
        assert_eq!(white_space(c), c.is_whitespace());
    }
}

#[test]
fn replace_char_replaces_every_occurrence() {
    assert_eq!(replace_char("fast_food_court", '_', "-"), "fast-food-court");
    assert_eq!(replace_char("cafe", '_', "-"), "cafe");
    assert_eq!(replace_char("__", '_', "--"), "----");
}

#[test]
fn join_puts_separator_between_parts() {
    assert_eq!(join(&vec!["open", "wifi"], "&"), "open&wifi");
    assert_eq!(join(&vec!["vegan"], "&"), "vegan");
    assert_eq!(join(&vec![], "&"), "");
}

#[test]
fn text_order_is_lexicographic() {
    assert!(text_at_most("Bar", "Café"));
    assert!(!text_at_most("Café", "Bar"));
    assert!(text_at_most("Bar", "Bar"));
    assert!(text_at_most("Bar", "Barre"));
    assert!(!text_at_most("b", "B"));
    for (a, b) in [("é", "z"), ("zz", "é"), ("", "a"), ("abc", "abd")] {
        assert_eq!(text_at_most(a, b), a <= b);
    }
}

#[test]
fn white_space_matches_std_on_every_character() {
    for c in (0..=0x10FFFFu32).filter_map(char::from_u32) {
        assert_eq!(white_space(c), c.is_whitespace(), "{:?}", c);
    }
}
