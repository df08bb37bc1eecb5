use xcreen::text::{contains_text, decimal_text, is_blank, is_white_space, same_text};

#[test]
fn white_space_is_that_of_unicode() {
    for code in 0..=0x10ffffu32 {
        if let Some(c) = char::from_u32(code) {
            assert_eq!(is_white_space(c), c.is_whitespace(), "U+{code:04X}");
        }
    }
}

#[test]
fn blank_texts_are_those_that_trim_to_nothing() {
    for text in ["", " ", "\t\r\n", "\u{3000}\u{85}", " a ", "a", "\u{200b}", "\u{a0}x"] {
        assert_eq!(is_blank(text), text.trim().is_empty(), "{text:?}");
    }
}

#[test]
fn parts_of_a_text_are_found() {
    let cases = [
        ("", ""),
        ("abc", ""),
        ("abc", "abc"),
        ("abc", "bc"),
        ("abc", "ac"),
        ("ab", "abc"),
        ("aab", "ab"),
        ("grün blau", "ün b"),
    ];
    for (haystack, needle) in cases {
        assert_eq!(
            contains_text(haystack, needle),
            haystack.contains(needle),
            "{haystack:?} {needle:?}"
        );
    }
}

#[test]
fn numbers_are_written_in_decimal() {
    for n in [0, 7, 10, 31, 32, 100, 12345, -1, -10, -907, isize::MAX, isize::MIN] {
        assert_eq!(decimal_text(n), n.to_string());
    }
}

#[test]
fn texts_are_the_same_character_by_character() {
    assert!(same_text("warn", "warn"));
    assert!(!same_text("warn", "Warn"));
    assert!(!same_text("warn", "warn "));
}
