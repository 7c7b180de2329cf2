use frpdesk::text::{blank, decimal_text, only_name_chars, trim, white_space};

#[test]
fn white_space_is_that_of_the_standard_library() {
    for n in 0..=0x10ffffu32 {
        if let Some(c) = char::from_u32(n) {
            assert_eq!(white_space(c), c.is_whitespace(), "U+{:04X}", n);
        }
    }
}

#[test]
fn trims_as_the_standard_library_does() {
    let samples = [
        "",
        " ",
        "\t\r\n",
        "a",
        " a",
        "a ",
        "  a b  ",
        "\u{3000}中 文\u{2003}",
        "\u{a0}x\u{85}",
        "\u{200b}x\u{200b}",
        "x\u{1680}",
    ];
    for s in samples {
        assert_eq!(trim(s), s.trim());
        assert_eq!(blank(s), s.trim().is_empty());
    }
}

#[test]
fn trimming_twice_is_trimming_once() {
    let once = trim(" \t a b \n");
    assert_eq!(once, "a b");
    assert_eq!(trim(&once), once);
}

#[test]
fn name_characters() {
    assert!(only_name_chars("azAZ09_-"));
    assert!(only_name_chars(""));
    for c in ['a', 'Z', '5', '_', '-', ' ', '.', '/', ':', '@', '[', '`', '{', 'é', '中', '０'] {
        let expected = c.is_ascii_alphanumeric() || c == '_' || c == '-';
        assert_eq!(only_name_chars(&c.to_string()), expected, "{}", c);
    }
    assert!(!only_name_chars("a b"));
    assert!(!only_name_chars("名称"));
}

#[test]
fn numbers_in_decimal() {
    for n in [0u128, 1, 9, 10, 11, 99, 100, 101, 4294967295, 1234567890, u128::MAX] {
        assert_eq!(decimal_text(n), n.to_string());
    }
}
