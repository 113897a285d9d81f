use devin_sessions::text::{
    is_blank, is_white_space, same_text, signed_decimal, trim, unsigned_decimal, until_colon,
};

#[test]
fn white_space_is_the_unicode_property() {
    for code in 0..=0x10ffffu32 {
        if let Some(c) = char::from_u32(code) {
            assert_eq!(is_white_space(c), c.is_whitespace(), "U+{code:04X}");
        }
    }
}

#[test]
fn trim_takes_white_space_off_both_ends() {
    assert_eq!(trim("  a b\u{3000}\n"), "a b");
}

#[test]
fn blank_texts_are_trimmed_to_nothing() {
    for blank in ["", " ", "\t\r\n", "\u{85}\u{a0}\u{2028}"] {
        assert!(is_blank(blank));
        assert_eq!(trim(blank), "");
    }
    assert!(!is_blank(" x "));
    assert_eq!(trim("\u{200b}"), "\u{200b}");
}

#[test]
fn a_text_ends_at_its_first_colon() {
    assert_eq!(until_colon("a:b:c"), "a");
    assert_eq!(until_colon("ä\u{1f980}:x"), "ä\u{1f980}");
    assert_eq!(until_colon("abc"), "abc");
    assert_eq!(until_colon(":"), "");
    assert_eq!(until_colon(""), "");
}

#[test]
fn texts_are_the_same_character_by_character() {
    assert!(same_text("", ""));
    assert!(same_text("ab", "ab"));
    assert!(!same_text("ab", "a"));
    assert!(!same_text("ab", "ac"));
}

#[test]
fn numbers_are_written_in_decimal() {
    assert_eq!(unsigned_decimal(0), "0");
    assert_eq!(unsigned_decimal(u64::MAX), u64::MAX.to_string());
    assert_eq!(signed_decimal(-1), "-1");
    assert_eq!(signed_decimal(i64::MIN), i64::MIN.to_string());
    assert_eq!(signed_decimal(1_000), "1000");
}
