use soroscope_core::text::{decimal_text, parse_u64, same_text, split_text, strip_prefix};

#[test]
fn numbers_read_back() {
    for n in [0u64, 7, 10, 99, 100, 1_700_000_000, u64::MAX] {
        let text = decimal_text(n);
        assert_eq!(text, n.to_string());
        assert_eq!(parse_u64(&text), Some(n));
    }
}

#[test]
fn numbers_are_parsed_as_the_standard_library_does() {
    for text in ["", "+", "+5", "-5", "007", " 1", "1 ", "18446744073709551615",
        "18446744073709551616", "99999999999999999999999", "\u{0661}", "1_0"]
    {
        assert_eq!(parse_u64(text), text.parse::<u64>().ok(), "{text}");
    }
}

#[test]
fn splitting_keeps_empty_pieces() {
    assert_eq!(split_text("a,,b,", ','), vec!["a", "", "b", ""]);
    assert_eq!(split_text("", ','), vec![""]);
    assert_eq!(split_text("\u{e9}", ','), vec!["\u{e9}"]);
}

#[test]
fn prefixes_are_stripped_by_characters() {
    assert_eq!(strip_prefix("sha256=ab", "sha256="), Some("ab"));
    assert_eq!(strip_prefix("sha256", "sha256="), None);
    assert_eq!(strip_prefix("\u{e9}t\u{e9}", "\u{e9}"), Some("t\u{e9}"));
    assert_eq!(strip_prefix("x", ""), Some("x"));
    assert!(same_text("\u{e9}", "\u{e9}"));
    assert!(!same_text("a", "A"));
}
