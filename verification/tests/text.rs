use transpiler::text::{
    char_width, ends_with_quote, first_char, is_ascii_alphabetic, is_ascii_alphanumeric,
    is_ascii_digit, is_line_break, parse_decimal, same_text, split_first,
};

#[test]
fn character_classes() {
    assert!(is_line_break('\n'));
    assert!(is_line_break('\r'));
    assert!(!is_line_break(' '));
    for c in ['0', '5', '9'] {
        assert!(is_ascii_digit(c));
        assert!(is_ascii_alphanumeric(c));
        assert!(!is_ascii_alphabetic(c));
    }
    for c in ['a', 'z', 'A', 'Z', 'm'] {
        assert!(is_ascii_alphabetic(c));
        assert!(is_ascii_alphanumeric(c));
        assert!(!is_ascii_digit(c));
    }
    for c in ['/', ':', '@', '[', '`', '{', '_', '\u{e9}', '\u{661}'] {
        assert!(!is_ascii_alphanumeric(c));
        assert!(!is_ascii_alphabetic(c));
        assert!(!is_ascii_digit(c));
    }
}

#[test]
fn width_of_a_character_in_bytes() {
    for c in ['\0', 'a', '\u{7f}', '\u{80}', '\u{7ff}', '\u{800}', '\u{ffff}', '\u{10000}', '\u{10ffff}'] {
        assert_eq!(char_width(c), c.len_utf8());
    }
}

#[test]
fn first_character_and_rest() {
    assert_eq!(first_char(""), None);
    assert_eq!(first_char("abc"), Some('a'));
    assert_eq!(split_first(""), None);
    assert_eq!(split_first("abc"), Some(('a', "bc")));
    assert_eq!(split_first("\u{4e2d}x"), Some(('\u{4e2d}', "x")));
    assert_eq!(split_first("\u{1f600}"), Some(('\u{1f600}', "")));
}

#[test]
fn texts_compare_by_their_characters() {
    assert!(same_text("", ""));
    assert!(same_text("void", "void"));
    assert!(!same_text("void", "voix"));
    assert!(!same_text("void", "voi"));
    assert!(!same_text("", "a"));
    assert!(same_text("\u{e9}", "\u{e9}"));
}

#[test]
fn last_character_is_a_quote() {
    assert!(!ends_with_quote(""));
    assert!(ends_with_quote("\""));
    assert!(ends_with_quote("\"a\""));
    assert!(!ends_with_quote("\"a"));
    assert!(!ends_with_quote("\"\u{e9}"));
    assert!(!ends_with_quote("\"\u{a2}"));
}

#[test]
fn decimal_digits_to_a_number() {
    assert_eq!(parse_decimal("0"), Some(0));
    assert_eq!(parse_decimal("5"), Some(5));
    assert_eq!(parse_decimal("007"), Some(7));
    assert_eq!(parse_decimal("1234567890"), Some(1234567890));
    assert_eq!(parse_decimal("2147483647"), Some(i32::MAX));
    assert_eq!(parse_decimal("0000000002147483647"), Some(i32::MAX));
}

#[test]
fn number_too_large_or_no_number() {
    assert_eq!(parse_decimal("2147483648"), None);
    assert_eq!(parse_decimal("99999999999"), None);
    assert_eq!(parse_decimal(""), None);
    assert_eq!(parse_decimal("12a"), None);
    assert_eq!(parse_decimal("-1"), None);
    assert_eq!(parse_decimal("+1"), None);
    assert_eq!(parse_decimal("99999999999x"), None);
    assert_eq!(parse_decimal("\u{661}"), None);
}
