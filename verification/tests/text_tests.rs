use cmux_win::text::{decimal_text, is_blank, is_white_space, join_strings};

#[test]
fn decimal_numerals() {
    assert_eq!(decimal_text(0), "0");
    assert_eq!(decimal_text(7), "7");
    assert_eq!(decimal_text(10), "10");
    assert_eq!(decimal_text(18446744073709551615), "18446744073709551615");
}

#[test]
fn join_with_separator() {
    let parts = vec!["a".to_string(), "bc".to_string(), "".to_string()];
    assert_eq!(join_strings(&parts, "|"), "a|bc|");
    assert_eq!(join_strings(&Vec::new(), "|"), "");
    assert_eq!(join_strings(&vec!["x".to_string()], ", "), "x");
}

#[test]
fn white_space_and_blank() {
    assert!(is_white_space(' '));
    assert!(is_white_space('\u{3000}'));
    assert!(!is_white_space('x'));
    assert!(!is_white_space('\u{200b}'));
    for c in ['\t', '\n', '\r', '\u{85}', '\u{a0}', '\u{2028}', '\u{205f}', 'a', '\u{200b}', '0'] {
        assert_eq!(is_white_space(c), c.is_whitespace());
    }
    assert!(is_blank(" \t "));
    assert!(is_blank(""));
    assert!(!is_blank(" a "));
}
