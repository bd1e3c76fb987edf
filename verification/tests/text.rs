use codemcp::error::Error;
use codemcp::text::{decimal_text, first_word_of, is_before, pad, strip_prefix_char};

#[test]
fn numbers_are_written_in_decimal() {
    assert_eq!(decimal_text(0), "0");
    assert_eq!(decimal_text(10), "10");
    assert_eq!(decimal_text(u64::MAX), "18446744073709551615");
}

#[test]
fn padding_counts_characters() {
    assert_eq!(pad("ab", 4), "ab  ");
    assert_eq!(pad("é", 2), "é ");
    assert_eq!(pad("abc", 2), "abc");
    assert_eq!(pad("", 0), "");
}

#[test]
fn strings_are_ordered_by_code_point() {
    assert!(is_before("", "a"));
    assert!(is_before("a", "ab"));
    assert!(is_before("Z", "a"));
    assert!(is_before("z", "é"));
    assert!(!is_before("a", "a"));
    assert!(!is_before("b", "ab"));
}

#[test]
fn words_end_at_white_space() {
    assert_eq!(first_word_of("  one two"), "one");
    assert_eq!(first_word_of("one\u{2003}two"), "one");
    assert_eq!(first_word_of(" \t\n"), "");
    assert_eq!(strip_prefix_char("vx", 'v'), "x");
    assert_eq!(strip_prefix_char("x", 'v'), "x");
    assert_eq!(strip_prefix_char("", 'v'), "");
}

#[test]
fn errors_carry_their_message() {
    assert_eq!(Error::Config("a".to_string()).message(), "a");
    assert_eq!(Error::Upstream("b".to_string()).message(), "b");
    assert_eq!(Error::Other("c".to_string()).message(), "c");
}
