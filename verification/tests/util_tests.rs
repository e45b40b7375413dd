use sidetracker::util::{
    ensure_tailing_slash, find_and_parse_first_integer, verbosity, LogLevel,
};

#[test]
fn test_simple_number() {
    assert_eq!(find_and_parse_first_integer("123".to_string()), Some(123));
}

#[test]
fn test_number_with_text() {
    assert_eq!(
        find_and_parse_first_integer("abc123def".to_string()),
        Some(123)
    );
}

#[test]
fn test_text_before_number() {
    assert_eq!(
        find_and_parse_first_integer("abc456".to_string()),
        Some(456)
    );
}

#[test]
fn test_text_after_number() {
    assert_eq!(
        find_and_parse_first_integer("789xyz".to_string()),
        Some(789)
    );
}

#[test]
fn test_multiple_numbers() {
    assert_eq!(
        find_and_parse_first_integer("123 456".to_string()),
        Some(123)
    );
}

#[test]
fn test_empty_string() {
    assert_eq!(find_and_parse_first_integer("".to_string()), None);
}

#[test]
fn test_no_numbers() {
    assert_eq!(find_and_parse_first_integer("abc".to_string()), None);
}

#[test]
fn test_number_too_large() {
    // Testing a number larger than u32::MAX
    assert_eq!(
        find_and_parse_first_integer("9994294967296".to_string()),
        None
    );
}

#[test]
fn test_special_characters() {
    assert_eq!(
        find_and_parse_first_integer("!@#123$%^".to_string()),
        Some(123)
    );
}

#[test]
fn test_ensure_tailing_slash() {
    let s = "https://example.com";
    assert_eq!(ensure_tailing_slash(&s), "https://example.com/");

    let s = "https://example.com/";
    assert_eq!(ensure_tailing_slash(&s), "https://example.com/");
}

#[test]
fn test_largest_number_that_fits() {
    assert_eq!(
        find_and_parse_first_integer("x4294967295y".to_string()),
        Some(u32::MAX)
    );
    assert_eq!(
        find_and_parse_first_integer("x4294967296y".to_string()),
        None
    );
}

#[test]
fn test_leading_zeros_are_read() {
    assert_eq!(
        find_and_parse_first_integer("n=000000000000042;".to_string()),
        Some(42)
    );
    assert_eq!(find_and_parse_first_integer("0".to_string()), Some(0));
}

#[test]
fn test_ensure_tailing_slash_on_empty() {
    assert_eq!(ensure_tailing_slash(""), "/");
}

#[test]
fn test_verbosity() {
    assert_eq!(verbosity(true, 0), Some(LogLevel::Off));
    assert_eq!(verbosity(true, 5), Some(LogLevel::Off));
    assert_eq!(verbosity(false, 0), None);
    assert_eq!(verbosity(false, 1), Some(LogLevel::Error));
    assert_eq!(verbosity(false, 2), Some(LogLevel::Warn));
    assert_eq!(verbosity(false, 3), Some(LogLevel::Info));
    assert_eq!(verbosity(false, 4), Some(LogLevel::Debug));
    assert_eq!(verbosity(false, 5), Some(LogLevel::Trace));
    assert_eq!(verbosity(false, 255), Some(LogLevel::Trace));
}
