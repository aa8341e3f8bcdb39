use gearbot::text::{parse_number, push_decimal, starts_with};

fn decimal(n: u64) -> String {
    let mut out = String::new();
    push_decimal(&mut out, n);
    out
}

#[test]
fn decimal_numerals() {
    assert_eq!(decimal(0), "0");
    assert_eq!(decimal(7), "7");
    assert_eq!(decimal(10), "10");
    assert_eq!(decimal(1234567890), "1234567890");
    assert_eq!(decimal(u64::MAX), "18446744073709551615");
}

#[test]
fn decimal_is_written_at_the_end() {
    let mut out = String::from("<@");
    push_decimal(&mut out, 305);
    assert_eq!(out, "<@305");
}

#[test]
fn prefixes() {
    assert!(starts_with("hello", "he"));
    assert!(starts_with("hello", ""));
    assert!(starts_with("hello", "hello"));
    assert!(!starts_with("hello", "hello!"));
    assert!(!starts_with("hello", "el"));
    assert!(!starts_with("", "a"));
    assert!(starts_with("", ""));
    assert!(starts_with("ébène", "éb"));
    assert!(!starts_with("ébène", "eb"));
}

#[test]
fn numerals_are_parsed_between_two_places() {
    assert_eq!(parse_number("123", 0, 3), Some(123));
    assert_eq!(parse_number("a123b", 1, 4), Some(123));
    assert_eq!(parse_number("a123b", 1, 5), None);
    assert_eq!(parse_number("a123b", 0, 4), None);
    assert_eq!(parse_number("123", 1, 1), None);
    assert_eq!(parse_number("007", 0, 3), Some(7));
    assert_eq!(parse_number("+7", 0, 2), None);
    assert_eq!(parse_number("é42", 1, 3), Some(42));
}

#[test]
fn numerals_that_do_not_fit_are_refused() {
    assert_eq!(parse_number("18446744073709551615", 0, 20), Some(u64::MAX));
    assert_eq!(parse_number("18446744073709551616", 0, 20), None);
    assert_eq!(parse_number("99999999999999999999", 0, 20), None);
    assert_eq!(parse_number("184467440737095516150", 0, 21), None);
    assert_eq!(parse_number("000000000000000000000001", 0, 24), Some(1));
}
