//! The decimal codec of the numeric store attribute.

use todo_api::decimal::{format_i64, parse_i64};

#[test]
fn parse_plain_digits() {
    assert_eq!(parse_i64("123"), Some(123));
    assert_eq!(parse_i64("0"), Some(0));
    assert_eq!(parse_i64("007"), Some(7));
}

#[test]
fn parse_signed() {
    assert_eq!(parse_i64("-5"), Some(-5));
    assert_eq!(parse_i64("+7"), Some(7));
    assert_eq!(parse_i64("-0"), Some(0));
}

#[test]
fn parse_rejects_malformed() {
    assert_eq!(parse_i64(""), None);
    assert_eq!(parse_i64("-"), None);
    assert_eq!(parse_i64("+"), None);
    assert_eq!(parse_i64("12a"), None);
    assert_eq!(parse_i64("1.5"), None);
    assert_eq!(parse_i64(" 1"), None);
    assert_eq!(parse_i64("--1"), None);
}

#[test]
fn parse_at_the_bounds() {
    assert_eq!(parse_i64("9223372036854775807"), Some(i64::MAX));
    assert_eq!(parse_i64("9223372036854775808"), None);
    assert_eq!(parse_i64("-9223372036854775808"), Some(i64::MIN));
    assert_eq!(parse_i64("-9223372036854775809"), None);
    assert_eq!(parse_i64("99999999999999999999999999"), None);
}

#[test]
fn format_exact_values() {
    assert_eq!(format_i64(0), "0");
    assert_eq!(format_i64(42), "42");
    assert_eq!(format_i64(-42), "-42");
    assert_eq!(format_i64(1708000000000), "1708000000000");
    assert_eq!(format_i64(i64::MAX), "9223372036854775807");
    assert_eq!(format_i64(i64::MIN), "-9223372036854775808");
}

#[test]
fn format_then_parse_round_trips() {
    for v in [0, 1, -1, 10, -10, 1708000000000, i64::MAX, i64::MIN] {
        assert_eq!(parse_i64(&format_i64(v)), Some(v));
    }
}
