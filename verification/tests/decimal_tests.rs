use tg_anti_spam::decimal::{fmt_i64, fmt_u64, parse_i64};

#[test]
fn renders_zero() {
    assert_eq!(fmt_i64(0), "0");
    assert_eq!(fmt_u64(0), "0");
}

#[test]
fn renders_positive() {
    assert_eq!(fmt_i64(5), "5");
    assert_eq!(fmt_i64(42), "42");
    assert_eq!(fmt_u64(1234567890), "1234567890");
}

#[test]
fn renders_negative() {
    assert_eq!(fmt_i64(-5), "-5");
    assert_eq!(fmt_i64(-100), "-100");
}

#[test]
fn renders_extremes() {
    assert_eq!(fmt_i64(i64::MAX), "9223372036854775807");
    assert_eq!(fmt_i64(i64::MIN), "-9223372036854775808");
}

#[test]
fn parses_plain_numbers() {
    assert_eq!(parse_i64("42"), Some(42));
    assert_eq!(parse_i64("0"), Some(0));
    assert_eq!(parse_i64("+7"), Some(7));
    assert_eq!(parse_i64("-0"), Some(0));
    assert_eq!(parse_i64("-123"), Some(-123));
}

#[test]
fn rejects_non_numbers() {
    assert_eq!(parse_i64(""), None);
    assert_eq!(parse_i64("-"), None);
    assert_eq!(parse_i64("+"), None);
    assert_eq!(parse_i64("12a"), None);
    assert_eq!(parse_i64("a12"), None);
    assert_eq!(parse_i64(" 12"), None);
    assert_eq!(parse_i64("1 2"), None);
}

#[test]
fn parses_range_boundaries() {
    assert_eq!(parse_i64("9223372036854775807"), Some(i64::MAX));
    assert_eq!(parse_i64("9223372036854775808"), None);
    assert_eq!(parse_i64("-9223372036854775808"), Some(i64::MIN));
    assert_eq!(parse_i64("-9223372036854775809"), None);
    assert_eq!(parse_i64("99999999999999999999999999"), None);
}

#[test]
fn round_trips_through_text() {
    for n in [0i64, 1, -1, 99, -250, i64::MAX, i64::MIN] {
        assert_eq!(parse_i64(&fmt_i64(n)), Some(n));
    }
}
