use yew_form::codec::{format_bool, format_i64, format_u64, parse_bool, parse_i64};

#[test]
fn integers_parse_as_sign_and_digits() {
    assert_eq!(parse_i64("0"), Some(0));
    assert_eq!(parse_i64("5"), Some(5));
    assert_eq!(parse_i64("+5"), Some(5));
    assert_eq!(parse_i64("-5"), Some(-5));
    assert_eq!(parse_i64("007"), Some(7));
    assert_eq!(parse_i64("-0"), Some(0));
    assert_eq!(parse_i64("1234567890"), Some(1234567890));
}

#[test]
fn integers_at_the_limits_parse() {
    assert_eq!(parse_i64("9223372036854775807"), Some(i64::MAX));
    assert_eq!(parse_i64("-9223372036854775808"), Some(i64::MIN));
    assert_eq!(parse_i64("9223372036854775808"), None);
    assert_eq!(parse_i64("-9223372036854775809"), None);
    assert_eq!(parse_i64("99999999999999999999999999999999999999999"), None);
}

#[test]
fn what_is_no_integer_is_refused() {
    assert_eq!(parse_i64(""), None);
    assert_eq!(parse_i64("-"), None);
    assert_eq!(parse_i64("+"), None);
    assert_eq!(parse_i64("abc"), None);
    assert_eq!(parse_i64("12a"), None);
    assert_eq!(parse_i64(" 12"), None);
    assert_eq!(parse_i64("12 "), None);
    assert_eq!(parse_i64("1.5"), None);
    assert_eq!(parse_i64("--1"), None);
    assert_eq!(parse_i64("+-1"), None);
    assert_eq!(parse_i64("١٢"), None);
}

#[test]
fn parse_agrees_with_the_standard_parser() {
    for text in ["0", "-0", "+0", "42", "-42", "+42", "0042", "", "-", "4 2", "9223372036854775808"] {
        assert_eq!(parse_i64(text), text.parse::<i64>().ok(), "{:?}", text);
    }
}

#[test]
fn integers_format_canonically() {
    assert_eq!(format_i64(0), "0");
    assert_eq!(format_i64(7), "7");
    assert_eq!(format_i64(-7), "-7");
    assert_eq!(format_i64(1050), "1050");
    assert_eq!(format_i64(i64::MAX), "9223372036854775807");
    assert_eq!(format_i64(i64::MIN), "-9223372036854775808");
    assert_eq!(format_u64(u64::MAX), "18446744073709551615");
    assert_eq!(format_u64(10), "10");
}

#[test]
fn formatted_integers_parse_back() {
    for value in [0, 1, -1, 9, 10, -10, 99, 100, 12345, -987654321, i64::MAX, i64::MIN] {
        assert_eq!(parse_i64(&format_i64(value)), Some(value));
    }
    assert_eq!(format_i64(parse_i64("+007").unwrap()), "7");
}

#[test]
fn booleans_are_two_words() {
    assert_eq!(parse_bool("true"), Some(true));
    assert_eq!(parse_bool("false"), Some(false));
    assert_eq!(parse_bool("True"), None);
    assert_eq!(parse_bool("1"), None);
    assert_eq!(parse_bool(""), None);
    assert_eq!(parse_bool("true "), None);
    assert_eq!(format_bool(true), "true");
    assert_eq!(format_bool(false), "false");
    assert_eq!(parse_bool(&format_bool(true)), Some(true));
    assert_eq!(parse_bool(&format_bool(false)), Some(false));
}
