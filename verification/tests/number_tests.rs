use zellij_datetime::number::{bounded_decimal, digits_only, is_digit_char, parse_flag, parse_integer};

#[test]
fn digits_are_zero_to_nine() {
    assert!(is_digit_char('0'));
    assert!(is_digit_char('9'));
    assert!(!is_digit_char('/'));
    assert!(!is_digit_char(':'));
    assert!(!is_digit_char('٣'));
}

#[test]
fn digits_only_looks_at_the_part() {
    let chars: Vec<char> = "-12.5".chars().collect();
    assert!(digits_only(&chars, 1, 3));
    assert!(!digits_only(&chars, 0, 3));
    assert!(!digits_only(&chars, 1, 5));
    assert!(digits_only(&chars, 2, 2));
}

#[test]
fn bounded_decimal_stops_at_the_limit() {
    let chars: Vec<char> = "0012345".chars().collect();
    assert_eq!(bounded_decimal(&chars, 0, 7, 12345), Some(12345));
    assert_eq!(bounded_decimal(&chars, 0, 7, 12344), None);
    assert_eq!(bounded_decimal(&chars, 2, 4, 100), Some(12));
    assert_eq!(bounded_decimal(&chars, 3, 3, 0), Some(0));
}

#[test]
fn parse_integer_reads_signed_decimals() {
    assert_eq!(parse_integer("0"), Some(0));
    assert_eq!(parse_integer("-0"), Some(0));
    assert_eq!(parse_integer("7"), Some(7));
    assert_eq!(parse_integer("+7"), Some(7));
    assert_eq!(parse_integer("-12"), Some(-12));
    assert_eq!(parse_integer("007"), Some(7));
    assert_eq!(parse_integer("2147483647"), Some(i32::MAX));
    assert_eq!(parse_integer("-2147483648"), Some(i32::MIN));
}

#[test]
fn parse_integer_refuses_the_rest() {
    assert_eq!(parse_integer(""), None);
    assert_eq!(parse_integer("+"), None);
    assert_eq!(parse_integer("-"), None);
    assert_eq!(parse_integer(" 1"), None);
    assert_eq!(parse_integer("1 "), None);
    assert_eq!(parse_integer("1.0"), None);
    assert_eq!(parse_integer("--1"), None);
    assert_eq!(parse_integer("1_000"), None);
    assert_eq!(parse_integer("2147483648"), None);
    assert_eq!(parse_integer("-2147483649"), None);
    assert_eq!(parse_integer("99999999999999999999999999"), None);
}

#[test]
fn parse_integer_agrees_with_std() {
    let samples = [
        "", "0", "-1", "+1", "12a", "a12", "0000000000000000000001", "2147483647", "2147483648",
        "-2147483648", "-2147483649", "+-1", "٣", "1e3", "0x10",
    ];
    for s in samples {
        assert_eq!(parse_integer(s), s.parse::<i32>().ok(), "{:?}", s);
    }
}

#[test]
fn parse_flag_reads_true_and_false() {
    assert_eq!(parse_flag("true"), Some(true));
    assert_eq!(parse_flag("false"), Some(false));
    assert_eq!(parse_flag("True"), None);
    assert_eq!(parse_flag("1"), None);
    assert_eq!(parse_flag(""), None);
    assert_eq!(parse_flag(" true"), None);
}
