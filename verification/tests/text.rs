use poly_last_new::text::{contains_chars, i64_to_decimal, parse_decimal_scaled, parse_usize, str_chars, u64_to_decimal};

#[test]
fn decimal_literals_in_millionths() {
    assert_eq!(parse_decimal_scaled("10.0", 6), Some(10_000_000));
    assert_eq!(parse_decimal_scaled("0.02", 6), Some(20_000));
    assert_eq!(parse_decimal_scaled("-0.5", 6), Some(-500_000));
    assert_eq!(parse_decimal_scaled("+3", 6), Some(3_000_000));
    assert_eq!(parse_decimal_scaled("5.", 6), Some(5_000_000));
    assert_eq!(parse_decimal_scaled(".5", 6), Some(500_000));
    assert_eq!(parse_decimal_scaled("0.1234567", 6), Some(123_456));
    assert_eq!(parse_decimal_scaled("83450.12345678", 8), Some(8_345_012_345_678));
}

#[test]
fn decimal_literals_refused() {
    assert_eq!(parse_decimal_scaled("", 6), None);
    assert_eq!(parse_decimal_scaled(".", 6), None);
    assert_eq!(parse_decimal_scaled("-", 6), None);
    assert_eq!(parse_decimal_scaled("1.2.3", 6), None);
    assert_eq!(parse_decimal_scaled("abc", 6), None);
    assert_eq!(parse_decimal_scaled("1e", 6), None);
    assert_eq!(parse_decimal_scaled("e5", 6), None);
    assert_eq!(parse_decimal_scaled("1e+", 6), None);
    assert_eq!(parse_decimal_scaled("1e1.5", 6), None);
    assert_eq!(parse_decimal_scaled("inf", 6), None);
    assert_eq!(parse_decimal_scaled("nan", 6), None);
    assert_eq!(parse_decimal_scaled(" 1", 6), None);
    assert_eq!(parse_decimal_scaled("99999999999999999999", 0), None);
    assert_eq!(parse_decimal_scaled("9223372036854775807", 0), Some(i64::MAX));
    assert_eq!(parse_decimal_scaled("-9223372036854775808", 0), Some(i64::MIN));
    assert_eq!(parse_decimal_scaled("9223372036854775808", 0), None);
}

#[test]
fn unsigned_literals() {
    assert_eq!(parse_usize("0"), Some(0));
    assert_eq!(parse_usize("+12"), Some(12));
    assert_eq!(parse_usize("3"), Some(3));
    assert_eq!(parse_usize("-1"), None);
    assert_eq!(parse_usize(""), None);
    assert_eq!(parse_usize("+"), None);
    assert_eq!(parse_usize("1.5"), None);
    assert_eq!(parse_usize("99999999999999999999999"), None);
}

#[test]
fn decimal_rendering() {
    assert_eq!(u64_to_decimal(0), "0");
    assert_eq!(u64_to_decimal(1_776_795_300), "1776795300");
    assert_eq!(u64_to_decimal(u64::MAX), "18446744073709551615");
    assert_eq!(i64_to_decimal(-42), "-42");
    assert_eq!(i64_to_decimal(i64::MIN), "-9223372036854775808");
}

#[test]
fn substring_search() {
    let hay = str_chars("Outcome Up");
    assert!(contains_chars(&hay, &str_chars("Up")));
    assert!(!contains_chars(&hay, &str_chars("up")));
    assert!(contains_chars(&hay, &str_chars("")));
    assert!(!contains_chars(&str_chars("u"), &str_chars("up")));
}

#[test]
fn exponent_forms_are_read() {
    assert_eq!(parse_decimal_scaled("1e1", 6), Some(10_000_000));
    assert_eq!(parse_decimal_scaled("1E1", 6), Some(10_000_000));
    assert_eq!(parse_decimal_scaled("2.5e+2", 6), Some(250_000_000));
    assert_eq!(parse_decimal_scaled("1e-1", 6), Some(100_000));
    assert_eq!(parse_decimal_scaled("-1.5e-3", 6), Some(-1_500));
    assert_eq!(parse_decimal_scaled("123456789e-10", 6), Some(12_345));
    assert_eq!(parse_decimal_scaled(".5e1", 6), Some(5_000_000));
    assert_eq!(parse_decimal_scaled("5.e0", 6), Some(5_000_000));
    assert_eq!(parse_decimal_scaled("1e-7", 6), Some(0));
    assert_eq!(parse_decimal_scaled("0.00000000000000000000001e30", 0), Some(10_000_000));
    assert_eq!(parse_decimal_scaled("1e13", 6), None);
    assert_eq!(parse_decimal_scaled("9.223372036854775807e12", 6), Some(i64::MAX));
    assert_eq!(parse_decimal_scaled("0e999999999999999999999999999999999", 6), Some(0));
    assert_eq!(parse_decimal_scaled("1e999999999999999999999999999999999", 6), None);
    assert_eq!(parse_decimal_scaled("1e-999999999999999999999999999999999", 6), Some(0));
}
