use sheetgen::text::{chars_of, i64_to_string, parse_i64, prepend, u64_to_string};

#[test]
fn chars_of_keeps_every_character_in_order() {
    assert_eq!(chars_of(""), Vec::<char>::new());
    assert_eq!(chars_of("a1é"), vec!['a', '1', 'é']);
}

#[test]
fn prepend_puts_the_text_in_front() {
    assert_eq!(prepend("-", "12".to_string()), "-12");
    assert_eq!(prepend("", "x".to_string()), "x");
}

#[test]
fn u64_to_string_writes_decimal_numerals() {
    assert_eq!(u64_to_string(0), "0");
    assert_eq!(u64_to_string(7), "7");
    assert_eq!(u64_to_string(10), "10");
    assert_eq!(u64_to_string(1234567890), "1234567890");
    assert_eq!(u64_to_string(u64::MAX), "18446744073709551615");
}

#[test]
fn i64_to_string_writes_the_sign_of_negative_numbers() {
    assert_eq!(i64_to_string(0), "0");
    assert_eq!(i64_to_string(42), "42");
    assert_eq!(i64_to_string(-42), "-42");
    assert_eq!(i64_to_string(i64::MAX), "9223372036854775807");
    assert_eq!(i64_to_string(i64::MIN), "-9223372036854775808");
}

#[test]
fn i64_to_string_agrees_with_the_standard_rendering() {
    for i in [-1000i64, -101, -100, -99, -10, -9, -1, 0, 1, 9, 10, 99, 100, 101, 1000, 65535] {
        assert_eq!(i64_to_string(i), i.to_string());
    }
}

#[test]
fn parse_i64_reads_plain_and_signed_literals() {
    assert_eq!(parse_i64("0"), Some(0));
    assert_eq!(parse_i64("17"), Some(17));
    assert_eq!(parse_i64("+17"), Some(17));
    assert_eq!(parse_i64("-17"), Some(-17));
    assert_eq!(parse_i64("-0"), Some(0));
    assert_eq!(parse_i64("007"), Some(7));
}

#[test]
fn parse_i64_reads_the_limits_and_refuses_what_lies_beyond() {
    assert_eq!(parse_i64("9223372036854775807"), Some(i64::MAX));
    assert_eq!(parse_i64("-9223372036854775808"), Some(i64::MIN));
    assert_eq!(parse_i64("9223372036854775808"), None);
    assert_eq!(parse_i64("-9223372036854775809"), None);
    assert_eq!(parse_i64("99999999999999999999999"), None);
    assert_eq!(parse_i64("0000000000000000000000000000012"), Some(12));
}

#[test]
fn parse_i64_refuses_what_is_no_integer_literal() {
    for s in ["", "+", "-", "1.5", " 1", "1 ", "1_000", "0x10", "abc", "1e3", "--1", "+-1", "١٢"] {
        assert_eq!(parse_i64(s), None);
    }
}

#[test]
fn parse_i64_agrees_with_the_standard_parser() {
    for s in ["", "+", "-", "12", "+12", "-12", "1.0", "12a", "a12", "007", "-007", "9223372036854775807",
        "9223372036854775808", "-9223372036854775808", "-9223372036854775809", " 5", "5 ", "٣"]
    {
        assert_eq!(parse_i64(s), s.parse::<i64>().ok());
    }
}
