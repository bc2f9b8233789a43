use bitgraph::text::{parse_seconds, parse_unsigned, FromText};
use bitgraph::time::Seconds;

fn micros(text: &str) -> Option<i64> {
    parse_seconds(text).map(|t| t.micros)
}

#[test]
fn unsigned_reads_plain_digits() {
    assert_eq!(parse_unsigned("0", u64::MAX), Some(0));
    assert_eq!(parse_unsigned("1", u64::MAX), Some(1));
    assert_eq!(parse_unsigned("114514", u64::MAX), Some(114514));
    assert_eq!(parse_unsigned("000123", u64::MAX), Some(123));
}

#[test]
fn unsigned_takes_a_plus_sign_and_no_other() {
    assert_eq!(parse_unsigned("+7", u64::MAX), Some(7));
    assert_eq!(parse_unsigned("-7", u64::MAX), None);
    assert_eq!(parse_unsigned("-0", u64::MAX), None);
    assert_eq!(parse_unsigned("++7", u64::MAX), None);
    assert_eq!(parse_unsigned("+", u64::MAX), None);
}

#[test]
fn unsigned_refuses_what_is_no_number() {
    for text in ["", " ", " 1", "1 ", "1_000", "0x10", "12a", "1.0", "1e3", "N/A", "١٢٣", "1\u{e9}"] {
        assert_eq!(parse_unsigned(text, u64::MAX), None, "{text:?}");
    }
}

#[test]
fn unsigned_keeps_to_its_limit() {
    assert_eq!(parse_unsigned("18446744073709551615", u64::MAX), Some(u64::MAX));
    assert_eq!(parse_unsigned("18446744073709551616", u64::MAX), None);
    assert_eq!(parse_unsigned("99999999999999999999999999", u64::MAX), None);
    assert_eq!(parse_unsigned("0000000000000000000000000018446744073709551615", u64::MAX), Some(u64::MAX));
    assert_eq!(parse_unsigned("255", 255), Some(255));
    assert_eq!(parse_unsigned("256", 255), None);
    assert_eq!(parse_unsigned("0", 0), Some(0));
    assert_eq!(parse_unsigned("1", 0), None);
}

#[test]
fn unsigned_agrees_with_the_standard_parse() {
    let samples = [
        "", "0", "+0", "-0", "1", "+1", "-1", "007", "4294967295", "4294967296", "18446744073709551615",
        "18446744073709551616", "1 ", " 1", "1_0", "+", "-", "+-1", "1+", "٣", "12345678901234567890123",
    ];
    for text in samples {
        assert_eq!(u64::from_text(text), text.parse::<u64>().ok(), "u64 {text:?}");
        assert_eq!(u32::from_text(text), text.parse::<u32>().ok(), "u32 {text:?}");
    }
}

#[test]
fn u32_keeps_to_its_range() {
    assert_eq!(u32::from_text("1"), Some(1));
    assert_eq!(u32::from_text("4294967295"), Some(u32::MAX));
    assert_eq!(u32::from_text("4294967296"), None);
}

#[test]
fn seconds_reads_what_the_probe_prints() {
    assert_eq!(micros("123.123"), Some(123_123_000));
    assert_eq!(micros("12.5"), Some(12_500_000));
    assert_eq!(micros("0.000000"), Some(0));
    assert_eq!(micros("0.000001"), Some(1));
    assert_eq!(micros("3600.040000"), Some(3_600_040_000));
    assert_eq!(micros("-0.023220"), Some(-23_220));
}

#[test]
fn seconds_takes_the_forms_of_a_decimal_number() {
    assert_eq!(micros("5"), Some(5_000_000));
    assert_eq!(micros("5."), Some(5_000_000));
    assert_eq!(micros(".5"), Some(500_000));
    assert_eq!(micros("+1.25"), Some(1_250_000));
    assert_eq!(micros("-1.25"), Some(-1_250_000));
    assert_eq!(micros("-0"), Some(0));
    assert_eq!(micros("007.5"), Some(7_500_000));
    assert_eq!(micros("1.123456"), Some(1_123_456));
    assert_eq!(micros("1.1234560"), Some(1_123_456));
    assert_eq!(micros("1.12345600000"), Some(1_123_456));
}

#[test]
fn seconds_refuses_what_is_no_decimal_number() {
    for text in ["", ".", "+", "-", "+.", "-.", "N/A", "1.2.3", "1,5", " 1", "1 ", "--1", "+-1", "1e3", "inf", "nan", "0x1", "1.5s", "١.٥"] {
        assert_eq!(micros(text), None, "{text:?}");
    }
}

#[test]
fn seconds_drops_what_is_less_than_a_microsecond() {
    assert_eq!(micros("0.0000001"), Some(0));
    assert_eq!(micros("0.0000009"), Some(0));
    assert_eq!(micros("1.1234567"), Some(1_123_456));
    assert_eq!(micros("1.1234569999"), Some(1_123_456));
    assert_eq!(micros("1.12345601"), Some(1_123_456));
    assert_eq!(micros("-1.1234569"), Some(-1_123_456));
    assert_eq!(micros("-0.0000009"), Some(0));
    assert_eq!(micros("9223372036854.7758079"), Some(i64::MAX));
    assert_eq!(micros("-9223372036854.7758089"), Some(i64::MIN));
    assert_eq!(micros("1.123456x"), None);
}

#[test]
fn seconds_keeps_to_the_range_of_its_microseconds() {
    assert_eq!(micros("9223372036854.775807"), Some(i64::MAX));
    assert_eq!(micros("9223372036854.775808"), None);
    assert_eq!(micros("-9223372036854.775808"), Some(i64::MIN));
    assert_eq!(micros("-9223372036854.775809"), None);
    assert_eq!(micros("9223372036855"), None);
    assert_eq!(micros("-9223372036855"), None);
    assert_eq!(micros("99999999999999999999999999999.5"), None);
    assert_eq!(micros("000000000000000000000000000001.5"), Some(1_500_000));
}

#[test]
fn seconds_agree_with_the_floating_point_parse() {
    for text in ["123.123", "12.5", "0.000001", "5", "5.", ".5", "-1.25", "+7.000000", "86400.999999"] {
        let exact = parse_seconds(text).unwrap().micros as f64 / 1e6;
        let float: f64 = text.parse().unwrap();
        assert!((exact - float).abs() < 1e-9, "{text:?}");
    }
}

#[test]
fn seconds_from_text_is_the_parser() {
    assert_eq!(Seconds::from_text("2.5"), Some(Seconds::from_micros(2_500_000)));
    assert_eq!(Seconds::from_text("x"), None);
    assert_eq!(Seconds::from_micros(42).as_micros(), 42);
}
