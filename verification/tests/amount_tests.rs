use rust_decimal::Decimal;
use std::str::FromStr;
use wallet_tracker::amount::{parse_u64, pow10_u64, scaled_decimal};

#[test]
fn parse_u64_reads_plain_digits() {
    assert_eq!(parse_u64("12345"), Some(12345));
    assert_eq!(parse_u64("0"), Some(0));
    assert_eq!(parse_u64("007"), Some(7));
}

#[test]
fn parse_u64_accepts_one_plus_sign() {
    assert_eq!(parse_u64("+7"), Some(7));
    assert_eq!(parse_u64("++7"), None);
    assert_eq!(parse_u64("+"), None);
}

#[test]
fn parse_u64_refuses_stray_characters() {
    assert_eq!(parse_u64(""), None);
    assert_eq!(parse_u64("-1"), None);
    assert_eq!(parse_u64("-0"), None);
    assert_eq!(parse_u64(" 1"), None);
    assert_eq!(parse_u64("1 "), None);
    assert_eq!(parse_u64("1_000"), None);
    assert_eq!(parse_u64("12a"), None);
    assert_eq!(parse_u64("\u{ff11}"), None);
}

#[test]
fn parse_u64_bounds() {
    assert_eq!(parse_u64("18446744073709551615"), Some(u64::MAX));
    assert_eq!(parse_u64("18446744073709551616"), None);
    assert_eq!(parse_u64("99999999999999999999x"), None);
}

#[test]
fn parse_u64_agrees_with_std() {
    for s in ["", "0", "+0", "-0", "42", "+42", "4 2", "18446744073709551615", "18446744073709551616", "000000000000000000000001", "x"] {
        assert_eq!(parse_u64(s), s.parse::<u64>().ok(), "{s}");
    }
}

#[test]
fn parse_u64_reads_back_decimal_text() {
    for v in [0u64, 1, 9, 10, 99, 100, 123456789, u64::MAX - 1, u64::MAX] {
        assert_eq!(parse_u64(&v.to_string()), Some(v));
    }
}

#[test]
fn pow10_values() {
    assert_eq!(pow10_u64(0), 1);
    assert_eq!(pow10_u64(3), 1000);
    assert_eq!(pow10_u64(19), 10_000_000_000_000_000_000);
}

#[test]
fn scaled_decimal_divides_by_power_of_ten() {
    assert_eq!(scaled_decimal(1500, 3), Decimal::from_str("1.5").unwrap());
    assert_eq!(scaled_decimal(-25, 1), Decimal::from_str("-2.5").unwrap());
    assert_eq!(scaled_decimal(7, 0), Decimal::from(7));
    assert_eq!(scaled_decimal(1, 19), Decimal::from_str("0.0000000000000000001").unwrap());
    assert_eq!(
        scaled_decimal(u64::MAX as i128, 9),
        Decimal::from_str("18446744073.709551615").unwrap()
    );
}
