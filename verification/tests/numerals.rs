use rtl433_metrics::measure::Decimal;
use rtl433_metrics::numeral::{parse_decimal, parse_u32, push_digits, push_tenths};

fn parts(text: &str) -> Option<(i64, u8)> {
    parse_decimal(text).map(|d| (d.units(), d.places()))
}

fn digits(n: u128) -> String {
    let mut out = String::new();
    push_digits(&mut out, n);
    out
}

fn tenths(t: i128) -> String {
    let mut out = String::new();
    push_tenths(&mut out, t);
    out
}

#[test]
fn decimal_with_fraction() {
    assert_eq!(parts("20.5"), Some((205, 1)));
    assert_eq!(parts("20.0"), Some((200, 1)));
    assert_eq!(parts("0.001"), Some((1, 3)));
    assert_eq!(parts("21.333"), Some((21333, 3)));
}

#[test]
fn decimal_without_fraction() {
    assert_eq!(parts("0"), Some((0, 0)));
    assert_eq!(parts("45"), Some((45, 0)));
    assert_eq!(parts("007"), Some((7, 0)));
}

#[test]
fn decimal_with_sign() {
    assert_eq!(parts("-12.5"), Some((-125, 1)));
    assert_eq!(parts("-0"), Some((0, 0)));
    assert_eq!(parts("-0.0"), Some((0, 1)));
    assert_eq!(parts("+1"), None);
    assert_eq!(parts("--1"), None);
    assert_eq!(parts("-"), None);
}

#[test]
fn decimal_with_exponent() {
    assert_eq!(parts("1.25e+01"), Some((125, 1)));
    assert_eq!(parts("1.25e1"), Some((125, 1)));
    assert_eq!(parts("1.25E2"), Some((125, 0)));
    assert_eq!(parts("1.25e3"), Some((1250, 0)));
    assert_eq!(parts("5e-1"), Some((5, 1)));
    assert_eq!(parts("1e-07"), Some((1, 7)));
    assert_eq!(parts("1e2"), Some((100, 0)));
    assert_eq!(parts("1e+2"), Some((100, 0)));
    assert_eq!(parts("0e0"), Some((0, 0)));
}

#[test]
fn decimal_needs_digits_in_each_part() {
    assert_eq!(parts(""), None);
    assert_eq!(parts("."), None);
    assert_eq!(parts(".5"), None);
    assert_eq!(parts("1."), None);
    assert_eq!(parts("1.e2"), None);
    assert_eq!(parts("1e"), None);
    assert_eq!(parts("1e+"), None);
    assert_eq!(parts("1e-"), None);
    assert_eq!(parts("e5"), None);
}

#[test]
fn decimal_takes_the_whole_text() {
    assert_eq!(parts(" 1"), None);
    assert_eq!(parts("1 "), None);
    assert_eq!(parts("1.5x"), None);
    assert_eq!(parts("1.5.5"), None);
    assert_eq!(parts("1e5e5"), None);
    assert_eq!(parts("1,5"), None);
    assert_eq!(parts("0x10"), None);
    assert_eq!(parts("NaN"), None);
    assert_eq!(parts("inf"), None);
}

#[test]
fn decimal_rejects_digits_outside_ascii() {
    assert_eq!(parts("\u{ff11}\u{ff12}"), None);
    assert_eq!(parts("1\u{0663}"), None);
    assert_eq!(parts("2\u{00b0}"), None);
}

#[test]
fn decimal_units_fit_in_63_bits() {
    assert_eq!(parts("9223372036854775807"), Some((i64::MAX, 0)));
    assert_eq!(parts("-9223372036854775807"), Some((-i64::MAX, 0)));
    assert_eq!(parts("9223372036854775808"), None);
    assert_eq!(parts("-9223372036854775808"), None);
    assert_eq!(parts("92233720368547758.07"), Some((i64::MAX, 2)));
    assert_eq!(parts("9e18"), Some((9_000_000_000_000_000_000, 0)));
    assert_eq!(parts("10e18"), None);
    assert_eq!(parts("1e18"), Some((1_000_000_000_000_000_000, 0)));
    assert_eq!(parts("123456789012345678901234567890123456789012345678901234567890"), None);
}

#[test]
fn decimal_places_are_limited() {
    assert_eq!(parts("0.000000000000000001"), Some((1, 18)));
    assert_eq!(parts("1e-18"), Some((1, 18)));
    assert_eq!(parts("0.0000000000000000001"), None);
    assert_eq!(parts("1e-19"), None);
    assert_eq!(parts("1.5e-18"), None);
    assert_eq!(parts("0e-19"), None);
}

#[test]
fn decimal_exponent_is_limited() {
    assert_eq!(parts("0e18"), Some((0, 0)));
    assert_eq!(parts("0e19"), None);
    assert_eq!(parts("0.0e19"), Some((0, 0)));
    assert_eq!(parts("1e99999999999999999999999999999999999999999999"), None);
    assert_eq!(parts("1e-99999999999999999999999999999999999999999999"), None);
    assert_eq!(parts("0e99999999999999999999999999999999999999999999"), None);
}

#[test]
fn decimal_new_checks_places() {
    assert_eq!(Decimal::new(5, 18).map(|d| (d.units(), d.places())), Some((5, 18)));
    assert_eq!(Decimal::new(-5, 0).map(|d| (d.units(), d.places())), Some((-5, 0)));
    assert!(Decimal::new(5, 19).is_none());
    assert!(Decimal::new(0, 255).is_none());
}

#[test]
fn u32_from_digits() {
    assert_eq!(parse_u32("0"), Some(0));
    assert_eq!(parse_u32("1234"), Some(1234));
    assert_eq!(parse_u32("0042"), Some(42));
    assert_eq!(parse_u32("4294967295"), Some(u32::MAX));
}

#[test]
fn u32_rejects_what_is_no_number_of_32_bits() {
    assert_eq!(parse_u32(""), None);
    assert_eq!(parse_u32("4294967296"), None);
    assert_eq!(parse_u32("99999999999999999999999999999999999999999999"), None);
    assert_eq!(parse_u32("-1"), None);
    assert_eq!(parse_u32("+1"), None);
    assert_eq!(parse_u32("1.0"), None);
    assert_eq!(parse_u32("1e2"), None);
    assert_eq!(parse_u32(" 1"), None);
    assert_eq!(parse_u32("1\u{0663}"), None);
}

#[test]
fn digits_of_numbers() {
    assert_eq!(digits(0), "0");
    assert_eq!(digits(7), "7");
    assert_eq!(digits(10), "10");
    assert_eq!(digits(1700000000000), "1700000000000");
    assert_eq!(digits(u128::MAX), "340282366920938463463374607431768211455");
}

#[test]
fn digits_are_appended() {
    let mut out = String::from("id=");
    push_digits(&mut out, 1234);
    assert_eq!(out, "id=1234");
}

#[test]
fn tenths_as_text() {
    assert_eq!(tenths(0), "0.0");
    assert_eq!(tenths(5), "0.5");
    assert_eq!(tenths(680), "68.0");
    assert_eq!(tenths(211), "21.1");
    assert_eq!(tenths(-5), "-0.5");
    assert_eq!(tenths(-125), "-12.5");
    assert_eq!(tenths(i128::MAX), "17014118346046923173168730371588410572.7");
    assert_eq!(tenths(i128::MIN), "-17014118346046923173168730371588410572.8");
}

#[test]
fn digits_read_back_as_the_number() {
    for n in [0u32, 9, 10, 99, 100, 1234, 65535, u32::MAX] {
        assert_eq!(parse_u32(&digits(n as u128)), Some(n));
    }
    assert_eq!(parse_u32(&digits(u32::MAX as u128 + 1)), None);
    assert_eq!(parts(&digits(i64::MAX as u128)), Some((i64::MAX, 0)));
}
