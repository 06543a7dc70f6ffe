//! Decoding of single frames into micro-picoamp values.

use pico_plot::parse::parse_frame;

fn parse(s: &str) -> Option<i64> {
    parse_frame(&s.as_bytes().to_vec())
}

#[test]
fn decodes_exponential_reading() {
    // 1.23e-10 A = 123 pA
    assert_eq!(parse("1.23e-10"), Some(123_000_000));
}

#[test]
fn decodes_capital_exponent_and_plus_signs() {
    assert_eq!(parse("1E-10"), Some(100_000_000));
    assert_eq!(parse("+1e-10"), Some(100_000_000));
    assert_eq!(parse("1e+2"), None); // 100 A is out of range
    assert_eq!(parse("1.5e-9"), Some(1_500_000_000));
}

#[test]
fn decodes_negative_reading() {
    assert_eq!(parse("-1.0e-10"), Some(-100_000_000));
    assert_eq!(parse("-0"), Some(0));
}

#[test]
fn decodes_plain_decimal() {
    // 0.5 A = 5e11 pA
    assert_eq!(parse("0.5"), Some(500_000_000_000_000_000));
    assert_eq!(parse(".5"), Some(500_000_000_000_000_000));
    assert_eq!(parse("1."), Some(1_000_000_000_000_000_000));
    assert_eq!(parse("0"), Some(0));
}

#[test]
fn truncates_below_one_micro_picoamp() {
    // 1.2345678e-12 A = 1.2345678 pA = 1234567.8 micro-pA
    assert_eq!(parse("1.2345678e-12"), Some(1_234_567));
    // far below representable: truncates to zero
    assert_eq!(parse("1e-30"), Some(0));
    assert_eq!(parse("0e9999"), Some(0));
}

#[test]
fn rejects_non_numeric_frames() {
    assert_eq!(parse(""), None);
    assert_eq!(parse("garbage"), None);
    assert_eq!(parse("NaN"), None);
    assert_eq!(parse("inf"), None);
    assert_eq!(parse("+"), None);
    assert_eq!(parse("."), None);
    assert_eq!(parse("1.2.3"), None);
    assert_eq!(parse("1e"), None);
    assert_eq!(parse("1e+"), None);
    assert_eq!(parse("--1"), None);
    assert_eq!(parse(" 1"), None);
    assert_eq!(parse("1 "), None);
}

#[test]
fn rejects_out_of_range_values() {
    // 2 A scales past the one-amp cap
    assert_eq!(parse("2"), None);
    assert_eq!(parse("1e1"), None);
    // exponent with more than four digits
    assert_eq!(parse("1e12345"), None);
    assert_eq!(parse("1e-00030"), None);
    // significand with more than nineteen digits
    assert_eq!(parse("12345678901234567890e-30"), None);
}

#[test]
fn boundary_value_is_accepted() {
    // exactly one amp, the cap itself
    assert_eq!(parse("1"), Some(1_000_000_000_000_000_000));
    assert_eq!(parse("1.000"), Some(1_000_000_000_000_000_000));
}
