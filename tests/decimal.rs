use pricefeed::decimal::{parse_decimal, Decimal};

fn dec(mantissa: i128, scale: u32) -> Decimal {
    Decimal { mantissa, scale }
}

#[test]
fn parse_plain_integer() {
    assert_eq!(parse_decimal("7"), Some(dec(7, 0)));
}

#[test]
fn parse_fraction_keeps_scale() {
    assert_eq!(parse_decimal("100.0"), Some(dec(1000, 1)));
    assert_eq!(parse_decimal("150.25"), Some(dec(15025, 2)));
    assert_eq!(parse_decimal("0.125"), Some(dec(125, 3)));
}

#[test]
fn parse_negative() {
    assert_eq!(parse_decimal("-12.50"), Some(dec(-1250, 2)));
    assert_eq!(parse_decimal("-0"), Some(dec(0, 0)));
}

#[test]
fn parse_rejects_malformed() {
    assert_eq!(parse_decimal(""), None);
    assert_eq!(parse_decimal("-"), None);
    assert_eq!(parse_decimal(".5"), None);
    assert_eq!(parse_decimal("5."), None);
    assert_eq!(parse_decimal("1.2.3"), None);
    assert_eq!(parse_decimal("1e5"), None);
    assert_eq!(parse_decimal("abc"), None);
    assert_eq!(parse_decimal("+1"), None);
}

#[test]
fn parse_digit_limit() {
    assert_eq!(
        parse_decimal("123456789012345678"),
        Some(dec(123456789012345678, 0))
    );
    assert_eq!(parse_decimal("1234567890123456789"), None);
    assert_eq!(
        parse_decimal("0.00000000000000001"),
        Some(dec(1, 17))
    );
}

#[test]
fn mean_is_exact() {
    let m = Decimal::mean(dec(1000, 1), dec(1020, 1));
    assert_eq!(m, dec(10100, 2));
    let m = Decimal::mean(dec(1, 0), dec(2, 0));
    assert_eq!(m, dec(15, 1));
}

#[test]
fn mean_aligns_scales() {
    let m = Decimal::mean(dec(15025, 2), dec(3, 0));
    // (150.25 + 3) / 2 = 76.625
    assert_eq!(m, dec(76625, 3));
}

#[test]
fn positive_sign() {
    assert!(dec(1, 5).positive());
    assert!(!dec(0, 0).positive());
    assert!(!dec(-3, 1).positive());
}
