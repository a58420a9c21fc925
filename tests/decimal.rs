use trading_engine::decimal::{parse_units, parse_units_or_zero};

#[test]
fn parses_exchange_decimals() {
    assert_eq!(parse_units("27123.45000000"), Some(2_712_345_000_000));
    assert_eq!(parse_units("1.5"), Some(150_000_000));
    assert_eq!(parse_units("100"), Some(10_000_000_000));
    assert_eq!(parse_units("0.00000001"), Some(1));
    assert_eq!(parse_units(".5"), Some(50_000_000));
    assert_eq!(parse_units("7."), Some(700_000_000));
}

#[test]
fn truncates_past_eight_places() {
    assert_eq!(parse_units("0.123456789"), Some(12_345_678));
}

#[test]
fn rejects_malformed_text() {
    assert_eq!(parse_units(""), None);
    assert_eq!(parse_units("."), None);
    assert_eq!(parse_units("-1"), None);
    assert_eq!(parse_units("1.2.3"), None);
    assert_eq!(parse_units("1e5"), None);
    assert_eq!(parse_units("abc"), None);
}

#[test]
fn rejects_values_too_large() {
    assert_eq!(parse_units("184467440737.09551615"), Some(u64::MAX));
    assert_eq!(parse_units("184467440737.09551616"), None);
    assert_eq!(parse_units("99999999999999999999999"), None);
}

#[test]
fn falls_back_to_zero() {
    assert_eq!(parse_units_or_zero("garbage"), 0);
    assert_eq!(parse_units_or_zero("2"), 200_000_000);
}
