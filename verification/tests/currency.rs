use relay_st_jude::currency::{parse_cents, Usd};

/// Constructing an amount and reading it back returns the amount unchanged.
#[test]
fn usd_round_trip() {
    assert_eq!(Usd::new(0).usd(), 0);
    assert_eq!(Usd::new(2_266_340).usd(), 2_266_340);
    assert_eq!(Usd::from_usd(33_333_333).usd(), 33_333_333);
    assert_eq!(Usd::new(-150).usd(), -150);
}

/// Decimal numeric strings parse to exact cents.
#[test]
fn parse_cents_values() {
    assert_eq!(parse_cents("333333.33"), Some(33_333_333));
    assert_eq!(parse_cents("22663.40"), Some(2_266_340));
    assert_eq!(parse_cents("0"), Some(0));
    assert_eq!(parse_cents("7"), Some(700));
    assert_eq!(parse_cents(".5"), Some(50));
    assert_eq!(parse_cents("5."), Some(500));
    assert_eq!(parse_cents("-12.34"), Some(-1234));
    assert_eq!(parse_cents("-0.00"), Some(0));
    assert_eq!(parse_cents("196060.44"), Some(19_606_044));
}

/// Fraction digits beyond the second carry no cents.
#[test]
fn parse_cents_truncates_sub_cent() {
    assert_eq!(parse_cents("12.345"), Some(1234));
    assert_eq!(parse_cents("0.999"), Some(99));
}

/// Text that is not a plain decimal numeral does not parse; neither do
/// not-a-number or infinity spellings.
#[test]
fn parse_cents_rejects() {
    assert_eq!(parse_cents("not-a-number"), None);
    assert_eq!(parse_cents("NaN"), None);
    assert_eq!(parse_cents("inf"), None);
    assert_eq!(parse_cents("infinity"), None);
    assert_eq!(parse_cents("1e5"), None);
    assert_eq!(parse_cents(""), None);
    assert_eq!(parse_cents("-"), None);
    assert_eq!(parse_cents("."), None);
    assert_eq!(parse_cents("1.2.3"), None);
    assert_eq!(parse_cents("12a"), None);
    assert_eq!(parse_cents("999999999999999999999999"), None);
}

/// Amounts render with a dollar sign, comma grouping and two cent digits.
#[test]
fn display_strings() {
    assert_eq!(Usd::new(2_266_340).display_string(), "$22,663.40".to_string());
    assert_eq!(Usd::new(33_333_333).display_string(), "$333,333.33".to_string());
    assert_eq!(Usd::new(0).display_string(), "$0.00".to_string());
    assert_eq!(Usd::new(100_000_000).display_string(), "$1,000,000.00".to_string());
    assert_eq!(Usd::new(7).display_string(), "$0.07".to_string());
    assert_eq!(Usd::new(-5000).display_string(), "$0.00".to_string());
}

/// Ordering follows the stored amount.
#[test]
fn usd_ordering() {
    assert!(Usd::new(2_000_000) < Usd::new(2_266_340));
    assert!(Usd::new(5_500_000) > Usd::new(2_266_340));
    assert_eq!(Usd::new(100), Usd::new(100));
}
