use mcc_frontend_core::fraction::Fraction;
use mcc_frontend_core::fraction::{is_fraction_input, is_valid_fractional_input};

/// The exact integer ratio a finite `f32` denotes: repeated doubling until
/// the fractional part is gone.
fn ratio_of_f32(value: f32) -> (i64, i64) {
    let mut num = value;
    let mut den: i64 = 1;
    while num.fract() != 0.0 {
        num *= 2.0;
        den *= 2;
    }
    (num as i64, den)
}

#[test]
fn test_from_str() {
    let fraction = Fraction::from_str("1/2").unwrap();
    assert_eq!(fraction.numerator, 1);
    assert_eq!(fraction.denominator, 2);

    let fraction = Fraction::from_str("1 1/2").unwrap();
    assert_eq!(fraction.numerator, 3);
    assert_eq!(fraction.denominator, 2);

    let fraction = Fraction::from_str("1 1/4").unwrap();
    assert_eq!(fraction.numerator, 5);
    assert_eq!(fraction.denominator, 4);
}

#[test]
fn test_to_str() {
    let fraction = Fraction::new(1, 2);
    assert_eq!(fraction.to_string(), "1/2");

    let fraction = Fraction::new(1, 3);
    assert_eq!(fraction.to_string(), "1/3");

    let fraction = Fraction::new(7, 3);
    assert_eq!(fraction.to_string(), "2 1/3");
}

#[test]
fn from_f32() {
    let (n, d) = ratio_of_f32(0.5f32);
    let fraction = Fraction::from_ratio(n, d);
    assert_eq!(fraction.numerator, 1);
    assert_eq!(fraction.denominator, 2);

    let (n, d) = ratio_of_f32(0.3333f32);
    let fraction = Fraction::from_ratio(n, d);
    assert_eq!(fraction.numerator, 1);
    assert_eq!(fraction.denominator, 3);

    let (n, d) = ratio_of_f32(2.3333f32);
    let fraction = Fraction::from_ratio(n, d);
    assert_eq!(fraction.numerator, 7);
    assert_eq!(fraction.denominator, 3);
}

#[test]
fn from_ratio_whole_number() {
    let fraction = Fraction::from_ratio(8, 2);
    assert_eq!(fraction.numerator, 4);
    assert_eq!(fraction.denominator, 1);

    let fraction = Fraction::from_ratio(-6, 3);
    assert_eq!(fraction.numerator, -2);
    assert_eq!(fraction.denominator, 1);
}

#[test]
fn from_ratio_stays_within_epsilon() {
    // 7/3 within 1/10000: |n/d - 7/3| * 10000 <= 1 must hold of the result
    let (n0, m0) = ratio_of_f32(2.3333f32);
    let f = Fraction::from_ratio(n0, m0);
    let lhs = (i64::from(f.numerator) * m0 - n0 * i64::from(f.denominator)).abs() * 10000;
    let rhs = m0 * i64::from(f.denominator);
    assert!(lhs <= rhs);
}

#[test]
fn test_format_whole() {
    assert_eq!(Fraction::new(4, 1).to_string(), "4");
    assert_eq!(Fraction::new(-4, 1).to_string(), "-4");
}

#[test]
fn test_round_trip() {
    for &(n, d) in &[(1, 2), (7, 3), (4, 1), (-7, 3), (0, 5), (10, 10), (9, -4)] {
        let text = Fraction::new(n, d).to_string();
        let parsed = Fraction::parse(&text).unwrap();
        // same represented value, by cross multiplication
        assert_eq!(
            i64::from(parsed.numerator) * i64::from(d),
            i64::from(n) * i64::from(parsed.denominator),
        );
        assert_ne!(parsed.denominator, 0);
    }
}

#[test]
fn test_parse_mixed_numbers() {
    let f = Fraction::parse("1 1/2").unwrap();
    assert_eq!(f.numerator, 3);
    assert_eq!(f.denominator, 2);

    let f = Fraction::parse("7/3").unwrap();
    assert_eq!(f.numerator, 7);
    assert_eq!(f.denominator, 3);
}

#[test]
fn test_parse_whole_and_decimal() {
    let f = Fraction::parse("4").unwrap();
    assert_eq!(f.numerator, 4);
    assert_eq!(f.denominator, 1);

    let f = Fraction::parse("2.5").unwrap();
    assert_eq!(f.numerator, 25);
    assert_eq!(f.denominator, 10);

    let f = Fraction::parse("0.25").unwrap();
    assert_eq!(f.numerator, 25);
    assert_eq!(f.denominator, 100);

    assert!(Fraction::parse("").is_err());
    assert!(Fraction::parse("abc").is_err());
    assert!(Fraction::parse("1/").is_err());
    assert!(Fraction::parse("1//2").is_err());
    assert!(Fraction::parse("99999999999/2").is_err());
}

#[test]
fn test_fraction_shape_validation() {
    assert!(is_fraction_input("1/2"));
    assert!(is_fraction_input("1 1/2"));
    assert!(is_fraction_input("01/2"));
    assert!(!is_fraction_input("0 1/2"));
    assert!(!is_fraction_input("1"));
    assert!(!is_fraction_input("1.5"));
    assert!(!is_fraction_input("1/2/3"));
    assert!(!is_fraction_input("-1/2"));
}

#[test]
fn test_fractional_input_validation() {
    assert!(is_valid_fractional_input("3"));
    assert!(is_valid_fractional_input("1/2"));
    assert!(is_valid_fractional_input("1 1/2"));
    assert!(is_valid_fractional_input("2.5"));
    assert!(!is_valid_fractional_input(""));
    assert!(!is_valid_fractional_input("a"));
    assert!(!is_valid_fractional_input("1.5.2"));
    assert!(!is_valid_fractional_input("-3"));
    assert!(!is_valid_fractional_input("1 2"));
}

#[test]
fn test_round_to_thousandths() {
    let f = Fraction::new(1, 3).round_to_thousandths().unwrap();
    assert_eq!(f.numerator, 333);
    assert_eq!(f.denominator, 1000);

    let f = Fraction::new(1, 2).round_to_thousandths().unwrap();
    assert_eq!(f.numerator, 500);
    assert_eq!(f.denominator, 1000);

    let f = Fraction::new(-1, 3).round_to_thousandths().unwrap();
    assert_eq!(f.numerator, -333);
    assert_eq!(f.denominator, 1000);

    // rounding is to nearest, ties away from zero
    let f = Fraction::new(1, 2000).round_to_thousandths().unwrap();
    assert_eq!(f.numerator, 1);

    // a numerator that cannot fit yields nothing
    assert!(Fraction::new(i32::MAX, 1).round_to_thousandths().is_none());
}

#[test]
fn test_parse_fractional_input() {
    // fraction-shaped input is parsed and rounded to three decimals
    let f = Fraction::parse_fractional_input("1/3").unwrap();
    assert_eq!(f.numerator, 333);
    assert_eq!(f.denominator, 1000);

    let f = Fraction::parse_fractional_input("1 1/2").unwrap();
    assert_eq!(f.numerator, 1500);
    assert_eq!(f.denominator, 1000);

    // whole numbers and decimals pass through exactly
    let f = Fraction::parse_fractional_input("2").unwrap();
    assert_eq!(f.numerator, 2);
    assert_eq!(f.denominator, 1);

    let f = Fraction::parse_fractional_input("0.25").unwrap();
    assert_eq!(f.numerator, 25);
    assert_eq!(f.denominator, 100);

    // anything else is rejected, never coerced to zero
    assert!(Fraction::parse_fractional_input("x").is_none());
    assert!(Fraction::parse_fractional_input("").is_none());
    assert!(Fraction::parse_fractional_input("1/0").is_none());
}
