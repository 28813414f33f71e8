use am_rate_bot::decimal::{int_text, uint_text, Dec};
use am_rate_bot::generate::decimal_to_string;

fn d(s: &str) -> Dec {
    Dec::from_str(s).unwrap()
}

#[test]
fn decimals_parse_and_print() {
    assert_eq!(d("1.50").to_string(), "1.50");
    assert_eq!(d("-0.5").to_string(), "-0.5");
    assert_eq!(d("1.50").normalize().to_string(), "1.5");
    assert_eq!(d("12").mantissa(), 12);
    assert_eq!(d("1.25").scale(), 2);
    assert!(Dec::from_str("abc").is_err());
    assert_eq!(Dec::new(12345, 2).to_string(), "123.45");
}

#[test]
fn decimals_round_half_away_from_zero() {
    assert_eq!(d("2.345").round_dp_midpoint_away_from_zero(2).to_string(), "2.35");
    assert_eq!(d("-2.345").round_dp_midpoint_away_from_zero(2).to_string(), "-2.35");
    assert_eq!(decimal_to_string(d("387.19500"), 2), "387.2");
    assert_eq!(decimal_to_string(d("0.0025973"), 4), "0.0026");
}

#[test]
fn decimal_arithmetic_and_comparison() {
    assert_eq!(d("1.5").checked_mul(&d("2")).unwrap().normalize().to_string(), "3");
    assert_eq!(d("1").checked_div(&d("4")).unwrap().to_string(), "0.25");
    assert!(d("1").checked_div(&d("0")).is_none());
    assert_eq!(d("1").checked_sub(&d("3")).unwrap().to_string(), "-2");
    assert_eq!(d("0.1").checked_add(&d("0.2")).unwrap().to_string(), "0.3");
    assert_eq!(d("8").recip().to_string(), "0.125");
    assert!(d("1.0").num_eq(&d("1")));
    assert!(d("0.99").lt(&d("1")));
    assert_eq!(d("2").compare(&d("1.5")), 1);
    assert_eq!(d("-3").neg().to_string(), "3");
    assert!(Dec::try_from_i128_with_scale(1, 29).is_none());
}

#[test]
fn integers_are_written_in_decimal() {
    assert_eq!(int_text(0), "0");
    assert_eq!(int_text(-42), "-42");
    assert_eq!(int_text(i64::MIN), "-9223372036854775808");
    assert_eq!(uint_text(u64::MAX), "18446744073709551615");
}
