use engine_core::fixed::{
    sin_fx, cos_fx, isqrt64, add_sat, sub_sat, mul_fx, mul_div, div_trunc, abs_fx,
};
use engine_core::text::{fmt_u64, str_eq, parse_usize};

#[test]
fn sine_is_exact_at_axis_angles() {
    assert_eq!(sin_fx(0), 0);
    assert_eq!(sin_fx(90_000_000), 1_000_000);
    assert_eq!(sin_fx(180_000_000), 0);
    assert_eq!(sin_fx(-90_000_000), -1_000_000);
    assert_eq!(sin_fx(30_000_000), 500_000); // the quarter-wave formula is exact at 30 degrees
    assert_eq!(cos_fx(0), 1_000_000);
    assert_eq!(cos_fx(90_000_000), 0);
    assert_eq!(cos_fx(180_000_000), -1_000_000);
    // periodicity
    assert_eq!(sin_fx(360_000_000 + 30_000_000), 500_000);
    assert_eq!(sin_fx(-330_000_000), 500_000);
}

#[test]
fn integer_square_root_brackets() {
    assert_eq!(isqrt64(0), 0);
    assert_eq!(isqrt64(1), 1);
    assert_eq!(isqrt64(2), 1);
    assert_eq!(isqrt64(4), 2);
    assert_eq!(isqrt64(999_999), 999);
    assert_eq!(isqrt64(1_000_000_000_000), 1_000_000);
    assert_eq!(isqrt64(2_000_000_000_000), 1_414_213);
    assert_eq!(isqrt64(u64::MAX), 4_294_967_295);
}

#[test]
fn saturating_arithmetic_clamps_at_the_rim() {
    assert_eq!(add_sat(i64::MAX, 1), i64::MAX);
    assert_eq!(sub_sat(i64::MIN, 1), i64::MIN);
    assert_eq!(add_sat(2, 3), 5);
    assert_eq!(mul_fx(2_000_000, 3_000_000), 6_000_000);
    assert_eq!(mul_fx(-1_500_000, 1_000_000), -1_500_000);
    assert_eq!(mul_div(10, 7, 2), 35);
    assert_eq!(div_trunc(-7, 2), -3); // truncation toward zero
    assert_eq!(abs_fx(i64::MIN), i64::MAX);
}

#[test]
fn decimal_formatting_and_parsing() {
    assert_eq!(fmt_u64(0), "0");
    assert_eq!(fmt_u64(907), "907");
    assert_eq!(fmt_u64(u64::MAX), "18446744073709551615");
    assert!(str_eq("abc", "abc"));
    assert!(!str_eq("abc", "abd"));
    assert!(!str_eq("abc", "ab"));
    assert_eq!(parse_usize("907"), 907);
    assert_eq!(parse_usize("+41"), 41);
    assert_eq!(parse_usize(""), 0);
    assert_eq!(parse_usize("12x"), 0);
    assert_eq!(parse_usize("99999999999999999999999999"), 0); // overflow parses to zero
}
