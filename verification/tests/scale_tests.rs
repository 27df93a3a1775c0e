//! Tests of the amount scaler: exact decimal text, and agreement with 64-bit
//! float arithmetic within its precision.

use std::str::FromStr;

use withdrawals_meterer::scale::{scale, scale_checked};
use withdrawals_meterer::token::Amount;

#[test]
fn one_ether_like_amount_scales_to_one() {
    let a = Amount::from_u64(1_000_000_000_000_000_000);
    assert_eq!(scale(&a, 18), "1.000000000000000000");
    assert_eq!(f64::from_str(&scale(&a, 18)).unwrap(), 1.0);
}

#[test]
fn half_ether_like_amount_scales_to_half() {
    let a = Amount::from_u64(500_000_000_000_000_000);
    assert_eq!(scale(&a, 18), "0.500000000000000000");
    assert_eq!(f64::from_str(&scale(&a, 18)).unwrap(), 0.5);
}

#[test]
fn fractional_digits_are_padded() {
    assert_eq!(scale(&Amount::from_u64(5), 3), "0.005");
    assert_eq!(scale(&Amount::from_u64(123456), 3), "123.456");
}

#[test]
fn zero_decimals_yields_a_zero_fraction() {
    assert_eq!(scale(&Amount::from_u64(7), 0), "7.0");
    assert_eq!(scale(&Amount::from_u64(0), 0), "0.0");
}

#[test]
fn multi_limb_amount_scales_exactly() {
    // 2^64 = 18446744073709551616
    let a = Amount { limbs: [0, 1, 0, 0] };
    assert_eq!(scale(&a, 0), "18446744073709551616.0");
    assert_eq!(scale(&a, 19), "1.8446744073709551616");
}

#[test]
fn scaled_value_matches_float_division_within_precision() {
    // exactly representable operands: parse and divide agree bit for bit
    let cases: [(u64, u32); 5] = [(1, 1), (25, 2), (3, 4), (123456, 3), (99, 0)];
    for (raw, d) in cases {
        let text = scale(&Amount::from_u64(raw), d);
        let parsed = f64::from_str(&text).unwrap();
        let divided = raw as f64 / 10f64.powi(d as i32);
        assert_eq!(parsed, divided, "raw {raw} decimals {d} text {text}");
    }
}

#[test]
fn checked_scaling_refuses_only_oversized_exponents() {
    let a = Amount::from_u64(123);
    assert_eq!(scale_checked(&a, 77).unwrap(), format!("0.{:0>77}", 123));
    assert!(scale_checked(&a, 78).is_none());
    assert!(scale_checked(&a, u32::MAX).is_none());
}
