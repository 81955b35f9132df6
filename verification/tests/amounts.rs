//! Tests of the fixed-point amounts: exact input conversion, the half-even
//! output rounding, and the checked balance arithmetic.

use payments::amount::{round_balance, Amount};
use payments::{AccountBalance, ProcessError};
use rust_decimal::Decimal;

/// One whole currency unit in the fixed-point scale.
const UNIT: i128 = 10_000_000_000_000_000_000_000_000_000;

/// One `10^-4` unit, the report's resolution.
const OUTPUT_UNIT: i128 = 1_000_000_000_000_000_000_000_000;

#[test]
fn test_precision() {
    // 1000.2303 + 2001.1533 is exactly 3001.3836: no drift anywhere.
    let a: Decimal = "1000.2303".parse().unwrap();
    let b: Decimal = "2001.1533".parse().unwrap();
    let a = Amount::from_parts(a.mantissa(), a.scale()).unwrap();
    let b = Amount::from_parts(b.mantissa(), b.scale()).unwrap();
    let sum = a.units + b.units;
    assert_eq!(sum, 30013836 * OUTPUT_UNIT);
    assert_eq!(round_balance(sum), 30013836);
}

#[test]
fn test_output_rounding() {
    // 9.1333333 comes in exactly and reports as 9.1333.
    let d: Decimal = "9.1333333".parse().unwrap();
    assert_eq!(d.mantissa(), 91333333);
    assert_eq!(d.scale(), 7);
    let a = Amount::from_parts(d.mantissa(), d.scale()).unwrap();
    assert_eq!(a.units, 91333333 * 1_000_000_000_000_000_000_000);

    let rounded = round_balance(a.units);
    assert_eq!(rounded, 91333);
    let out = Decimal::from_i128_with_scale(rounded, 4).normalize();
    assert_eq!(out.to_string(), "9.1333");
}

#[test]
fn rounding_is_half_even() {
    // Below, on and above the midpoint, both signs.
    assert_eq!(round_balance(0), 0);
    assert_eq!(round_balance(4 * OUTPUT_UNIT / 10), 0);
    assert_eq!(round_balance(6 * OUTPUT_UNIT / 10), 1);
    // Ties go to the even neighbour.
    assert_eq!(round_balance(OUTPUT_UNIT / 2), 0);
    assert_eq!(round_balance(OUTPUT_UNIT + OUTPUT_UNIT / 2), 2);
    assert_eq!(round_balance(2 * OUTPUT_UNIT + OUTPUT_UNIT / 2), 2);
    assert_eq!(round_balance(-(OUTPUT_UNIT / 2)), 0);
    assert_eq!(round_balance(-(OUTPUT_UNIT + OUTPUT_UNIT / 2)), -2);
    assert_eq!(round_balance(-(2 * OUTPUT_UNIT + OUTPUT_UNIT / 2)), -2);
    // Whole values stay exact.
    assert_eq!(round_balance(9 * UNIT), 90000);
    assert_eq!(round_balance(-9 * UNIT), -90000);
    // One tick above and below a tie.
    assert_eq!(round_balance(OUTPUT_UNIT / 2 + 1), 1);
    assert_eq!(round_balance(-(OUTPUT_UNIT / 2 + 1)), -1);
}

#[test]
fn conversion_is_exact_in_range() {
    let d: Decimal = "0.0000000000000000000000000001".parse().unwrap();
    let a = Amount::from_parts(d.mantissa(), d.scale()).unwrap();
    assert_eq!(a.units, 1);

    let d: Decimal = "-12.5".parse().unwrap();
    let a = Amount::from_parts(d.mantissa(), d.scale()).unwrap();
    assert_eq!(a.units, -125 * UNIT / 10);
}

#[test]
fn conversion_rejects_what_cannot_be_represented() {
    // More than 28 fractional digits cannot exist in the fixed-point scale.
    assert!(Amount::from_parts(1, 29).is_none());
    // A magnitude past the representable range is refused, not wrapped.
    assert!(Amount::from_parts(i128::MAX, 0).is_none());
    assert!(Amount::from_parts(20_000_000_000, 0).is_none());
    // The largest whole amounts that do fit.
    assert!(Amount::from_parts(17_014_118_346, 0).is_some());
    assert!(Amount::from_parts(-17_014_118_346, 0).is_some());
}

#[test]
fn balance_arithmetic_is_checked() {
    // A dispute that would push available below the representable range is
    // refused and mutates nothing.
    let mut bal =
        AccountBalance { available: -i128::MAX, held: i128::MAX, total: 0, locked: false };
    let before = bal;
    let err = bal.apply_dispute(Amount::from_units(1)).unwrap_err();
    assert_eq!(err, ProcessError::ArithmeticUnderflow);
    assert_eq!(bal, before);

    // A resolve that would push available past the range is refused too.
    let mut bal =
        AccountBalance { available: i128::MAX, held: 0, total: i128::MAX, locked: false };
    let before = bal;
    let err = bal.apply_resolve(Amount::from_units(1)).unwrap_err();
    assert_eq!(err, ProcessError::ArithmeticOverflow);
    assert_eq!(bal, before);
}
