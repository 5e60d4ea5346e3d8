use carbonmint_contract::math::{
    checked_add, checked_add_u64, checked_div, checked_mul, checked_sub, saturating_add,
    saturating_add_u64, saturating_sub,
};
use carbonmint_contract::Error;

// -----------------------------------------------------------------------
// checked_add
// -----------------------------------------------------------------------
#[test]
fn test_checked_add_ok() {
    assert_eq!(checked_add(10i128, 20i128).unwrap(), 30);
    assert_eq!(checked_add(0i128, 0i128).unwrap(), 0);
    assert_eq!(checked_add(-5i128, 3i128).unwrap(), -2);
    assert_eq!(checked_add(i128::MAX - 1, 1).unwrap(), i128::MAX);
    assert_eq!(checked_add(i128::MIN, 1).unwrap(), i128::MIN + 1);
}

#[test]
fn test_checked_add_overflow() {
    assert_eq!(checked_add(i128::MAX, 1), Err(Error::Overflow));
    assert_eq!(checked_add(i128::MIN, -1), Err(Error::Overflow));
}

// -----------------------------------------------------------------------
// checked_sub
// -----------------------------------------------------------------------
#[test]
fn test_checked_sub_ok() {
    assert_eq!(checked_sub(30i128, 10i128).unwrap(), 20);
    assert_eq!(checked_sub(0i128, 0i128).unwrap(), 0);
    assert_eq!(checked_sub(-5i128, -10i128).unwrap(), 5);
    assert_eq!(checked_sub(i128::MIN + 1, 1).unwrap(), i128::MIN);
}

#[test]
fn test_checked_sub_underflow() {
    assert_eq!(checked_sub(0i128, 1), Err(Error::Overflow));
    assert_eq!(checked_sub(i128::MIN, 1), Err(Error::Overflow));
    assert_eq!(checked_sub(-100i128, i128::MAX), Err(Error::Overflow));
}

// -----------------------------------------------------------------------
// checked_mul
// -----------------------------------------------------------------------
#[test]
fn test_checked_mul_ok() {
    assert_eq!(checked_mul(10i128, 3i128).unwrap(), 30);
    assert_eq!(checked_mul(-5i128, 3i128).unwrap(), -15);
    assert_eq!(checked_mul(0i128, 100i128).unwrap(), 0);
    assert_eq!(checked_mul(1i128, 1i128).unwrap(), 1);
}

#[test]
fn test_checked_mul_overflow() {
    assert_eq!(checked_mul(i128::MAX, 2), Err(Error::Overflow));
    assert_eq!(checked_mul(i128::MIN, 2), Err(Error::Overflow));
}

// -----------------------------------------------------------------------
// checked_div
// -----------------------------------------------------------------------
#[test]
fn test_checked_div_ok() {
    assert_eq!(checked_div(30i128, 3i128).unwrap(), 10);
    assert_eq!(checked_div(-30i128, 3i128).unwrap(), -10);
    assert_eq!(checked_div(0i128, 100i128).unwrap(), 0);
}

#[test]
fn test_checked_div_by_zero() {
    assert_eq!(checked_div(1i128, 0), Err(Error::Overflow));
}

#[test]
fn test_checked_div_overflow() {
    // i128::MIN / -1 overflows because there is no positive 2^127.
    assert_eq!(checked_div(i128::MIN, -1), Err(Error::Overflow));
}

// -----------------------------------------------------------------------
// saturating_add (i128)
// -----------------------------------------------------------------------
#[test]
fn test_saturating_add_normal() {
    assert_eq!(saturating_add(100i128, 50i128), 150);
    assert_eq!(saturating_add(-50i128, 30i128), -20);
    assert_eq!(saturating_add(0i128, 0i128), 0);
}

#[test]
fn test_saturating_add_clamp_positive() {
    assert_eq!(saturating_add(i128::MAX, 1), i128::MAX);
    assert_eq!(saturating_add(i128::MAX, 100), i128::MAX);
}

#[test]
fn test_saturating_add_clamp_negative() {
    assert_eq!(saturating_add(i128::MIN, -1), i128::MIN);
    assert_eq!(saturating_add(i128::MIN, -100), i128::MIN);
}

// -----------------------------------------------------------------------
// saturating_sub (i128)
// -----------------------------------------------------------------------
#[test]
fn test_saturating_sub_normal() {
    assert_eq!(saturating_sub(100i128, 50i128), 50);
    assert_eq!(saturating_sub(0i128, 0i128), 0);
    assert_eq!(saturating_sub(-10i128, -5i128), -5);
}

#[test]
fn test_saturating_sub_clamp_negative() {
    assert_eq!(saturating_sub(0i128, 1), -1);
    assert_eq!(saturating_sub(i128::MIN, 1), i128::MIN);
}

// -----------------------------------------------------------------------
// checked_add_u64
// -----------------------------------------------------------------------
#[test]
fn test_checked_add_u64_ok() {
    assert_eq!(checked_add_u64(5u64, 3u64).unwrap(), 8);
    assert_eq!(checked_add_u64(0u64, 0u64).unwrap(), 0);
    assert_eq!(checked_add_u64(u64::MAX - 1, 1).unwrap(), u64::MAX);
}

#[test]
fn test_checked_add_u64_overflow() {
    assert_eq!(checked_add_u64(u64::MAX, 1), Err(Error::Overflow));
}

// -----------------------------------------------------------------------
// saturating_add_u64
// -----------------------------------------------------------------------
#[test]
fn test_saturating_add_u64_normal() {
    assert_eq!(saturating_add_u64(5u64, 3u64), 8);
    assert_eq!(saturating_add_u64(0u64, 0u64), 0);
}

#[test]
fn test_saturating_add_u64_clamp() {
    assert_eq!(saturating_add_u64(u64::MAX, 1), u64::MAX);
    assert_eq!(saturating_add_u64(u64::MAX, 100), u64::MAX);
}

// -----------------------------------------------------------------------
// Maximum-value arithmetic paths
//
// These cases exercise every helper at the numeric ceiling of its type
// to confirm that identity operations, near-boundary subtractions, and
// zero-multiplications all return Ok rather than Err(Overflow).
// -----------------------------------------------------------------------

/// checked_add: adding 0 to i128::MAX must return Ok(i128::MAX).
#[test]
fn test_checked_add_max_plus_zero() {
    assert_eq!(checked_add(i128::MAX, 0).unwrap(), i128::MAX);
}

/// checked_add: adding i128::MAX - 1 to 1 must return Ok(i128::MAX).
#[test]
fn test_checked_add_reaches_max() {
    assert_eq!(checked_add(i128::MAX - 1, 1).unwrap(), i128::MAX);
}

/// checked_sub: i128::MAX - i128::MAX must return Ok(0).
#[test]
fn test_checked_sub_max_minus_max() {
    assert_eq!(checked_sub(i128::MAX, i128::MAX).unwrap(), 0);
}

/// checked_sub: subtracting 0 from i128::MAX must return Ok(i128::MAX).
#[test]
fn test_checked_sub_max_minus_zero() {
    assert_eq!(checked_sub(i128::MAX, 0).unwrap(), i128::MAX);
}

/// checked_sub: i128::MIN - 0 must return Ok(i128::MIN).
#[test]
fn test_checked_sub_min_minus_zero() {
    assert_eq!(checked_sub(i128::MIN, 0).unwrap(), i128::MIN);
}

/// checked_mul: i128::MAX × 1 is the identity and must return Ok(i128::MAX).
#[test]
fn test_checked_mul_max_by_one() {
    assert_eq!(checked_mul(i128::MAX, 1).unwrap(), i128::MAX);
}

/// checked_mul: i128::MAX × 0 must return Ok(0) (zero-product).
#[test]
fn test_checked_mul_max_by_zero() {
    assert_eq!(checked_mul(i128::MAX, 0).unwrap(), 0);
}

/// checked_mul: i128::MIN × 1 must return Ok(i128::MIN).
#[test]
fn test_checked_mul_min_by_one() {
    assert_eq!(checked_mul(i128::MIN, 1).unwrap(), i128::MIN);
}

/// checked_mul: i128::MIN × 0 must return Ok(0).
#[test]
fn test_checked_mul_min_by_zero() {
    assert_eq!(checked_mul(i128::MIN, 0).unwrap(), 0);
}

/// checked_div: i128::MAX / 1 must return Ok(i128::MAX) (identity divisor).
#[test]
fn test_checked_div_max_by_one() {
    assert_eq!(checked_div(i128::MAX, 1).unwrap(), i128::MAX);
}

/// checked_div: i128::MAX / i128::MAX must return Ok(1).
#[test]
fn test_checked_div_max_by_max() {
    assert_eq!(checked_div(i128::MAX, i128::MAX).unwrap(), 1);
}

/// checked_div: i128::MAX / -1 must return Ok(-i128::MAX) (no overflow;
/// only i128::MIN / -1 overflows because -i128::MIN is not representable).
#[test]
fn test_checked_div_max_by_neg_one() {
    assert_eq!(checked_div(i128::MAX, -1).unwrap(), -i128::MAX);
}

/// checked_div: 0 / i128::MAX must return Ok(0).
#[test]
fn test_checked_div_zero_by_max() {
    assert_eq!(checked_div(0, i128::MAX).unwrap(), 0);
}

/// saturating_add (i128): MAX + 0 must return MAX (not clamp unnecessarily).
#[test]
fn test_saturating_add_max_plus_zero() {
    assert_eq!(saturating_add(i128::MAX, 0), i128::MAX);
}

/// saturating_sub (i128): MIN - 0 must return MIN.
#[test]
fn test_saturating_sub_min_minus_zero() {
    assert_eq!(saturating_sub(i128::MIN, 0), i128::MIN);
}

/// saturating_sub (i128): MAX - MAX must return 0.
#[test]
fn test_saturating_sub_max_minus_max() {
    assert_eq!(saturating_sub(i128::MAX, i128::MAX), 0);
}

/// saturating_sub (i128): saturating below MIN must clamp to MIN.
#[test]
fn test_saturating_sub_clamp_to_min() {
    assert_eq!(saturating_sub(i128::MIN, 1), i128::MIN);
    assert_eq!(saturating_sub(i128::MIN, i128::MAX), i128::MIN);
}

/// checked_add_u64: u64::MAX + 0 must return Ok(u64::MAX).
#[test]
fn test_checked_add_u64_max_plus_zero() {
    assert_eq!(checked_add_u64(u64::MAX, 0).unwrap(), u64::MAX);
}

/// saturating_add_u64: u64::MAX + 0 must return u64::MAX (no clamp needed).
#[test]
fn test_saturating_add_u64_max_plus_zero() {
    assert_eq!(saturating_add_u64(u64::MAX, 0), u64::MAX);
}

/// saturating_add_u64: any overflow must clamp to u64::MAX, not wrap.
#[test]
fn test_saturating_add_u64_overflow_clamps() {
    assert_eq!(saturating_add_u64(u64::MAX, u64::MAX), u64::MAX);
}

// -----------------------------------------------------------------------
// Rounding and sign cases
// -----------------------------------------------------------------------

#[test]
fn test_checked_div_rounds_toward_zero() {
    assert_eq!(checked_div(-7, 2).unwrap(), -3);
    assert_eq!(checked_div(7, -2).unwrap(), -3);
    assert_eq!(checked_div(-7, -2).unwrap(), 3);
    assert_eq!(checked_div(i128::MIN, 1).unwrap(), i128::MIN);
}

#[test]
fn test_checked_sub_any_difference_that_fits() {
    assert_eq!(checked_sub(-5, 10).unwrap(), -15);
    assert_eq!(checked_sub(5, 10).unwrap(), -5);
    assert_eq!(checked_sub(0, 2).unwrap(), -2);
    assert_eq!(checked_sub(1, 2).unwrap(), -1);
    assert_eq!(checked_sub(5, -10).unwrap(), 15);
    assert_eq!(checked_sub(i128::MAX, -1), Err(Error::Overflow));
}

#[test]
fn test_saturating_sub_clamps_to_max() {
    assert_eq!(saturating_sub(i128::MAX, -1), i128::MAX);
    assert_eq!(saturating_add(i128::MIN, i128::MAX), -1);
}
