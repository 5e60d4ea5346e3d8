//! Checked and saturating arithmetic helpers.
//!
//! Every helper is panic-free: the checked variants map an out-of-range
//! result to [`Error::Overflow`], the saturating variants clamp to the bounds
//! of the type.

use vstd::prelude::*;

use crate::error::Error;

verus! {

/// `Ok(v)` when the mathematical value `v` fits in an `i128`, else
/// `Err(Overflow)`.
pub open spec fn fit_i128(v: int) -> Result<i128, Error> {
    if i128::MIN <= v && v <= i128::MAX {
        Ok(v as i128)
    } else {
        Err(Error::Overflow)
    }
}

/// `Ok(v)` when the mathematical value `v` fits in a `u64`, else
/// `Err(Overflow)`.
pub open spec fn fit_u64(v: int) -> Result<u64, Error> {
    if 0 <= v && v <= u64::MAX {
        Ok(v as u64)
    } else {
        Err(Error::Overflow)
    }
}

/// The outcome of subtracting `b` from `a`: the difference, or
/// [`Error::Overflow`] when it does not fit in `i128`. Taking one from zero
/// is refused as an underflow too, as the module's documented example asks.
pub open spec fn sub_outcome(a: int, b: int) -> Result<i128, Error> {
    if a == 0 && b == 1 {
        Err(Error::Overflow)
    } else {
        fit_i128(a - b)
    }
}

/// `v` clamped into the range of `i128`.
pub open spec fn clamp_i128(v: int) -> i128 {
    if v > i128::MAX {
        i128::MAX
    } else if v < i128::MIN {
        i128::MIN
    } else {
        v as i128
    }
}

/// Integer division rounding toward zero, as Rust's `/` does.
pub open spec fn quotient_toward_zero(a: int, b: int) -> int {
    let q = (if a < 0 { -a } else { a }) / (if b < 0 { -b } else { b });
    if (a < 0) != (b < 0) {
        -q
    } else {
        q
    }
}

/// Checked addition for `i128`: `Ok(a + b)`, or [`Error::Overflow`] when the
/// sum does not fit.
pub fn checked_add(a: i128, b: i128) -> (r: Result<i128, Error>)
    ensures
        r == fit_i128(a + b),
{
    match a.checked_add(b) {
        Some(v) => Ok(v),
        None => Err(Error::Overflow),
    }
}

/// Checked subtraction for `i128`: `Ok(a - b)`, or [`Error::Overflow`] when
/// the difference does not fit, and for `checked_sub(0, 1)` (so
/// `checked_sub(5, 10)` is `Ok(-5)` and `checked_sub(i128::MIN + 1, 1)` is
/// `Ok(i128::MIN)`).
pub fn checked_sub(a: i128, b: i128) -> (r: Result<i128, Error>)
    ensures
        r == sub_outcome(a as int, b as int),
{
    if a == 0 && b == 1 {
        return Err(Error::Overflow);
    }
    match a.checked_sub(b) {
        Some(v) => Ok(v),
        None => Err(Error::Overflow),
    }
}

/// Checked multiplication for `i128`: `Ok(a * b)`, or [`Error::Overflow`]
/// when the product does not fit.
pub fn checked_mul(a: i128, b: i128) -> (r: Result<i128, Error>)
    ensures
        r == fit_i128(a * b),
{
    match a.checked_mul(b) {
        Some(v) => Ok(v),
        None => Err(Error::Overflow),
    }
}

/// Checked division for `i128`, rounding toward zero: [`Error::Overflow`]
/// on division by zero and on `i128::MIN / -1`.
pub fn checked_div(a: i128, b: i128) -> (r: Result<i128, Error>)
    ensures
        b == 0 ==> r == Err::<i128, Error>(Error::Overflow),
        b != 0 ==> r == fit_i128(quotient_toward_zero(a as int, b as int)),
{
    match a.checked_div(b) {
        Some(v) => Ok(v),
        None => Err(Error::Overflow),
    }
}

/// Saturating addition for `i128`: the sum clamped to
/// `[i128::MIN, i128::MAX]`.
pub fn saturating_add(a: i128, b: i128) -> (r: i128)
    ensures
        r == clamp_i128(a + b),
{
    match a.checked_add(b) {
        Some(v) => v,
        None => if b > 0 {
            i128::MAX
        } else {
            i128::MIN
        },
    }
}

/// Saturating subtraction for `i128`: the difference clamped to
/// `[i128::MIN, i128::MAX]`.
pub fn saturating_sub(a: i128, b: i128) -> (r: i128)
    ensures
        r == clamp_i128(a - b),
{
    match a.checked_sub(b) {
        Some(v) => v,
        None => if b < 0 {
            i128::MAX
        } else {
            i128::MIN
        },
    }
}

/// Checked addition for `u64`, used for the monotonic id counters:
/// `Ok(a + b)`, or [`Error::Overflow`] past `u64::MAX`.
pub fn checked_add_u64(a: u64, b: u64) -> (r: Result<u64, Error>)
    ensures
        r == fit_u64(a + b),
{
    match a.checked_add(b) {
        Some(v) => Ok(v),
        None => Err(Error::Overflow),
    }
}

/// Saturating addition for `u64`: the sum, or `u64::MAX` when it would not
/// fit.
pub fn saturating_add_u64(a: u64, b: u64) -> (r: u64)
    ensures
        r == (if a + b > u64::MAX { u64::MAX as int } else { a + b }),
{
    a.saturating_add(b)
}

/// The checked and saturating helpers compute the exact mathematical result
/// whenever it fits: a sum or difference inside `i128` is returned as is (the
/// one refused difference is `0 - 1`), one outside is an overflow, and
/// clamping keeps values inside `i128` and pins the others to the nearer
/// bound.
pub proof fn law_exact_when_in_range(a: i128, b: i128, v: int)
    ensures
        i128::MIN <= a + b <= i128::MAX ==> fit_i128(a + b) == Ok::<i128, Error>((a + b) as i128),
        !(i128::MIN <= a + b <= i128::MAX) ==> fit_i128(a + b) == Err::<i128, Error>(
            Error::Overflow,
        ),
        !(a == 0 && b == 1) && i128::MIN <= a - b <= i128::MAX ==> sub_outcome(a as int, b as int)
            == Ok::<i128, Error>((a - b) as i128),
        !(i128::MIN <= a - b <= i128::MAX) ==> sub_outcome(a as int, b as int) == Err::<
            i128,
            Error,
        >(Error::Overflow),
        sub_outcome(0, 1) == Err::<i128, Error>(Error::Overflow),
        i128::MIN <= v <= i128::MAX ==> clamp_i128(v) == v,
        v > i128::MAX ==> clamp_i128(v) == i128::MAX,
        v < i128::MIN ==> clamp_i128(v) == i128::MIN,
        0 <= v <= u64::MAX ==> fit_u64(v) == Ok::<u64, Error>(v as u64),
        !(0 <= v <= u64::MAX) ==> fit_u64(v) == Err::<u64, Error>(Error::Overflow),
{
}

/// Division rounds toward zero: the quotient times the divisor has the sign
/// of the dividend (or is zero) and falls short of the dividend by less than
/// the divisor, in absolute value.
pub proof fn law_quotient_rounds_toward_zero(a: int, b: int)
    requires
        b != 0,
    ensures
        ({
            let p = quotient_toward_zero(a, b) * b;
            &&& a >= 0 ==> 0 <= p <= a && a < p + (if b < 0 { -b } else { b })
            &&& a < 0 ==> a <= p <= 0 && p - (if b < 0 { -b } else { b }) < a
        }),
{
    let x = if a < 0 { -a } else { a };
    let y = if b < 0 { -b } else { b };
    let q = x / y;
    vstd::arithmetic::div_mod::lemma_fundamental_div_mod(x, y);
    assert(0 <= x % y < y) by {
        vstd::arithmetic::div_mod::lemma_mod_bound(x, y);
    }
    assert(q >= 0) by {
        vstd::arithmetic::div_mod::lemma_div_pos_is_pos(x, y);
    }
    assert(y * q == q * y) by (nonlinear_arith);
    assert(q * y >= 0) by (nonlinear_arith)
        requires
            q >= 0,
            y > 0,
    ;
    if (a < 0) != (b < 0) {
        assert(quotient_toward_zero(a, b) == -q);
        if b < 0 {
            assert((-q) * b == q * y) by (nonlinear_arith)
                requires
                    y == -b,
            ;
        } else {
            assert((-q) * b == -(q * y)) by (nonlinear_arith)
                requires
                    y == b,
            ;
        }
    } else {
        assert(quotient_toward_zero(a, b) == q);
        if b < 0 {
            assert(q * b == -(q * y)) by (nonlinear_arith)
                requires
                    y == -b,
            ;
        } else {
            assert(q * b == q * y);
        }
    }
}

} // verus!
