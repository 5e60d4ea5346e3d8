//! Result-checking helpers that report the offending value, and their tests.

use carbonmint_contract::Error;
use std::fmt::Debug;

/// Returns the `Ok` value of `result`, or panics naming the error and the
/// expression that produced it.
fn assert_ok<T, E: Debug>(result: Result<T, E>, expression: &str) -> T {
    match result {
        Ok(val) => val,
        Err(e) => panic!(
            "assert_ok failed: expected Ok(_), got Err({:?})\n  expression: `{}`",
            e, expression
        ),
    }
}

/// Panics unless `result` is an `Err` accepted by `accepts`; `expected`
/// describes the accepted errors in the panic message.
fn assert_err<T: Debug>(
    result: Result<T, Error>,
    accepts: impl Fn(&Error) -> bool,
    expected: &str,
    expression: &str,
) {
    match result {
        Err(e) if accepts(&e) => {}
        Err(other) => panic!(
            "assert_err failed: expected {}, got Err({:?})\n  expression: `{}`",
            expected, other, expression
        ),
        Ok(val) => panic!(
            "assert_err failed: expected Err(_), got Ok({:?})\n  expression: `{}`",
            val, expression
        ),
    }
}

#[test]
fn assert_ok_returns_inner_value() {
    let result: Result<i128, Error> = Ok(42);
    let val = assert_ok(result, "result");
    assert_eq!(val, 42);
}

#[test]
#[should_panic(expected = "assert_ok failed: expected Ok(_), got Err(Overflow)")]
fn assert_ok_panics_on_err() {
    let result: Result<i128, Error> = Err(Error::Overflow);
    assert_ok(result, "result");
}

#[test]
#[should_panic(expected = "assert_ok failed: expected Ok(_), got Err(InvalidAmount)")]
fn assert_ok_panics_with_correct_error() {
    let result: Result<i128, Error> = Err(Error::InvalidAmount);
    assert_ok(result, "result");
}

#[test]
fn assert_ok_works_with_trailing_comma() {
    let result: Result<u64, Error> = Ok(7);
    let val = assert_ok(result, "result,");
    assert_eq!(val, 7);
}

#[test]
fn assert_err_matches_expected_variant() {
    let result: Result<i128, Error> = Err(Error::Overflow);
    assert_err(result, |e| matches!(e, Error::Overflow), "Error::Overflow", "result");
}

#[test]
#[should_panic(
    expected = "assert_err failed: expected Error::AlreadyInitialized, got Err(Overflow)"
)]
fn assert_err_panics_on_wrong_variant() {
    let result: Result<i128, Error> = Err(Error::Overflow);
    assert_err(
        result,
        |e| matches!(e, Error::AlreadyInitialized),
        "Error::AlreadyInitialized",
        "result",
    );
}

#[test]
#[should_panic(expected = "assert_err failed: expected Err(_), got Ok(1)")]
fn assert_err_panics_on_ok() {
    let result: Result<i64, Error> = Ok(1);
    assert_err(result, |e| matches!(e, Error::Overflow), "Error::Overflow", "result");
}

#[test]
fn assert_err_works_with_trailing_comma() {
    let result: Result<i128, Error> = Err(Error::Paused);
    assert_err(result, |e| matches!(e, Error::Paused), "Error::Paused", "result,");
}

#[test]
fn assert_err_matches_any_variant() {
    // Ensures each variant is matchable.
    let cases: &[Error] = &[
        Error::AlreadyInitialized,
        Error::NotInitialized,
        Error::BatchNotFound,
        Error::InvalidAmount,
        Error::InsufficientBalance,
        Error::Unauthorized,
        Error::Overflow,
        Error::NotListed,
        Error::Paused,
        Error::SameAccount,
    ];
    for &variant in cases {
        let result: Result<i128, Error> = Err(variant);
        assert_err(
            result,
            |e| {
                matches!(
                    e,
                    Error::AlreadyInitialized
                        | Error::NotInitialized
                        | Error::BatchNotFound
                        | Error::InvalidAmount
                        | Error::InsufficientBalance
                        | Error::Unauthorized
                        | Error::Overflow
                        | Error::NotListed
                        | Error::Paused
                        | Error::SameAccount
                )
            },
            "Error::AlreadyInitialized | ... | Error::SameAccount",
            "result",
        );
    }
}
