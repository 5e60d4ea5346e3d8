//! Errors returned by the registry's entrypoints and arithmetic helpers.

use vstd::prelude::*;

verus! {

/// Errors that can be returned by the CarbonMint registry.
///
/// Each variant has a stable numeric code (see [`Error::code`]) under which
/// it is reported on chain.
#[derive(Clone, Copy, Debug, PartialEq, Eq, Structural, PartialOrd, Ord, Hash)]
pub enum Error {
    /// The registry has already been initialized.
    AlreadyInitialized,
    /// The registry has not been initialized yet.
    NotInitialized,
    /// No batch (or retirement certificate) exists for the supplied identifier.
    BatchNotFound,
    /// The supplied amount is zero or negative, or the price is negative.
    InvalidAmount,
    /// The holder does not have enough credits for the operation.
    InsufficientBalance,
    /// The caller is not authorized to perform this action.
    Unauthorized,
    /// An arithmetic operation overflowed.
    Overflow,
    /// The batch is not currently listed for sale.
    NotListed,
    /// Minting is paused by the admin.
    Paused,
    /// The source and destination of a transfer are the same account.
    SameAccount,
    /// A batch transfer names zero recipients or more than the maximum.
    TooManyRecipients,
}

/// The stable numeric code of each error.
pub open spec fn error_code(e: Error) -> u32 {
    match e {
        Error::AlreadyInitialized => 1,
        Error::NotInitialized => 2,
        Error::BatchNotFound => 3,
        Error::InvalidAmount => 4,
        Error::InsufficientBalance => 5,
        Error::Unauthorized => 6,
        Error::Overflow => 7,
        Error::NotListed => 8,
        Error::Paused => 9,
        Error::SameAccount => 10,
        Error::TooManyRecipients => 11,
    }
}

impl Error {
    /// Returns the numeric code under which this error is reported.
    pub fn code(&self) -> (c: u32)
        ensures
            c == error_code(*self),
    {
        match self {
            Error::AlreadyInitialized => 1,
            Error::NotInitialized => 2,
            Error::BatchNotFound => 3,
            Error::InvalidAmount => 4,
            Error::InsufficientBalance => 5,
            Error::Unauthorized => 6,
            Error::Overflow => 7,
            Error::NotListed => 8,
            Error::Paused => 9,
            Error::SameAccount => 10,
            Error::TooManyRecipients => 11,
        }
    }
}

} // verus!
