//! The boundary's error mapping: which HTTP status class each domain error
//! is reported under.

use vstd::prelude::*;

use crate::errors::BankError;

verus! {

/// A domain error as the HTTP boundary reports it.
#[derive(Debug)]
pub enum BankApiError {
    /// An error of the ledger store.
    Domain(BankError),
}

/// The HTTP status code each domain error maps to: rule violations,
/// insufficient funds and data-layer errors are client errors (400), a
/// missing owner is 404, and the reserved authorization error is 401.
pub open spec fn spec_status_code(e: BankApiError) -> u16 {
    match e {
        BankApiError::Domain(err) => match err {
            BankError::Validation(_) => 400,
            BankError::InsufficientFunds => 400,
            BankError::Database(_) => 400,
            BankError::NotFound(_) => 404,
            BankError::Unauthorized => 401,
        },
    }
}

impl BankApiError {
    /// The HTTP status code this error is reported under.
    pub fn status_code(&self) -> (r: u16)
        ensures
            r == spec_status_code(*self),
    {
        match self {
            BankApiError::Domain(err) => match err {
                BankError::Validation(_) => 400,
                BankError::InsufficientFunds => 400,
                BankError::Database(_) => 400,
                BankError::NotFound(_) => 404,
                BankError::Unauthorized => 401,
            },
        }
    }
}

impl From<BankError> for BankApiError {
    /// Wraps a domain error unchanged.
    fn from(err: BankError) -> (r: BankApiError) {
        BankApiError::Domain(err)
    }
}

impl vstd::std_specs::convert::FromSpecImpl<BankError> for BankApiError {
    open spec fn obeys_from_spec() -> bool {
        true
    }

    open spec fn from_spec(err: BankError) -> BankApiError {
        BankApiError::Domain(err)
    }
}

} // verus!
