//! The error taxonomy: process-level errors and the domain errors every
//! store operation can return.

use vstd::prelude::*;

verus! {

/// Process-level errors, raised where continuing is pointless.
#[derive(Debug)]
pub enum AppError {
    /// A configuration parameter is missing or malformed: parameter name,
    /// then a description of what was wrong.
    Configuration(String, String),
    /// A data-layer access failed.
    Database(String),
}

impl AppError {
    /// Builds an [`AppError::Configuration`]; an empty parameter name is
    /// replaced by the generic label.
    pub fn cfg_err(name: String, err_msg: String) -> (r: AppError)
        ensures
            r matches AppError::Configuration(n, m) && m@ == err_msg@,
            name@.len() == 0 ==> (r matches AppError::Configuration(n, m) && n@ == "ОБЩАЯ"@),
            name@.len() > 0 ==> (r matches AppError::Configuration(n, m) && n@ == name@),
    {
        let name = if name.as_str().is_empty() {
            "ОБЩАЯ".to_owned()
        } else {
            name
        };

        AppError::Configuration(name, err_msg)
    }

    /// Builds an [`AppError::Database`].
    pub fn db_err(err_msg: String) -> (r: AppError)
        ensures
            r matches AppError::Database(m) && m@ == err_msg@,
    {
        AppError::Database(err_msg)
    }
}

/// Domain errors of the ledger store, surfaced unchanged to the boundary.
#[derive(Debug)]
pub enum BankError {
    /// Malformed or rule-violating input (self-transfer, currency mismatch).
    Validation(String),
    /// The referenced owner or account does not exist.
    NotFound(String),
    /// The source balance cannot cover the transfer.
    InsufficientFunds,
    /// Reserved for future authorization checks; never raised today.
    Unauthorized,
    /// Data-layer rule violation (e.g. a duplicate owner at creation).
    Database(String),
}

impl BankError {
    /// Builds a [`BankError::Validation`].
    pub fn validation(msg: String) -> (r: BankError)
        ensures
            r matches BankError::Validation(m) && m@ == msg@,
    {
        BankError::Validation(msg)
    }

    /// Builds a [`BankError::NotFound`].
    pub fn not_found(msg: String) -> (r: BankError)
        ensures
            r matches BankError::NotFound(m) && m@ == msg@,
    {
        BankError::NotFound(msg)
    }

    /// Builds a [`BankError::Database`].
    pub fn db_err(msg: String) -> (r: BankError)
        ensures
            r matches BankError::Database(m) && m@ == msg@,
    {
        BankError::Database(msg)
    }
}

} // verus!
