//! An in-memory bank ledger: accounts keyed by a case-insensitively unique
//! owner name, with balance transfers validated for self-transfer, currency
//! match, and sufficient funds, and proved to conserve money.

pub mod api_errors;
pub mod bank_repo;
pub mod config;
pub mod domain;
pub mod errors;
pub mod laws;
