//! The error taxonomy of both ledgers.
//!
//! Every failing call returns one of these kinds synchronously and leaves
//! the state untouched; nothing is retried internally.

use vstd::prelude::*;
use vstd::string::StringExecFns;

verus! {

/// Why a call failed.
#[derive(Clone, Copy, PartialEq, Eq, Structural, Debug)]
pub enum Error {
    /// A zero amount where a positive one is required.
    InvalidAmount,
    /// A subtraction would go below zero: balance or allowance too small.
    Underflow,
    /// A mint would push supply or a rank count over its cap, or an
    /// addition would not fit the amount type.
    CapExceeded,
    /// The caller lacks the right to perform the operation.
    Unauthorized,
    /// The addressed record does not exist.
    NotFound,
    /// The record to create already exists.
    AlreadyExists,
    /// A new grant whose expiration has already elapsed.
    InvalidExpiration,
    /// A migration from a version this ledger cannot migrate from.
    VersionMismatch,
}

impl Error {
    /// The failure reason as text, surfaced verbatim in results.
    pub fn message(&self) -> (s: String)
        ensures
            s@ == (match self {
                Error::InvalidAmount => "Invalid zero amount"@,
                Error::Underflow => "Cannot subtract more than there is"@,
                Error::CapExceeded => "Minting cannot exceed the cap"@,
                Error::Unauthorized => "Unauthorized"@,
                Error::NotFound => "Not found"@,
                Error::AlreadyExists => "token_id already claimed"@,
                Error::InvalidExpiration => "Cannot set approval that is already expired"@,
                Error::VersionMismatch => "Cannot migrate from this version"@,
            }),
    {
        match self {
            Error::InvalidAmount => String::from_str("Invalid zero amount"),
            Error::Underflow => String::from_str("Cannot subtract more than there is"),
            Error::CapExceeded => String::from_str("Minting cannot exceed the cap"),
            Error::Unauthorized => String::from_str("Unauthorized"),
            Error::NotFound => String::from_str("Not found"),
            Error::AlreadyExists => String::from_str("token_id already claimed"),
            Error::InvalidExpiration => String::from_str("Cannot set approval that is already expired"),
            Error::VersionMismatch => String::from_str("Cannot migrate from this version"),
        }
    }
}

} // verus!
