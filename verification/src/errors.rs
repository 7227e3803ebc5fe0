//! The error taxonomy of the ledger service, and its mapping to HTTP status
//! codes and user-facing messages.

use vstd::prelude::*;

verus! {

/// Every way a ledger operation can fail.
///
/// `InsufficientFunds` is reported as `BalanceLow` and `AccountNotFound` as
/// `UserNotFound`. `Conflict` covers a write that clashes with an already
/// committed one (a reused transaction id, a taken username) and exhausted
/// retries under contention; `StorageUnavailable` a store that cannot be
/// reached at all.
#[derive(Clone, Copy, Debug, PartialEq, Eq, Structural)]
pub enum ApiError {
    /// A transfer of a non-positive amount.
    InvalidAmount,
    /// A transfer from an account to itself.
    InvalidTransfer,
    /// A login with a wrong password.
    InvalidCredentials,
    /// An account identity that does not exist.
    UserNotFound,
    /// A transfer of more than the sender holds.
    BalanceLow,
    /// A write that clashes with a committed one, or exhausted retries.
    Conflict,
    /// A caller acting for an identity it has not proven.
    Unauthorized,
    /// An input rejected before any mutation, such as an opening balance
    /// the store cannot represent.
    Validation,
    /// The underlying store is unreachable; fatal to the call.
    StorageUnavailable,
    /// An unexpected server-side fault.
    InternalServerError,
}

/// The HTTP status code that reports this error, as a plain number.
pub open spec fn spec_status_code(e: ApiError) -> u16 {
    match e {
        ApiError::InvalidCredentials => 401,
        ApiError::Unauthorized => 401,
        ApiError::UserNotFound => 404,
        ApiError::InvalidAmount => 400,
        ApiError::InvalidTransfer => 400,
        ApiError::BalanceLow => 400,
        ApiError::Validation => 400,
        ApiError::Conflict => 409,
        ApiError::StorageUnavailable => 500,
        ApiError::InternalServerError => 500,
    }
}

/// The user-facing message of this error.
pub open spec fn spec_message(e: ApiError) -> Seq<char> {
    match e {
        ApiError::InvalidAmount => "Transfer amount must be positive"@,
        ApiError::InvalidTransfer => "Cannot transfer to the same account"@,
        ApiError::InvalidCredentials => "Invalid credentials"@,
        ApiError::UserNotFound => "User not found"@,
        ApiError::BalanceLow => "Balance too low for transaction"@,
        ApiError::Conflict => "Conflicting concurrent write"@,
        ApiError::Unauthorized => "Unauthorized"@,
        ApiError::Validation => "Validation error"@,
        ApiError::StorageUnavailable => "Storage unavailable"@,
        ApiError::InternalServerError => "Internal server error"@,
    }
}

impl ApiError {
    /// The HTTP status code of the response that reports this error.
    pub fn status_code(&self) -> (c: u16)
        ensures
            c == spec_status_code(*self),
    {
        match self {
            ApiError::InvalidCredentials => 401,
            ApiError::Unauthorized => 401,
            ApiError::UserNotFound => 404,
            ApiError::InvalidAmount => 400,
            ApiError::InvalidTransfer => 400,
            ApiError::BalanceLow => 400,
            ApiError::Validation => 400,
            ApiError::Conflict => 409,
            ApiError::StorageUnavailable => 500,
            ApiError::InternalServerError => 500,
        }
    }

    /// The body of the response that reports this error.
    pub fn message(&self) -> (m: &'static str)
        ensures
            m@ == spec_message(*self),
    {
        match self {
            ApiError::InvalidAmount => "Transfer amount must be positive",
            ApiError::InvalidTransfer => "Cannot transfer to the same account",
            ApiError::InvalidCredentials => "Invalid credentials",
            ApiError::UserNotFound => "User not found",
            ApiError::BalanceLow => "Balance too low for transaction",
            ApiError::Conflict => "Conflicting concurrent write",
            ApiError::Unauthorized => "Unauthorized",
            ApiError::Validation => "Validation error",
            ApiError::StorageUnavailable => "Storage unavailable",
            ApiError::InternalServerError => "Internal server error",
        }
    }
}

} // verus!
