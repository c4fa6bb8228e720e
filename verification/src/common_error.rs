//! Error codes shared across the contracts.
use vstd::prelude::*;

verus! {

/// Standard error codes shared across the contracts.
#[derive(Debug, Clone, Copy, PartialEq, Eq, Structural)]
pub enum CommonError {
    AlreadyInitialized,
    NotInitialized,
    Unauthorized,
    ContractPaused,
    ArithmeticError,
    InvalidAddress,
    InvalidToken,
    InsufficientBalance,
    TransferFailed,
    InvalidAmount,
    DeadlineReached,
    Timeout,
    VersionMismatch,
    AccessDenied,
}

impl CommonError {
    /// The numeric code of each error: they are numbered from 100 in the order above.
    pub open spec fn spec_code(self) -> u32 {
        match self {
            CommonError::AlreadyInitialized => 100,
            CommonError::NotInitialized => 101,
            CommonError::Unauthorized => 102,
            CommonError::ContractPaused => 103,
            CommonError::ArithmeticError => 104,
            CommonError::InvalidAddress => 105,
            CommonError::InvalidToken => 106,
            CommonError::InsufficientBalance => 107,
            CommonError::TransferFailed => 108,
            CommonError::InvalidAmount => 109,
            CommonError::DeadlineReached => 110,
            CommonError::Timeout => 111,
            CommonError::VersionMismatch => 112,
            CommonError::AccessDenied => 113,
        }
    }

    /// The numeric code of the error.
    pub fn code(&self) -> (r: u32)
        ensures
            r == self.spec_code(),
    {
        match self {
            CommonError::AlreadyInitialized => 100,
            CommonError::NotInitialized => 101,
            CommonError::Unauthorized => 102,
            CommonError::ContractPaused => 103,
            CommonError::ArithmeticError => 104,
            CommonError::InvalidAddress => 105,
            CommonError::InvalidToken => 106,
            CommonError::InsufficientBalance => 107,
            CommonError::TransferFailed => 108,
            CommonError::InvalidAmount => 109,
            CommonError::DeadlineReached => 110,
            CommonError::Timeout => 111,
            CommonError::VersionMismatch => 112,
            CommonError::AccessDenied => 113,
        }
    }
}

} // verus!
