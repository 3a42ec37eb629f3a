//! The failure modes of the escrow engine. Every error is a distinct,
//! matchable kind and is returned directly to the caller; a failing call
//! leaves all persisted state unchanged.

use vstd::prelude::*;

verus! {

/// An error returned by the escrow engine.
#[derive(Clone, Debug, PartialEq, Eq)]
pub enum ContractError {
    /// The recipient text is not a well-formed account identifier.
    InvalidAddress,
    /// The hashlock text does not denote exactly 32 bytes of hexadecimal
    /// digits (after one optional `0x` prefix); carries the offending text.
    InvalidHashlock(String),
    /// The timelock is not strictly in the future.
    InvalidTimelock { current: u64, timelock: u64 },
    /// A batch is empty or exceeds the configured maximum size.
    InvalidBatchSize,
    /// The token is not the supported native denomination.
    UnsupportedToken(String),
    /// The escrowed amount is zero.
    InvalidFunds,
    /// The funds attached to the call fall short of the escrowed amount.
    InsufficientFunds { required: u128, sent: u128 },
    /// No escrow is stored under the given identifier.
    EscrowNotFound,
    /// An escrow with the same hashlock already exists.
    EscrowAlreadyExists,
    /// The escrow was already claimed or refunded.
    EscrowClosed,
    /// A refund was attempted before the timelock passed.
    TimelockNotExpired { expires: u64, current: u64 },
    /// A claim was attempted at or after the timelock.
    TimelockExpired,
    /// Only the recorded creator may refund.
    UnauthorizedRefund,
    /// Only the recorded recipient may claim.
    UnauthorizedRedeem,
    /// The revealed secret does not hash to the stored hashlock.
    InvalidSecret,
    /// All mutating operations are suspended.
    ContractPaused,
    /// Only the administrator may update the configuration.
    Unauthorized,
}

/// The mathematical model of a [`ContractError`]: the same kinds, with text
/// payloads as character sequences.
pub ghost enum ErrorM {
    InvalidAddress,
    InvalidHashlock(Seq<char>),
    InvalidTimelock { current: u64, timelock: u64 },
    InvalidBatchSize,
    UnsupportedToken(Seq<char>),
    InvalidFunds,
    InsufficientFunds { required: u128, sent: u128 },
    EscrowNotFound,
    EscrowAlreadyExists,
    EscrowClosed,
    TimelockNotExpired { expires: u64, current: u64 },
    TimelockExpired,
    UnauthorizedRefund,
    UnauthorizedRedeem,
    InvalidSecret,
    ContractPaused,
    Unauthorized,
}

impl View for ContractError {
    type V = ErrorM;

    open spec fn view(&self) -> ErrorM {
        match *self {
            ContractError::InvalidAddress => ErrorM::InvalidAddress,
            ContractError::InvalidHashlock(ref s) => ErrorM::InvalidHashlock(s@),
            ContractError::InvalidTimelock { current, timelock } => ErrorM::InvalidTimelock {
                current,
                timelock,
            },
            ContractError::InvalidBatchSize => ErrorM::InvalidBatchSize,
            ContractError::UnsupportedToken(ref s) => ErrorM::UnsupportedToken(s@),
            ContractError::InvalidFunds => ErrorM::InvalidFunds,
            ContractError::InsufficientFunds { required, sent } => ErrorM::InsufficientFunds {
                required,
                sent,
            },
            ContractError::EscrowNotFound => ErrorM::EscrowNotFound,
            ContractError::EscrowAlreadyExists => ErrorM::EscrowAlreadyExists,
            ContractError::EscrowClosed => ErrorM::EscrowClosed,
            ContractError::TimelockNotExpired { expires, current } => ErrorM::TimelockNotExpired {
                expires,
                current,
            },
            ContractError::TimelockExpired => ErrorM::TimelockExpired,
            ContractError::UnauthorizedRefund => ErrorM::UnauthorizedRefund,
            ContractError::UnauthorizedRedeem => ErrorM::UnauthorizedRedeem,
            ContractError::InvalidSecret => ErrorM::InvalidSecret,
            ContractError::ContractPaused => ErrorM::ContractPaused,
            ContractError::Unauthorized => ErrorM::Unauthorized,
        }
    }
}

} // verus!
