//! A verified hashlock/timelock escrow (HTLC) engine.
//!
//! A creator locks a quantity of a native asset under a cryptographic
//! commitment (the hashlock, the hex text of a 32-byte digest of a secret)
//! and an absolute expiry time (the timelock). The recipient can claim the
//! funds by revealing the secret strictly before expiry; once the timelock
//! has passed, the creator can refund unclaimed funds. The state machine in
//! [`contract::EscrowStateMachine`] validates every request, keeps the
//! escrow and user-index stores, and emits transfer instructions and events;
//! its behaviour is stated in `ensures` clauses and proved by Verus, and the
//! engine-wide guarantees are proved in [`laws`].

pub mod addr;
pub mod codec;
pub mod contract;
pub mod digest;
pub mod error;
pub mod laws;
pub mod msg;
pub mod response;
pub mod state;

pub use error::ContractError;
