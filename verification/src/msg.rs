//! The request and response messages of the engine's external interface.
//! Mutating requests are [`ExecuteMsg`]; read-only requests are
//! [`QueryMsg`], answered by a [`QueryAnswer`].

use vstd::prelude::*;
use crate::state::{Config, EscrowM, EscrowStatus, UserEscrowsM};

verus! {

/// The message that initializes the engine: an optional administrator
/// account (the instantiating sender when absent).
#[derive(Clone, Debug, PartialEq, Eq)]
pub struct InstantiateMsg {
    pub admin: Option<String>,
}

/// One escrow specification inside a batch creation request.
#[derive(Clone, Debug, PartialEq, Eq)]
pub struct EscrowInput {
    pub recipient: String,
    pub hashlock: String,
    pub timelock: u64,
    pub token: String,
    pub amount: u128,
}

/// The model of an [`EscrowInput`].
pub ghost struct EscrowInputM {
    pub recipient: Seq<char>,
    pub hashlock: Seq<char>,
    pub timelock: u64,
    pub token: Seq<char>,
    pub amount: u128,
}

impl View for EscrowInput {
    type V = EscrowInputM;

    open spec fn view(&self) -> EscrowInputM {
        EscrowInputM {
            recipient: self.recipient@,
            hashlock: self.hashlock@,
            timelock: self.timelock,
            token: self.token@,
            amount: self.amount,
        }
    }
}

/// The models of a list of escrow specifications.
pub open spec fn inputs_view(items: Seq<EscrowInput>) -> Seq<EscrowInputM> {
    items.map_values(|it: EscrowInput| it@)
}

/// An escrow specification assembled from its parts.
pub open spec fn input_m(
    recipient: Seq<char>,
    hashlock: Seq<char>,
    timelock: u64,
    token: Seq<char>,
    amount: u128,
) -> EscrowInputM {
    EscrowInputM { recipient, hashlock, timelock, token, amount }
}

/// A mutating request.
#[derive(Clone, Debug, PartialEq, Eq)]
pub enum ExecuteMsg {
    CreateEscrow { recipient: String, hashlock: String, timelock: u64, token: String, amount: u128 },
    CreateBatchEscrows { escrows: Vec<EscrowInput> },
    Claim { hashlock: String, secret: String },
    Refund { hashlock: String },
    UpdateConfig {
        claim_fee: Option<u128>,
        refund_fee: Option<u128>,
        max_batch_size: Option<u32>,
        paused: Option<bool>,
    },
}

/// Which field of an escrow an account query matches against.
#[derive(Clone, Copy, Debug, PartialEq, Eq, Structural)]
pub enum AccountRole {
    Creator,
    Recipient,
}

/// A read-only request; these bypass the pause gate.
#[derive(Clone, Debug, PartialEq, Eq)]
pub enum QueryMsg {
    GetEscrow { hashlock: String },
    GetBatchEscrows { hashlocks: Vec<String> },
    GetUserEscrows { user: String },
    GetConfig {},
    GetEscrowsByAccount { account: String, role: AccountRole },
}

/// The view of one stored escrow.
#[derive(Clone, Debug, PartialEq, Eq)]
pub struct EscrowResponse {
    pub creator: String,
    pub recipient: String,
    pub hashlock: String,
    pub timelock: u64,
    pub token: String,
    pub amount: u128,
    pub status: EscrowStatus,
}

impl View for EscrowResponse {
    type V = EscrowM;

    open spec fn view(&self) -> EscrowM {
        EscrowM {
            creator: self.creator@,
            recipient: self.recipient@,
            hashlock: self.hashlock@,
            timelock: self.timelock,
            token: self.token@,
            amount: self.amount,
            status: self.status,
        }
    }
}

/// The views of several stored escrows.
#[derive(Clone, Debug, PartialEq, Eq)]
pub struct BatchEscrowResponse {
    pub escrows: Vec<EscrowResponse>,
}

/// The models of a list of escrow views.
pub open spec fn responses_view(items: Seq<EscrowResponse>) -> Seq<EscrowM> {
    items.map_values(|e: EscrowResponse| e@)
}

/// The escrows one account created: identifiers in creation order, and
/// their number.
#[derive(Clone, Debug, PartialEq, Eq)]
pub struct UserEscrowsResponse {
    pub escrow_ids: Vec<String>,
    pub count: u64,
}

impl View for UserEscrowsResponse {
    type V = UserEscrowsM;

    open spec fn view(&self) -> UserEscrowsM {
        UserEscrowsM {
            escrow_ids: self.escrow_ids@.map_values(|s: String| s@),
            count: self.count,
        }
    }
}

/// The current configuration.
#[derive(Clone, Copy, Debug, PartialEq, Eq, Structural)]
pub struct ConfigResponse {
    pub claim_fee: u128,
    pub refund_fee: u128,
    pub max_batch_size: u32,
    pub paused: bool,
}

impl ConfigResponse {
    /// The configuration this response reports.
    pub open spec fn as_config(&self) -> Config {
        Config {
            claim_fee: self.claim_fee,
            refund_fee: self.refund_fee,
            max_batch_size: self.max_batch_size,
            paused: self.paused,
        }
    }
}

/// The answer to a [`QueryMsg`], one variant per query.
#[derive(Clone, Debug, PartialEq, Eq)]
pub enum QueryAnswer {
    Escrow(EscrowResponse),
    Batch(BatchEscrowResponse),
    Users(UserEscrowsResponse),
    Config(ConfigResponse),
    ByAccount(BatchEscrowResponse),
}

} // verus!
