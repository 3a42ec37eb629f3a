use htlc::contract::{ClaimPolicy, EscrowStateMachine};
use htlc::digest::HashAlgo;
use htlc::msg::InstantiateMsg;
use htlc::response::{Attribute, Response, TransferMsg};
use htlc::state::{Escrow, EscrowStatus};
use htlc::ContractError;

/// The wall-clock second every test runs at.
const NOW: u64 = 1_571_797_419;

fn machine() -> EscrowStateMachine {
    let sender = "creator".to_string();
    EscrowStateMachine::instantiate(
        &sender,
        InstantiateMsg { admin: None },
        HashAlgo::Keccak256,
        ClaimPolicy::Open,
    )
}

fn attr(key: &str, value: &str) -> Attribute {
    Attribute { key: key.to_string(), value: value.to_string() }
}

// Helper to create a basic escrow struct (doesn't save to storage).
fn create_test_escrow() -> Escrow {
    Escrow {
        creator: "creator".to_string(),
        recipient: "recipient".to_string(),
        hashlock: "test_hashlock".to_string(),
        timelock: NOW + 3600,
        token: "uatom".to_string(),
        amount: 1000,
        status: EscrowStatus::Active,
    }
}

// Helper to save an escrow with custom hashlock and timelock.
fn save_test_escrow(sm: &mut EscrowStateMachine, hashlock: String, timelock: u64) {
    let escrow = Escrow { hashlock: hashlock.clone(), timelock, ..create_test_escrow() };
    sm.escrows.save(escrow);
}

#[test]
fn happy_path_refund() {
    let mut sm = machine();
    let hashlock = "test_hashlock".to_string();

    // Set escrow to expire 1 second ago.
    let expired_timelock = NOW - 1;
    save_test_escrow(&mut sm, hashlock.clone(), expired_timelock);

    // Only the recorded creator may refund.
    let caller = "creator".to_string();
    let res = sm.execute_refund(NOW, &caller, hashlock.clone()).unwrap();

    // Verify response.
    assert_eq!(
        res,
        Response {
            messages: vec![TransferMsg {
                to_address: "creator".to_string(),
                denom: "uatom".to_string(),
                amount: 1000,
            }],
            attributes: vec![
                attr("action", "refund"),
                attr("escrow", hashlock.as_str()),
                attr("creator", "creator"),
                attr("amount", "1000"),
            ],
        }
    );

    // Verify state updated.
    let escrow = sm.query_escrow(&hashlock).unwrap();
    assert!(escrow.status == EscrowStatus::Refunded);
}

#[test]
fn rejects_nonexistent_escrow() {
    let mut sm = machine();
    let hashlock = "nonexistent_hash".to_string();

    let caller = "anyone".to_string();
    let err = sm.execute_refund(NOW, &caller, hashlock).unwrap_err();

    assert_eq!(err, ContractError::EscrowNotFound);
}

#[test]
fn execute_refund_rejects_already_claimed() {
    let mut sm = machine();
    let hashlock = "test_hashlock".to_string();
    let mut escrow = create_test_escrow();
    escrow.status = EscrowStatus::Claimed;
    sm.escrows.save(escrow);

    let caller = "anyone".to_string();
    let err = sm.execute_refund(NOW, &caller, hashlock).unwrap_err();

    assert_eq!(err, ContractError::EscrowClosed);
}

#[test]
fn rejects_already_refunded() {
    let mut sm = machine();
    let hashlock = "test_hashlock".to_string();
    let mut escrow = create_test_escrow();
    escrow.status = EscrowStatus::Refunded;
    sm.escrows.save(escrow);

    let caller = "anyone".to_string();
    let err = sm.execute_refund(NOW, &caller, hashlock).unwrap_err();

    assert_eq!(err, ContractError::EscrowClosed);
}

#[test]
fn rejects_premature_refund() {
    let mut sm = machine();
    let hashlock = "test_hashlock".to_string();

    // Set escrow to expire in the future.
    let future_timelock = NOW + 3600;
    save_test_escrow(&mut sm, hashlock.clone(), future_timelock);

    let caller = "anyone".to_string();
    let err = sm.execute_refund(NOW, &caller, hashlock).unwrap_err();

    match err {
        ContractError::TimelockNotExpired { .. } => (),
        _ => panic!("Expected TimelockNotExpired error"),
    }
}

#[test]
fn rejects_unsupported_token() {
    let mut sm = machine();
    let hashlock = "test_hashlock".to_string();

    // Create escrow with unsupported token, already expired.
    let mut escrow = create_test_escrow();
    escrow.token = "unsupported_token".to_string();
    escrow.timelock = NOW - 1;
    sm.escrows.save(escrow);

    // The creator passes the authorization check and trips over the token.
    let caller = "creator".to_string();
    let err = sm.execute_refund(NOW, &caller, hashlock).unwrap_err();

    assert_eq!(err, ContractError::UnsupportedToken("unsupported_token".to_string()));
}
