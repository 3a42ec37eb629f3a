use htlc::contract::{ClaimPolicy, EscrowStateMachine};
use htlc::digest::HashAlgo;
use htlc::msg::InstantiateMsg;
use htlc::response::{Attribute, Response, TransferMsg};
use htlc::state::{Escrow, EscrowStatus};
use htlc::ContractError;
use sha3::{Digest, Keccak256};

/// The wall-clock second every test runs at.
const NOW: u64 = 1_571_797_419;

fn machine() -> EscrowStateMachine {
    let sender = "creator".to_string();
    EscrowStateMachine::instantiate(
        &sender,
        InstantiateMsg { admin: None },
        HashAlgo::Keccak256,
        ClaimPolicy::Open,
    )
}

fn attr(key: &str, value: &str) -> Attribute {
    Attribute { key: key.to_string(), value: value.to_string() }
}

// Helper to create a test escrow in the store.
fn setup_test_escrow(sm: &mut EscrowStateMachine, hashlock: String, recipient: String) {
    let escrow = Escrow {
        creator: "creator".to_string(),
        recipient,
        hashlock: hashlock.clone(),
        timelock: NOW + 3600,
        token: "uatom".to_string(),
        amount: 1000,
        status: EscrowStatus::Active,
    };
    sm.escrows.save(escrow);
}

// Helper to create a default escrow for testing.
fn create_test_escrow() -> Escrow {
    Escrow {
        creator: "creator".to_string(),
        recipient: "recipient".to_string(),
        hashlock: "test_hashlock".to_string(),
        timelock: NOW + 3600,
        token: "uatom".to_string(),
        amount: 1000,
        status: EscrowStatus::Active,
    }
}

#[test]
fn happy_path_claim() {
    let mut sm = machine();

    // Test data
    let secret = b"32_byte_secret_1234567890123456";
    let hashlock = hex::encode(Keccak256::digest(secret));
    let recipient = "recipient".to_string();

    // Setup escrow
    setup_test_escrow(&mut sm, hashlock.clone(), recipient.clone());

    // Execute claim
    let caller = "anyone".to_string();
    let res = sm
        .execute_claim(
            NOW,
            &caller,
            hashlock.clone(),
            String::from_utf8(secret.to_vec()).unwrap(),
        )
        .unwrap();

    // Verify response
    assert_eq!(
        res,
        Response {
            messages: vec![TransferMsg {
                to_address: recipient.clone(),
                denom: "uatom".to_string(),
                amount: 1000,
            }],
            attributes: vec![
                attr("action", "claim"),
                attr("escrow", hashlock.as_str()),
                attr("recipient", recipient.as_str()),
                attr("amount", "1000"),
            ],
        }
    );

    // Verify state updated
    let escrow = sm.query_escrow(&hashlock).unwrap();
    assert!(escrow.status == EscrowStatus::Claimed);
}

#[test]
fn rejects_invalid_secret() {
    let mut sm = machine();
    let hashlock = hex::encode(Keccak256::digest(b"real_secret"));
    setup_test_escrow(&mut sm, hashlock.clone(), "recipient".to_string());

    let caller = "anyone".to_string();
    let err = sm
        .execute_claim(NOW, &caller, hashlock, "wrong_secret".to_string())
        .unwrap_err();

    assert_eq!(err, ContractError::InvalidSecret);
}

#[test]
fn execute_claim_rejects_already_claimed() {
    let mut sm = machine();
    let hashlock = hex::encode(Keccak256::digest(b"secret"));
    let mut escrow = create_test_escrow();
    escrow.hashlock = hashlock.clone();
    escrow.status = EscrowStatus::Claimed;
    sm.escrows.save(escrow);

    let caller = "anyone".to_string();
    let err = sm
        .execute_claim(NOW, &caller, hashlock.clone(), "secret".to_string())
        .unwrap_err();

    assert_eq!(err, ContractError::EscrowClosed);
}

#[test]
fn rejects_refunded_escrow() {
    let mut sm = machine();
    let hashlock = hex::encode(Keccak256::digest(b"secret"));
    let mut escrow = create_test_escrow();
    escrow.hashlock = hashlock.clone();
    escrow.status = EscrowStatus::Refunded;
    sm.escrows.save(escrow);

    let caller = "anyone".to_string();
    let err = sm
        .execute_claim(NOW, &caller, hashlock, "secret".to_string())
        .unwrap_err();

    assert_eq!(err, ContractError::EscrowClosed);
}
