use bech32::{ToBase32, Variant};
use htlc::contract::{ClaimPolicy, EscrowStateMachine};
use htlc::digest::HashAlgo;
use htlc::msg::InstantiateMsg;
use htlc::response::{Attribute, Coin};
use htlc::state::EscrowStatus;
use htlc::ContractError;
use sha3::{Digest, Keccak256};

/// The wall-clock second every test runs at.
const NOW: u64 = 1_571_797_419;

fn machine() -> EscrowStateMachine {
    let sender = "creator".to_string();
    EscrowStateMachine::instantiate(
        &sender,
        InstantiateMsg { admin: None },
        HashAlgo::Keccak256,
        ClaimPolicy::Open,
    )
}

fn coins(amount: u128, denom: &str) -> Vec<Coin> {
    vec![Coin { denom: denom.to_string(), amount }]
}

fn attr(key: &str, value: &str) -> Attribute {
    Attribute { key: key.to_string(), value: value.to_string() }
}

/// A well-formed bech32 address under the `wasm` prefix.
fn make_addr(seed: u8) -> String {
    let data = [seed; 20];
    bech32::encode("wasm", data.to_base32(), Variant::Bech32).unwrap()
}

// Helper to create valid test data.
fn mock_valid_create_params() -> (String, String, u64, String, u128) {
    // A generated, checksum-correct bech32 address.
    let recipient = make_addr(7);

    // Valid 32-byte hex.
    let secret = b"32_byte_secret_1234567890123456";
    let hashlock = hex::encode(Keccak256::digest(secret));

    // Future timestamp.
    let timelock = NOW + 3600;

    let token = "uatom".to_string();
    let amount: u128 = 1000;

    (recipient, hashlock, timelock, token, amount)
}

#[test]
fn execute_escrow_happy_path_creates_escrow() {
    let mut sm = machine();
    let (recipient, hashlock, timelock, token, amount) = mock_valid_create_params();

    let sender = "creator".to_string();
    let res = sm
        .execute_create_escrow(
            NOW,
            &sender,
            &coins(amount, "uatom"),
            recipient.clone(),
            hashlock.clone(),
            timelock,
            token,
            amount,
        )
        .expect("Should successfully create escrow");

    assert_eq!(
        res.attributes,
        vec![
            attr("action", "create_escrow"),
            attr("creator", "creator"),
            attr("recipient", recipient.as_str()),
            attr("hashlock", hashlock.as_str()),
            attr("amount", "1000"),
        ]
    );

    let escrow = sm.query_escrow(&hashlock).expect("Escrow should be saved");
    assert_eq!(escrow.amount, amount);
    assert!(escrow.status == EscrowStatus::Active);
}

#[test]
fn execute_escrow_rejects_invalid_recipient() {
    let mut sm = machine();
    let (_, hashlock, timelock, token, amount) = mock_valid_create_params();

    let sender = "creator".to_string();
    let err = sm
        .execute_create_escrow(
            NOW,
            &sender,
            &Vec::new(),
            "invalid_address".to_string(),
            hashlock,
            timelock,
            token,
            amount,
        )
        .unwrap_err();

    assert_eq!(err, ContractError::InvalidAddress);
}

#[test]
fn execute_escrow_rejects_invalid_hashlock() {
    let mut sm = machine();
    let (recipient, _, timelock, token, amount) = mock_valid_create_params();

    let sender = "creator".to_string();
    let err = sm
        .execute_create_escrow(
            NOW,
            &sender,
            &coins(amount, "uatom"),
            recipient,
            "not_hex_and_wrong_length".to_string(), // invalid hex and length
            timelock,
            token,
            amount,
        )
        .unwrap_err();

    assert!(matches!(err, ContractError::InvalidHashlock(_)));
}

#[test]
fn execute_escrow_rejects_past_timelock() {
    let mut sm = machine();
    let (recipient, hashlock, _, token, amount) = mock_valid_create_params();

    let past_timelock = NOW - 1;
    let sender = "creator".to_string();
    let err = sm
        .execute_create_escrow(
            NOW,
            &sender,
            &coins(amount, "uatom"),
            recipient,
            hashlock,
            past_timelock,
            token,
            amount,
        )
        .unwrap_err();

    match err {
        ContractError::InvalidTimelock { .. } => (),
        _ => panic!("Expected InvalidTimelock error, got {:?}", err),
    }
}

#[test]
fn execute_escrow_rejects_insufficient_funds() {
    let mut sm = machine();
    let (recipient, hashlock, timelock, token, amount) = mock_valid_create_params();

    let sender = "creator".to_string();
    let err = sm
        .execute_create_escrow(
            NOW,
            &sender,
            &coins(amount - 1, "uatom"), // send 1 less than required
            recipient,
            hashlock,
            timelock,
            token,
            amount,
        )
        .unwrap_err();

    match err {
        ContractError::InsufficientFunds { .. } => (),
        _ => panic!("Expected InsufficientFunds error, got {:?}", err),
    }
}
