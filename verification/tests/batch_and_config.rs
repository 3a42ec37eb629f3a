//! Batch creation (all-or-nothing), the pause gate, configuration updates,
//! and the read-only queries.

use bech32::{ToBase32, Variant};
use htlc::contract::{ClaimPolicy, EscrowStateMachine};
use htlc::digest::HashAlgo;
use htlc::msg::{
    AccountRole, EscrowInput, ExecuteMsg, InstantiateMsg, QueryAnswer, QueryMsg,
};
use htlc::response::{Attribute, Coin};
use htlc::state::{Escrow, EscrowStatus};
use htlc::ContractError;
use sha3::{Digest, Keccak256};

/// The wall-clock second every test runs at.
const NOW: u64 = 1_600_000_000;

/// A well-formed bech32 address under the `wasm` prefix.
fn make_addr(seed: u8) -> String {
    let data = [seed; 20];
    bech32::encode("wasm", data.to_base32(), Variant::Bech32).unwrap()
}

fn coins(amount: u128) -> Vec<Coin> {
    vec![Coin { denom: "uatom".to_string(), amount }]
}

fn attr(key: &str, value: &str) -> Attribute {
    Attribute { key: key.to_string(), value: value.to_string() }
}

fn machine() -> EscrowStateMachine {
    let sender = "creator".to_string();
    EscrowStateMachine::instantiate(
        &sender,
        InstantiateMsg { admin: None },
        HashAlgo::Keccak256,
        ClaimPolicy::Open,
    )
}

fn item(secret: &[u8], seed: u8, amount: u128) -> EscrowInput {
    EscrowInput {
        recipient: make_addr(seed),
        hashlock: hex::encode(Keccak256::digest(secret)),
        timelock: NOW + 3600,
        token: "uatom".to_string(),
        amount,
    }
}

#[test]
fn batch_happy_path_persists_every_item() {
    let mut sm = machine();
    let creator = "creator".to_string();
    let a = item(b"batch_a", 1, 300);
    let b = item(b"batch_b", 2, 700);
    let id_a = a.hashlock.clone();
    let id_b = b.hashlock.clone();

    let res = sm
        .execute_create_batch_escrows(NOW, &creator, &coins(1000), vec![a, b])
        .unwrap();

    assert_eq!(
        res.attributes,
        vec![
            attr("action", "create_batch_escrows"),
            attr("creator", "creator"),
            attr("count", "2"),
            attr("total_amount", "1000"),
        ]
    );
    assert!(res.messages.is_empty());

    assert_eq!(sm.query_escrow(&id_a).unwrap().amount, 300);
    assert_eq!(sm.query_escrow(&id_b).unwrap().amount, 700);

    // Both identifiers are recorded for the creator, in creation order.
    let user = sm.query_user_escrows(&creator);
    assert_eq!(user.count, 2);
    assert_eq!(user.escrow_ids, vec![id_a, id_b]);
}

#[test]
fn batch_with_one_invalid_item_persists_nothing() {
    let mut sm = machine();
    let creator = "creator".to_string();
    let good = item(b"batch_good", 3, 400);
    let id_good = good.hashlock.clone();
    let mut bad = item(b"batch_bad", 4, 600);
    bad.hashlock = "not_hex".to_string();

    let err = sm
        .execute_create_batch_escrows(NOW, &creator, &coins(1000), vec![good, bad])
        .unwrap_err();
    assert!(matches!(err, ContractError::InvalidHashlock(_)));

    // Zero escrows persisted from the batch, nothing in the user index.
    assert_eq!(sm.query_escrow(&id_good).unwrap_err(), ContractError::EscrowNotFound);
    assert_eq!(sm.query_user_escrows(&creator).count, 0);
}

#[test]
fn batch_duplicate_within_batch_persists_nothing() {
    let mut sm = machine();
    let creator = "creator".to_string();
    let first = item(b"batch_dup", 5, 100);
    let second = item(b"batch_dup", 6, 200);
    let id = first.hashlock.clone();

    let err = sm
        .execute_create_batch_escrows(NOW, &creator, &coins(300), vec![first, second])
        .unwrap_err();
    assert_eq!(err, ContractError::EscrowAlreadyExists);
    assert_eq!(sm.query_escrow(&id).unwrap_err(), ContractError::EscrowNotFound);
}

#[test]
fn batch_size_bounds_are_enforced() {
    let mut sm = machine();
    let creator = "creator".to_string();

    let err = sm
        .execute_create_batch_escrows(NOW, &creator, &coins(0), Vec::new())
        .unwrap_err();
    assert_eq!(err, ContractError::InvalidBatchSize);

    // Eleven items exceed the default ceiling of ten.
    let mut items = Vec::new();
    for i in 0..11u8 {
        items.push(item(&[b'n', i], i, 10));
    }
    let err = sm
        .execute_create_batch_escrows(NOW, &creator, &coins(110), items)
        .unwrap_err();
    assert_eq!(err, ContractError::InvalidBatchSize);
}

#[test]
fn batch_total_must_be_covered_by_funds() {
    let mut sm = machine();
    let creator = "creator".to_string();
    let a = item(b"batch_f1", 8, 600);
    let b = item(b"batch_f2", 9, 500);
    let id_a = a.hashlock.clone();

    let err = sm
        .execute_create_batch_escrows(NOW, &creator, &coins(1000), vec![a, b])
        .unwrap_err();
    assert_eq!(err, ContractError::InsufficientFunds { required: 1100, sent: 1000 });
    assert_eq!(sm.query_escrow(&id_a).unwrap_err(), ContractError::EscrowNotFound);
}

#[test]
fn paused_engine_rejects_every_mutating_request() {
    let mut sm = machine();
    let creator = "creator".to_string();

    // The instantiating sender is the administrator by default.
    sm.execute_update_config(&creator, None, None, None, Some(true)).unwrap();

    let it = item(b"paused", 10, 100);
    let err = sm
        .execute(
            NOW,
            &creator,
            &coins(100),
            ExecuteMsg::CreateEscrow {
                recipient: it.recipient,
                hashlock: it.hashlock,
                timelock: it.timelock,
                token: it.token,
                amount: it.amount,
            },
        )
        .unwrap_err();
    assert_eq!(err, ContractError::ContractPaused);

    let err = sm
        .execute(
            NOW,
            &creator,
            &Vec::new(),
            ExecuteMsg::Refund { hashlock: "whatever".to_string() },
        )
        .unwrap_err();
    assert_eq!(err, ContractError::ContractPaused);

    // Queries bypass the pause gate.
    let answer = sm.query(QueryMsg::GetConfig {}).unwrap();
    match answer {
        QueryAnswer::Config(c) => assert!(c.paused),
        _ => panic!("expected a config answer"),
    }
}

#[test]
fn update_config_merges_partially_and_reports() {
    let mut sm = machine();
    let creator = "creator".to_string();

    let res = sm
        .execute_update_config(&creator, Some(7), None, Some(25), None)
        .unwrap();
    assert_eq!(
        res.attributes,
        vec![
            attr("action", "update_config"),
            attr("claim_fee", "7"),
            attr("refund_fee", "500"),
            attr("max_batch_size", "25"),
            attr("paused", "false"),
        ]
    );

    let c = sm.query_config();
    assert_eq!(c.claim_fee, 7);
    assert_eq!(c.refund_fee, 500);
    assert_eq!(c.max_batch_size, 25);
    assert!(!c.paused);
}

#[test]
fn update_config_requires_the_administrator() {
    let admin = make_addr(40);
    let creator = "creator".to_string();
    let mut sm = EscrowStateMachine::instantiate(
        &creator,
        InstantiateMsg { admin: Some(admin.clone()) },
        HashAlgo::Keccak256,
        ClaimPolicy::Open,
    );

    let err = sm
        .execute_update_config(&creator, None, None, None, Some(true))
        .unwrap_err();
    assert_eq!(err, ContractError::Unauthorized);
    assert!(!sm.query_config().paused);

    assert!(sm.execute_update_config(&admin, None, None, None, Some(true)).is_ok());
    assert!(sm.query_config().paused);
}

#[test]
fn queries_cover_batch_users_and_roles() {
    let mut sm = machine();
    let creator = "creator".to_string();
    let a = item(b"query_a", 11, 100);
    let b = item(b"query_b", 12, 200);
    let recipient_a = a.recipient.clone();
    let id_a = a.hashlock.clone();
    let id_b = b.hashlock.clone();
    sm.execute_create_batch_escrows(NOW, &creator, &coins(300), vec![a, b]).unwrap();

    // Best-effort multi-lookup: a missing identifier is silently omitted.
    let answer = sm
        .query(QueryMsg::GetBatchEscrows {
            hashlocks: vec![id_a.clone(), "missing".to_string(), id_b.clone()],
        })
        .unwrap();
    match answer {
        QueryAnswer::Batch(batch) => {
            assert_eq!(batch.escrows.len(), 2);
            assert_eq!(batch.escrows[0].hashlock, id_a);
            assert_eq!(batch.escrows[1].hashlock, id_b);
        },
        _ => panic!("expected a batch answer"),
    }

    // An account that never created anything has an empty entry.
    let nobody = "nobody".to_string();
    let empty = sm.query_user_escrows(&nobody);
    assert_eq!(empty.count, 0);
    assert!(empty.escrow_ids.is_empty());

    // Role-filtered scans.
    let by_creator = sm.query_escrows_by_account(&creator, AccountRole::Creator);
    assert_eq!(by_creator.escrows.len(), 2);
    let by_recipient = sm.query_escrows_by_account(&recipient_a, AccountRole::Recipient);
    assert_eq!(by_recipient.escrows.len(), 1);
    assert_eq!(by_recipient.escrows[0].hashlock, id_a);

    // Settling an escrow does not touch the user index.
    sm.execute_claim(NOW + 1, &recipient_a, id_a.clone(), "query_a".to_string()).unwrap();
    assert_eq!(sm.query_escrow(&id_a).unwrap().status, EscrowStatus::Claimed);
    assert_eq!(sm.query_user_escrows(&creator).count, 2);
}

#[test]
fn account_query_returns_escrows_ascending_by_id() {
    let mut sm = machine();
    let creator = "creator".to_string();
    for id in ["cc", "aa", "bb"] {
        sm.escrows.save(Escrow {
            creator: creator.clone(),
            recipient: "recipient".to_string(),
            hashlock: id.to_string(),
            timelock: NOW + 3600,
            token: "uatom".to_string(),
            amount: 5,
            status: EscrowStatus::Active,
        });
    }
    let found = sm.query_escrows_by_account(&creator, AccountRole::Creator);
    let ids: Vec<String> = found.escrows.iter().map(|e| e.hashlock.clone()).collect();
    assert_eq!(ids, vec!["aa".to_string(), "bb".to_string(), "cc".to_string()]);
}

#[test]
fn execute_dispatches_claim_and_refund() {
    let mut sm = machine();
    let creator = "creator".to_string();
    let recipient = make_addr(17);
    let hashlock = hex::encode(Keccak256::digest(b"dispatch"));
    sm.execute(
        NOW,
        &creator,
        &coins(50),
        ExecuteMsg::CreateEscrow {
            recipient: recipient.clone(),
            hashlock: hashlock.clone(),
            timelock: NOW + 60,
            token: "uatom".to_string(),
            amount: 50,
        },
    )
    .unwrap();

    let res = sm
        .execute(
            NOW + 1,
            &recipient,
            &Vec::new(),
            ExecuteMsg::Claim { hashlock: hashlock.clone(), secret: "dispatch".to_string() },
        )
        .unwrap();
    assert_eq!(res.messages.len(), 1);
    assert_eq!(res.messages[0].to_address, recipient);
    assert_eq!(sm.query_escrow(&hashlock).unwrap().status, EscrowStatus::Claimed);

    let err = sm
        .execute(NOW + 61, &creator, &Vec::new(), ExecuteMsg::Refund { hashlock })
        .unwrap_err();
    assert_eq!(err, ContractError::EscrowClosed);
}
