//! The global guarantees of the escrow engine, stated and proved over the
//! specification functions that the operations' contracts use. Together
//! with the operations' own `ensures` (in particular: every failing call
//! leaves the state exactly as it was, and every successful claim or refund
//! issues exactly one transfer of the escrowed amount to the stated party),
//! these are the engine's safety laws.

use vstd::prelude::*;
use crate::codec::{hex_chars, lemma_hex_chars_injective};
use crate::contract::{
    batch_err, batch_scan_err, canonical_id, claim_err, create_err, item_err,
    lemma_scan_ok_items_ok, refund_err, staged_escrow, valid_hashlock, with_status, ClaimPolicy,
};
use crate::digest::{digest_of, HashAlgo};
use crate::error::ErrorM;
use crate::msg::EscrowInputM;
use crate::response::CoinM;
use crate::state::{
    contains_escrow, escrow_index, escrow_keys_unique, find_escrow, lemma_find_escrow,
    lemma_find_escrow_push, lemma_find_escrow_update, Config, EscrowM, EscrowStatus,
};
use vstd::utf8::encode_utf8;

verus! {

/// Uniqueness: once a creation succeeds, a second creation under the same
/// hashlock fails with `EscrowAlreadyExists`, whatever its other fields,
/// its funds or its time, provided its own format checks pass. (That the
/// failing call changes nothing is part of every operation's contract.)
pub proof fn law_create_twice_fails(
    escrows: Seq<EscrowM>,
    now: u64,
    sender: Seq<char>,
    it: EscrowInputM,
    funds: Seq<CoinM>,
    now2: u64,
    it2: EscrowInputM,
    funds2: Seq<CoinM>,
)
    requires
        create_err(escrows, now, it, funds) is None,
        canonical_id(it2.hashlock) == canonical_id(it.hashlock),
        crate::addr::valid_bech32(it2.recipient),
        valid_hashlock(it2.hashlock),
        now2 < it2.timelock,
    ensures
        create_err(
            escrows.push(staged_escrow(sender, it)),
            now2,
            it2,
            funds2,
        ) == Some(ErrorM::EscrowAlreadyExists),
{
    let st = staged_escrow(sender, it);
    lemma_find_escrow_push(escrows, st);
    assert(find_escrow(escrows.push(st), canonical_id(it.hashlock)) == Some(st));
}

/// One-way transitions: an escrow that is `Claimed` or `Refunded` turns
/// every further claim and every further refund away with `EscrowClosed`.
pub proof fn law_terminal_stays_closed(
    escrows: Seq<EscrowM>,
    now: u64,
    sender: Seq<char>,
    policy: ClaimPolicy,
    algo: HashAlgo,
    hashlock: Seq<char>,
    secret: Seq<char>,
)
    requires
        find_escrow(escrows, hashlock) is Some,
        find_escrow(escrows, hashlock).unwrap().status != EscrowStatus::Active,
    ensures
        claim_err(escrows, now, sender, policy, algo, hashlock, secret) == Some(
            ErrorM::EscrowClosed,
        ),
        refund_err(escrows, now, sender, hashlock) == Some(ErrorM::EscrowClosed),
{
}

/// One-way transitions, second half: the store a successful claim or
/// refund leaves behind holds the escrow in the terminal status, so every
/// later claim or refund of the same identifier fails with `EscrowClosed`.
pub proof fn law_settled_escrow_is_closed(
    escrows: Seq<EscrowM>,
    hashlock: Seq<char>,
    terminal: EscrowStatus,
    now: u64,
    sender: Seq<char>,
    policy: ClaimPolicy,
    algo: HashAlgo,
    secret: Seq<char>,
)
    requires
        escrow_keys_unique(escrows),
        contains_escrow(escrows, hashlock),
        terminal != EscrowStatus::Active,
    ensures
        ({
            let settled = escrows.update(
                escrow_index(escrows, hashlock),
                with_status(find_escrow(escrows, hashlock).unwrap(), terminal),
            );
            &&& claim_err(settled, now, sender, policy, algo, hashlock, secret) == Some(
                ErrorM::EscrowClosed,
            )
            &&& refund_err(settled, now, sender, hashlock) == Some(ErrorM::EscrowClosed)
        }),
{
    lemma_find_escrow(escrows, hashlock);
    let e = find_escrow(escrows, hashlock).unwrap();
    lemma_find_escrow_update(escrows, escrow_index(escrows, hashlock), with_status(e, terminal));
}

/// Preimage correctness: once the gates that do not concern the secret are
/// open (the escrow exists, is active, unexpired, the caller authorized,
/// the token supported, and the stored hashlock is the rendering of its 32
/// digest bytes), a claim succeeds exactly when the secret's digest equals
/// those bytes, bit for bit; any other secret fails with `InvalidSecret`.
/// Escrows the engine creates satisfy the last premise by construction:
/// [`staged_escrow`] stores [`canonical_id`], the rendering of the bytes
/// the supplied hashlock text decodes to.
pub proof fn law_claim_preimage(
    escrows: Seq<EscrowM>,
    now: u64,
    sender: Seq<char>,
    policy: ClaimPolicy,
    algo: HashAlgo,
    hashlock: Seq<char>,
    secret: Seq<char>,
    stored_bytes: Seq<u8>,
)
    requires
        find_escrow(escrows, hashlock) is Some,
        ({
            let e = find_escrow(escrows, hashlock).unwrap();
            &&& e.status == EscrowStatus::Active
            &&& now < e.timelock
            &&& policy == ClaimPolicy::Open || sender == e.recipient
            &&& e.token == "uatom"@
            &&& e.hashlock == hex_chars(stored_bytes)
        }),
    ensures
        claim_err(escrows, now, sender, policy, algo, hashlock, secret) is None <==> digest_of(
            algo,
            encode_utf8(secret),
        ) == stored_bytes,
        digest_of(algo, encode_utf8(secret)) != stored_bytes ==> claim_err(
            escrows,
            now,
            sender,
            policy,
            algo,
            hashlock,
            secret,
        ) == Some(ErrorM::InvalidSecret),
{
    let e = find_escrow(escrows, hashlock).unwrap();
    let d = digest_of(algo, encode_utf8(secret));
    if hex_chars(d) == e.hashlock {
        lemma_hex_chars_injective(d, stored_bytes);
    }
}

/// Time gating: while an escrow is active, a claim at or after its
/// timelock fails with `TimelockExpired`, a refund before it fails with
/// `TimelockNotExpired`, and the two windows are complementary: at the
/// boundary (`now == timelock`) the refund's time gate is open and the
/// claim's is shut.
pub proof fn law_time_gating(
    escrows: Seq<EscrowM>,
    now: u64,
    sender: Seq<char>,
    policy: ClaimPolicy,
    algo: HashAlgo,
    hashlock: Seq<char>,
    secret: Seq<char>,
)
    requires
        find_escrow(escrows, hashlock) is Some,
        find_escrow(escrows, hashlock).unwrap().status == EscrowStatus::Active,
    ensures
        ({
            let e = find_escrow(escrows, hashlock).unwrap();
            &&& now >= e.timelock ==> claim_err(
                escrows,
                now,
                sender,
                policy,
                algo,
                hashlock,
                secret,
            ) == Some(ErrorM::TimelockExpired)
            &&& now < e.timelock ==> refund_err(escrows, now, sender, hashlock) == Some(
                ErrorM::TimelockNotExpired { expires: e.timelock, current: now },
            )
            &&& now >= e.timelock ==> !(refund_err(escrows, now, sender, hashlock) matches Some(
                ErrorM::TimelockNotExpired { .. },
            ))
            &&& now < e.timelock ==> claim_err(
                escrows,
                now,
                sender,
                policy,
                algo,
                hashlock,
                secret,
            ) != Some(ErrorM::TimelockExpired)
        }),
{
}

/// Funds conservation at creation: a creation only succeeds when the funds
/// attached for the native denomination cover the escrowed amount, which is
/// itself strictly positive. (That a successful claim or refund issues
/// exactly one transfer of the escrowed amount to the recipient or the
/// creator is stated by the claim and refund contracts themselves.)
pub proof fn law_create_funds_cover_amount(
    escrows: Seq<EscrowM>,
    now: u64,
    it: EscrowInputM,
    funds: Seq<CoinM>,
)
    requires
        create_err(escrows, now, it, funds) is None,
    ensures
        crate::response::sent_amount_of(funds, "uatom"@) >= it.amount,
        it.amount > 0,
{
}

/// Batch atomicity, stated over validation: a batch holding even one item
/// that is invalid on its own against the store (bad recipient, bad
/// hashlock, past timelock, identifier taken, unsupported token, or zero
/// amount) is rejected as a whole. Together with the batch contract's
/// failure clause (a failing batch changes nothing), no escrow of such a
/// batch is ever persisted.
pub proof fn law_batch_one_bad_item_rejects_all(
    escrows: Seq<EscrowM>,
    config: Config,
    now: u64,
    sender: Seq<char>,
    items: Seq<EscrowInputM>,
    funds: Seq<CoinM>,
    i: int,
)
    requires
        0 <= i < items.len(),
        item_err(escrows, now, items[i]) is Some,
    ensures
        batch_err(escrows, config, now, sender, items, funds) is Some,
{
    if !(items.len() == 0 || items.len() > config.max_batch_size as int) {
        if batch_scan_err(escrows, now, sender, items) is None {
            assert(escrows + Seq::<EscrowM>::empty() =~= escrows);
            lemma_scan_ok_items_ok(escrows, Seq::empty(), now, sender, items);
            assert(item_err(escrows, now, items[i]) is None);
        }
    }
}

} // verus!
