//! The escrow state machine: validation of escrow creation (single and
//! batch), preimage-verified claim, expiry-gated refund, configuration
//! updates, and the read-only queries. Every mutating operation either
//! succeeds with the stated state change and event, or returns the stated
//! error and leaves the state untouched.

use vstd::prelude::*;
use vstd::utf8::encode_utf8;
use crate::addr::{valid_bech32, validate_address};
use crate::codec::{
    bool_str, bool_to_string, dec_str, hex_bytes, hex_chars, hex_decode, hex_encode, str_eq,
    str_le, strip_hex_prefix, strip_prefix_0x, text_le, u128_to_string, valid_hex,
};
use crate::digest::{compute_digest, digest_of, HashAlgo};
use crate::error::{ContractError, ErrorM};
use crate::msg::{
    input_m, inputs_view, responses_view, AccountRole, BatchEscrowResponse, ConfigResponse,
    EscrowInput, EscrowInputM, EscrowResponse, ExecuteMsg, InstantiateMsg, QueryAnswer, QueryMsg,
    UserEscrowsResponse,
};
use crate::response::{coins_view, sent_amount, sent_amount_of, AttrM, Coin, Response, TransferM};
use crate::state::{
    contains_escrow, escrow_index, escrow_keys_unique, find_escrow, find_user, user_append,
    Config, Escrow, EscrowM, EscrowStatus, EscrowStore, UserIndex,
};

verus! {

/// Who may claim an active escrow with the correct secret: only the
/// recorded recipient (the safety-preferred policy), or any caller.
#[derive(Clone, Copy, Debug, PartialEq, Eq, Structural)]
pub enum ClaimPolicy {
    RecipientOnly,
    Open,
}

/// The native denomination this engine escrows.
pub fn native_denom() -> (r: &'static str)
    ensures
        r@ == "uatom"@,
{
    "uatom"
}

/// The canonical identifier a hashlock text denotes: the lower-case
/// hexadecimal rendering of the 32 bytes it decodes to.
pub open spec fn canonical_id(hashlock: Seq<char>) -> Seq<char> {
    hex_chars(hex_bytes(strip_hex_prefix(hashlock)))
}

/// Whether a hashlock text decodes, after one optional `0x` prefix, to
/// exactly 32 bytes of hexadecimal digits.
pub open spec fn valid_hashlock(hashlock: Seq<char>) -> bool {
    &&& valid_hex(strip_hex_prefix(hashlock))
    &&& hex_bytes(strip_hex_prefix(hashlock)).len() == 32
}

/// The validation outcome for one escrow specification, checked in order:
/// recipient format, hashlock format, timelock in the future, identifier
/// free, supported token, positive amount. `None` means the item passes.
pub open spec fn item_err(escrows: Seq<EscrowM>, now: u64, it: EscrowInputM) -> Option<ErrorM> {
    if !valid_bech32(it.recipient) {
        Some(ErrorM::InvalidAddress)
    } else if !valid_hashlock(it.hashlock) {
        Some(ErrorM::InvalidHashlock(it.hashlock))
    } else if it.timelock <= now {
        Some(ErrorM::InvalidTimelock { current: now, timelock: it.timelock })
    } else if contains_escrow(escrows, canonical_id(it.hashlock)) {
        Some(ErrorM::EscrowAlreadyExists)
    } else if it.token != "uatom"@ {
        Some(ErrorM::UnsupportedToken(it.token))
    } else if it.amount == 0 {
        Some(ErrorM::InvalidFunds)
    } else {
        None
    }
}

/// The validation outcome for a single creation: the item checks, then the
/// attached funds must cover the amount.
pub open spec fn create_err(
    escrows: Seq<EscrowM>,
    now: u64,
    it: EscrowInputM,
    funds: Seq<crate::response::CoinM>,
) -> Option<ErrorM> {
    match item_err(escrows, now, it) {
        Some(e) => Some(e),
        None => {
            let sent = sent_amount_of(funds, "uatom"@);
            if sent < it.amount {
                Some(ErrorM::InsufficientFunds { required: it.amount, sent })
            } else {
                None
            }
        },
    }
}

/// The escrow record a valid specification creates: the sender as creator,
/// the canonical identifier, status `Active`.
pub open spec fn staged_escrow(sender: Seq<char>, it: EscrowInputM) -> EscrowM {
    EscrowM {
        creator: sender,
        recipient: it.recipient,
        hashlock: canonical_id(it.hashlock),
        timelock: it.timelock,
        token: it.token,
        amount: it.amount,
        status: EscrowStatus::Active,
    }
}

/// The event of a successful single creation.
pub open spec fn create_attrs(
    sender: Seq<char>,
    recipient: Seq<char>,
    id: Seq<char>,
    amount: u128,
) -> Seq<AttrM> {
    seq![
        AttrM { key: "action"@, value: "create_escrow"@ },
        AttrM { key: "creator"@, value: sender },
        AttrM { key: "recipient"@, value: recipient },
        AttrM { key: "hashlock"@, value: id },
        AttrM { key: "amount"@, value: dec_str(amount as nat) },
    ]
}

/// The configuration the engine starts with.
pub open spec fn default_config() -> Config {
    Config { claim_fee: 1000, refund_fee: 500, max_batch_size: 10, paused: false }
}

/// An escrow record with its status replaced.
pub open spec fn with_status(e: EscrowM, status: EscrowStatus) -> EscrowM {
    EscrowM { status, ..e }
}

/// The validation outcome for a claim, checked in order: the escrow exists,
/// is still active, the timelock has not passed, the caller is authorized
/// under the policy, the secret hashes to the stored hashlock, and the
/// stored token is supported. `None` means the claim goes through.
pub open spec fn claim_err(
    escrows: Seq<EscrowM>,
    now: u64,
    sender: Seq<char>,
    policy: ClaimPolicy,
    algo: HashAlgo,
    hashlock: Seq<char>,
    secret: Seq<char>,
) -> Option<ErrorM> {
    match find_escrow(escrows, hashlock) {
        None => Some(ErrorM::EscrowNotFound),
        Some(e) => {
            if e.status != EscrowStatus::Active {
                Some(ErrorM::EscrowClosed)
            } else if now >= e.timelock {
                Some(ErrorM::TimelockExpired)
            } else if policy == ClaimPolicy::RecipientOnly && sender != e.recipient {
                Some(ErrorM::UnauthorizedRedeem)
            } else if hex_chars(digest_of(algo, encode_utf8(secret))) != e.hashlock {
                Some(ErrorM::InvalidSecret)
            } else if e.token != "uatom"@ {
                Some(ErrorM::UnsupportedToken(e.token))
            } else {
                None
            }
        },
    }
}

/// The event of a successful claim.
pub open spec fn claim_attrs(escrow_id: Seq<char>, recipient: Seq<char>, amount: u128) -> Seq<
    AttrM,
> {
    seq![
        AttrM { key: "action"@, value: "claim"@ },
        AttrM { key: "escrow"@, value: escrow_id },
        AttrM { key: "recipient"@, value: recipient },
        AttrM { key: "amount"@, value: dec_str(amount as nat) },
    ]
}

/// The validation outcome for a refund, checked in order: the escrow
/// exists, is still active, the timelock has passed, the caller is the
/// recorded creator, and the stored token is supported. `None` means the
/// refund goes through.
pub open spec fn refund_err(
    escrows: Seq<EscrowM>,
    now: u64,
    sender: Seq<char>,
    hashlock: Seq<char>,
) -> Option<ErrorM> {
    match find_escrow(escrows, hashlock) {
        None => Some(ErrorM::EscrowNotFound),
        Some(e) => {
            if e.status != EscrowStatus::Active {
                Some(ErrorM::EscrowClosed)
            } else if now < e.timelock {
                Some(ErrorM::TimelockNotExpired { expires: e.timelock, current: now })
            } else if sender != e.creator {
                Some(ErrorM::UnauthorizedRefund)
            } else if e.token != "uatom"@ {
                Some(ErrorM::UnsupportedToken(e.token))
            } else {
                None
            }
        },
    }
}

/// The event of a successful refund.
pub open spec fn refund_attrs(escrow_id: Seq<char>, creator: Seq<char>, amount: u128) -> Seq<
    AttrM,
> {
    seq![
        AttrM { key: "action"@, value: "refund"@ },
        AttrM { key: "escrow"@, value: escrow_id },
        AttrM { key: "creator"@, value: creator },
        AttrM { key: "amount"@, value: dec_str(amount as nat) },
    ]
}

/// The records a batch of specifications stages, in order.
pub open spec fn staged_models(sender: Seq<char>, items: Seq<EscrowInputM>) -> Seq<EscrowM> {
    items.map_values(|it: EscrowInputM| staged_escrow(sender, it))
}

/// The first error a sequential validation of the batch hits, each item
/// checked against the store extended by the items staged before it (so a
/// duplicate within the batch fails as an existing escrow would). `None`
/// means every item passes.
pub open spec fn batch_scan_err(
    escrows: Seq<EscrowM>,
    now: u64,
    sender: Seq<char>,
    items: Seq<EscrowInputM>,
) -> Option<ErrorM>
    decreases items.len(),
{
    if items.len() == 0 {
        None
    } else {
        match item_err(escrows, now, items[0]) {
            Some(e) => Some(e),
            None => batch_scan_err(
                escrows.push(staged_escrow(sender, items[0])),
                now,
                sender,
                items.drop_first(),
            ),
        }
    }
}

/// The sum of the amounts of a batch.
pub open spec fn total_amount(items: Seq<EscrowInputM>) -> int
    decreases items.len(),
{
    if items.len() == 0 {
        0
    } else {
        total_amount(items.drop_last()) + items.last().amount
    }
}

/// The user index after recording every item of the batch for `sender`.
pub open spec fn batch_users(
    users: Seq<crate::state::UserEntryM>,
    sender: Seq<char>,
    items: Seq<EscrowInputM>,
) -> Seq<crate::state::UserEntryM>
    decreases items.len(),
{
    if items.len() == 0 {
        users
    } else {
        user_append(
            batch_users(users, sender, items.drop_last()),
            sender,
            canonical_id(items.last().hashlock),
        )
    }
}

/// The validation outcome for a batch creation: the size bound, then the
/// sequential item checks, then the accumulated total against the attached
/// funds. `None` means the whole batch commits.
pub open spec fn batch_err(
    escrows: Seq<EscrowM>,
    config: Config,
    now: u64,
    sender: Seq<char>,
    items: Seq<EscrowInputM>,
    funds: Seq<crate::response::CoinM>,
) -> Option<ErrorM> {
    if items.len() == 0 || items.len() > config.max_batch_size as int {
        Some(ErrorM::InvalidBatchSize)
    } else {
        match batch_scan_err(escrows, now, sender, items) {
            Some(e) => Some(e),
            None => {
                let sent = sent_amount_of(funds, "uatom"@);
                let total = total_amount(items);
                if sent < total {
                    Some(ErrorM::InsufficientFunds { required: total as u128, sent })
                } else {
                    None
                }
            },
        }
    }
}

/// The event of a successful batch creation.
pub open spec fn batch_attrs(sender: Seq<char>, items: Seq<EscrowInputM>) -> Seq<AttrM> {
    seq![
        AttrM { key: "action"@, value: "create_batch_escrows"@ },
        AttrM { key: "creator"@, value: sender },
        AttrM { key: "count"@, value: dec_str(items.len()) },
        AttrM { key: "total_amount"@, value: dec_str(total_amount(items) as nat) },
    ]
}

/// A batch total is a sum of non-negative quantities.
pub proof fn lemma_total_nonneg(items: Seq<EscrowInputM>)
    ensures
        0 <= total_amount(items),
    decreases items.len(),
{
    if items.len() > 0 {
        lemma_total_nonneg(items.drop_last());
    }
}

/// A prefix of a batch never sums to more than the whole batch.
pub proof fn lemma_total_prefix_le(items: Seq<EscrowInputM>, i: int)
    requires
        0 <= i <= items.len(),
    ensures
        total_amount(items.take(i)) <= total_amount(items),
    decreases items.len() - i,
{
    if i == items.len() {
        assert(items.take(i) =~= items);
    } else {
        lemma_total_prefix_le(items, i + 1);
        assert(items.take(i + 1).drop_last() =~= items.take(i));
        assert(items.take(i + 1).last() == items[i]);
        assert(total_amount(items.take(i + 1)) == total_amount(items.take(i)) + items[i].amount);
    }
}

/// Lookup in a concatenation: the left part decides if it holds the key,
/// otherwise the right part does.
pub proof fn lemma_find_escrow_concat(a: Seq<EscrowM>, b: Seq<EscrowM>, key: Seq<char>)
    ensures
        find_escrow(a + b, key) == if contains_escrow(a, key) {
            find_escrow(a, key)
        } else {
            find_escrow(b, key)
        },
    decreases a.len(),
{
    if a.len() == 0 {
        assert(a + b =~= b);
    } else {
        assert((a + b)[0] == a[0]);
        assert((a + b).drop_first() =~= a.drop_first() + b);
        lemma_find_escrow_concat(a.drop_first(), b, key);
    }
}

/// A batch whose sequential validation passes contains no item that is
/// invalid on its own against the store as it stood: every recipient, every
/// hashlock, every timelock, every token and every amount is acceptable,
/// and no item's identifier was already taken.
pub proof fn lemma_scan_ok_items_ok(
    escrows: Seq<EscrowM>,
    extra: Seq<EscrowM>,
    now: u64,
    sender: Seq<char>,
    items: Seq<EscrowInputM>,
)
    requires
        batch_scan_err(escrows + extra, now, sender, items) is None,
    ensures
        forall|i: int|
            0 <= i < items.len() ==> item_err(escrows, now, #[trigger] items[i]) is None,
    decreases items.len(),
{
    if items.len() > 0 {
        let ctx = escrows + extra;
        assert(item_err(ctx, now, items[0]) is None);
        lemma_find_escrow_concat(escrows, extra, canonical_id(items[0].hashlock));
        assert(item_err(escrows, now, items[0]) is None);
        assert(ctx.push(staged_escrow(sender, items[0])) =~= escrows + extra.push(
            staged_escrow(sender, items[0]),
        ));
        lemma_scan_ok_items_ok(
            escrows,
            extra.push(staged_escrow(sender, items[0])),
            now,
            sender,
            items.drop_first(),
        );
        assert forall|i: int| 0 <= i < items.len() implies item_err(
            escrows,
            now,
            #[trigger] items[i],
        ) is None by {
            if i > 0 {
                assert(items[i] == items.drop_first()[i - 1]);
            }
        }
    }
}

/// The configuration after a partial update: supplied fields overwrite,
/// absent fields keep their value.
pub open spec fn merged_config(
    c: Config,
    claim_fee: Option<u128>,
    refund_fee: Option<u128>,
    max_batch_size: Option<u32>,
    paused: Option<bool>,
) -> Config {
    Config {
        claim_fee: match claim_fee {
            Some(f) => f,
            None => c.claim_fee,
        },
        refund_fee: match refund_fee {
            Some(f) => f,
            None => c.refund_fee,
        },
        max_batch_size: match max_batch_size {
            Some(s) => s,
            None => c.max_batch_size,
        },
        paused: match paused {
            Some(p) => p,
            None => c.paused,
        },
    }
}

/// The event of a configuration update, reflecting the resulting values.
pub open spec fn config_attrs(c: Config) -> Seq<AttrM> {
    seq![
        AttrM { key: "action"@, value: "update_config"@ },
        AttrM { key: "claim_fee"@, value: dec_str(c.claim_fee as nat) },
        AttrM { key: "refund_fee"@, value: dec_str(c.refund_fee as nat) },
        AttrM { key: "max_batch_size"@, value: dec_str(c.max_batch_size as nat) },
        AttrM { key: "paused"@, value: bool_str(c.paused) },
    ]
}

/// The models of a list of query keys.
pub open spec fn keys_view(keys: Seq<String>) -> Seq<Seq<char>> {
    keys.map_values(|s: String| s@)
}

/// The best-effort multi-lookup: the records found under the given keys, in
/// key order, identifiers that miss silently omitted.
pub open spec fn batch_query(escrows: Seq<EscrowM>, keys: Seq<Seq<char>>) -> Seq<EscrowM>
    decreases keys.len(),
{
    if keys.len() == 0 {
        Seq::empty()
    } else {
        batch_query(escrows, keys.drop_last()) + match find_escrow(escrows, keys.last()) {
            Some(e) => seq![e],
            None => Seq::empty(),
        }
    }
}

/// Whether an escrow involves the account in the given role.
pub open spec fn role_matches(role: AccountRole, e: EscrowM, account: Seq<char>) -> bool {
    match role {
        AccountRole::Creator => e.creator == account,
        AccountRole::Recipient => e.recipient == account,
    }
}

/// The escrows involving an account in the given role, in store scan order.
pub open spec fn account_filter(
    escrows: Seq<EscrowM>,
    account: Seq<char>,
    role: AccountRole,
) -> Seq<EscrowM>
    decreases escrows.len(),
{
    if escrows.len() == 0 {
        Seq::empty()
    } else {
        account_filter(escrows.drop_last(), account, role) + if role_matches(
            role,
            escrows.last(),
            account,
        ) {
            seq![escrows.last()]
        } else {
            Seq::empty()
        }
    }
}

/// An escrow placed into an id-sorted sequence: before the first escrow
/// whose identifier does not sort below its own.
pub open spec fn insert_by_id(e: EscrowM, s: Seq<EscrowM>) -> Seq<EscrowM>
    decreases s.len(),
{
    if s.len() == 0 {
        seq![e]
    } else if text_le(e.hashlock, s[0].hashlock) {
        seq![e] + s
    } else {
        seq![s[0]] + insert_by_id(e, s.drop_first())
    }
}

/// The escrows rearranged ascending by identifier, by insertion.
pub open spec fn sort_by_id(s: Seq<EscrowM>) -> Seq<EscrowM>
    decreases s.len(),
{
    if s.len() == 0 {
        Seq::empty()
    } else {
        insert_by_id(s.last(), sort_by_id(s.drop_last()))
    }
}

/// Where the scan for the insertion point stops is where `insert_by_id`
/// places the escrow.
proof fn lemma_insert_by_id_at(e: EscrowM, s: Seq<EscrowM>, p: int)
    requires
        0 <= p <= s.len(),
        forall|j: int| 0 <= j < p ==> !text_le(e.hashlock, (#[trigger] s[j]).hashlock),
        p < s.len() ==> text_le(e.hashlock, s[p].hashlock),
    ensures
        insert_by_id(e, s) == s.insert(p, e),
    decreases s.len(),
{
    if p == 0 {
        if s.len() == 0 {
            assert(insert_by_id(e, s) =~= s.insert(0, e));
        } else {
            assert(seq![e] + s =~= s.insert(0, e));
        }
    } else {
        assert(!text_le(e.hashlock, s[0].hashlock));
        lemma_insert_by_id_at(e, s.drop_first(), p - 1);
        assert(seq![s[0]] + s.drop_first().insert(p - 1, e) =~= s.insert(p, e));
    }
}

/// The full contract of a single creation: either it succeeds with the new
/// record appended, the creator's index grown, no transfer, and the
/// creation event, or it fails with exactly the error [`create_err`]
/// assigns and the state unchanged.
pub open spec fn create_post(
    pre: EscrowStateMachine,
    now: u64,
    sender: Seq<char>,
    funds: Seq<crate::response::CoinM>,
    it: EscrowInputM,
    r: Result<Response, ContractError>,
    post: EscrowStateMachine,
) -> bool {
    &&& post.config == pre.config
    &&& post.admin == pre.admin
    &&& post.hash_algo == pre.hash_algo
    &&& post.claim_policy == pre.claim_policy
    &&& match r {
        Ok(resp) => {
            &&& create_err(pre.escrows@, now, it, funds) is None
            &&& post.escrows@ == pre.escrows@.push(staged_escrow(sender, it))
            &&& post.users@ == user_append(pre.users@, sender, canonical_id(it.hashlock))
            &&& resp@.messages == Seq::<TransferM>::empty()
            &&& resp@.attributes == create_attrs(
                sender,
                it.recipient,
                canonical_id(it.hashlock),
                it.amount,
            )
        },
        Err(e) => {
            &&& create_err(pre.escrows@, now, it, funds) == Some(e@)
            &&& post == pre
        },
    }
}

/// The full contract of a batch creation: either every item commits, the
/// creator's index grows by every identifier, no transfer is issued and one
/// event reports count and total, or the batch fails with exactly the error
/// [`batch_err`] assigns and nothing is persisted.
pub open spec fn batch_post(
    pre: EscrowStateMachine,
    now: u64,
    sender: Seq<char>,
    funds: Seq<crate::response::CoinM>,
    items: Seq<EscrowInputM>,
    r: Result<Response, ContractError>,
    post: EscrowStateMachine,
) -> bool {
    &&& post.config == pre.config
    &&& post.admin == pre.admin
    &&& post.hash_algo == pre.hash_algo
    &&& post.claim_policy == pre.claim_policy
    &&& match r {
        Ok(resp) => {
            &&& batch_err(pre.escrows@, pre.config, now, sender, items, funds) is None
            &&& post.escrows@ == pre.escrows@ + staged_models(sender, items)
            &&& post.users@ == batch_users(pre.users@, sender, items)
            &&& resp@.messages == Seq::<TransferM>::empty()
            &&& resp@.attributes == batch_attrs(sender, items)
        },
        Err(e) => {
            &&& batch_err(pre.escrows@, pre.config, now, sender, items, funds) == Some(e@)
            &&& post == pre
        },
    }
}

/// The full contract of a claim: either the escrow moves to `Claimed`, one
/// transfer of its amount goes to its recipient and the claim event is
/// emitted, or the claim fails with exactly the error [`claim_err`] assigns
/// and the state unchanged.
pub open spec fn claim_post(
    pre: EscrowStateMachine,
    now: u64,
    sender: Seq<char>,
    hashlock: Seq<char>,
    secret: Seq<char>,
    r: Result<Response, ContractError>,
    post: EscrowStateMachine,
) -> bool {
    &&& post.users == pre.users
    &&& post.config == pre.config
    &&& post.admin == pre.admin
    &&& post.hash_algo == pre.hash_algo
    &&& post.claim_policy == pre.claim_policy
    &&& match r {
        Ok(resp) => {
            let e = find_escrow(pre.escrows@, hashlock).unwrap();
            &&& claim_err(
                pre.escrows@,
                now,
                sender,
                pre.claim_policy,
                pre.hash_algo,
                hashlock,
                secret,
            ) is None
            &&& post.escrows@ == pre.escrows@.update(
                escrow_index(pre.escrows@, hashlock),
                with_status(e, EscrowStatus::Claimed),
            )
            &&& resp@.messages == seq![
                TransferM { to_address: e.recipient, denom: "uatom"@, amount: e.amount },
            ]
            &&& resp@.attributes == claim_attrs(hashlock, e.recipient, e.amount)
        },
        Err(err) => {
            &&& claim_err(
                pre.escrows@,
                now,
                sender,
                pre.claim_policy,
                pre.hash_algo,
                hashlock,
                secret,
            ) == Some(err@)
            &&& post == pre
        },
    }
}

/// The full contract of a refund: either the escrow moves to `Refunded`,
/// one transfer of its amount goes back to its creator and the refund event
/// is emitted, or the refund fails with exactly the error [`refund_err`]
/// assigns and the state unchanged.
pub open spec fn refund_post(
    pre: EscrowStateMachine,
    now: u64,
    sender: Seq<char>,
    hashlock: Seq<char>,
    r: Result<Response, ContractError>,
    post: EscrowStateMachine,
) -> bool {
    &&& post.users == pre.users
    &&& post.config == pre.config
    &&& post.admin == pre.admin
    &&& post.hash_algo == pre.hash_algo
    &&& post.claim_policy == pre.claim_policy
    &&& match r {
        Ok(resp) => {
            let e = find_escrow(pre.escrows@, hashlock).unwrap();
            &&& refund_err(pre.escrows@, now, sender, hashlock) is None
            &&& post.escrows@ == pre.escrows@.update(
                escrow_index(pre.escrows@, hashlock),
                with_status(e, EscrowStatus::Refunded),
            )
            &&& resp@.messages == seq![
                TransferM { to_address: e.creator, denom: "uatom"@, amount: e.amount },
            ]
            &&& resp@.attributes == refund_attrs(hashlock, e.creator, e.amount)
        },
        Err(err) => {
            &&& refund_err(pre.escrows@, now, sender, hashlock) == Some(err@)
            &&& post == pre
        },
    }
}

/// The full contract of a configuration update: the administrator merges
/// the supplied fields and the event reflects the result; any other caller
/// is turned away with the state unchanged.
pub open spec fn update_config_post(
    pre: EscrowStateMachine,
    sender: Seq<char>,
    claim_fee: Option<u128>,
    refund_fee: Option<u128>,
    max_batch_size: Option<u32>,
    paused: Option<bool>,
    r: Result<Response, ContractError>,
    post: EscrowStateMachine,
) -> bool {
    &&& post.escrows == pre.escrows
    &&& post.users == pre.users
    &&& post.admin == pre.admin
    &&& post.hash_algo == pre.hash_algo
    &&& post.claim_policy == pre.claim_policy
    &&& match r {
        Ok(resp) => {
            &&& sender == pre.admin@
            &&& post.config == merged_config(
                pre.config,
                claim_fee,
                refund_fee,
                max_batch_size,
                paused,
            )
            &&& resp@.messages == Seq::<TransferM>::empty()
            &&& resp@.attributes == config_attrs(post.config)
        },
        Err(err) => {
            &&& sender != pre.admin@
            &&& err@ == ErrorM::Unauthorized
            &&& post == pre
        },
    }
}

/// Whether any of the staged escrows bears `key`.
fn vec_contains_escrow(v: &Vec<Escrow>, key: &String) -> (r: bool)
    ensures
        r == contains_escrow(v@.map_values(|e: Escrow| e@), key@),
{
    let ghost s = v@.map_values(|e: Escrow| e@);
    let n = v.len();
    let mut i: usize = 0;
    while i < n
        invariant
            0 <= i <= n,
            n == v@.len(),
            s == v@.map_values(|e: Escrow| e@),
            forall|j: int| 0 <= j < i ==> (#[trigger] s[j]).hashlock != key@,
        decreases n - i,
    {
        if str_eq(v[i].hashlock.as_str(), key.as_str()) {
            proof {
                crate::state::lemma_find_escrow(s, key@);
                assert(s[i as int].hashlock == key@);
            }
            return true;
        }
        proof {
            assert(s[i as int] == v@[i as int]@);
        }
        i = i + 1;
    }
    proof {
        crate::state::lemma_find_escrow(s, key@);
    }
    false
}

/// The escrow state machine. All mutating requests go through it; the host
/// supplies the caller identity, the attached funds, and the wall-clock
/// time, read once per call.
pub struct EscrowStateMachine {
    /// Escrow records, keyed by canonical hashlock.
    pub escrows: EscrowStore,
    /// Which account created which escrows; append-only.
    pub users: UserIndex,
    /// The operational configuration.
    pub config: Config,
    /// The only account allowed to update the configuration.
    pub admin: String,
    /// The digest algorithm secrets are verified with.
    pub hash_algo: HashAlgo,
    /// Who may claim: the recorded recipient only, or anyone.
    pub claim_policy: ClaimPolicy,
}

impl EscrowStateMachine {
    /// Both stores are well formed.
    pub open spec fn wf(&self) -> bool {
        &&& self.escrows.wf()
        &&& self.users.wf()
    }

    /// Initializes the engine: empty stores, default configuration, and the
    /// given administrator (the instantiating sender when absent).
    pub fn instantiate(
        sender: &String,
        msg: InstantiateMsg,
        hash_algo: HashAlgo,
        claim_policy: ClaimPolicy,
    ) -> (sm: EscrowStateMachine)
        ensures
            sm.wf(),
            sm.escrows@ == Seq::<EscrowM>::empty(),
            sm.users@ == Seq::<crate::state::UserEntryM>::empty(),
            sm.config == default_config(),
            sm.admin@ == match msg.admin {
                Some(a) => a@,
                None => sender@,
            },
            sm.hash_algo == hash_algo,
            sm.claim_policy == claim_policy,
    {
        let admin = match msg.admin {
            Some(a) => a,
            None => sender.clone(),
        };
        EscrowStateMachine {
            escrows: EscrowStore::new(),
            users: UserIndex::new(),
            config: Config { claim_fee: 1000, refund_fee: 500, max_batch_size: 10, paused: false },
            admin,
            hash_algo,
            claim_policy,
        }
    }

    /// Creates one escrow. On success the record is stored under its
    /// canonical identifier, the creator's index grows by that identifier,
    /// and the event names action, creator, recipient, hashlock and amount;
    /// on failure the state is unchanged and the error is exactly what
    /// [`create_err`] assigns to the inputs.
    pub fn execute_create_escrow(
        &mut self,
        now: u64,
        sender: &String,
        funds: &Vec<Coin>,
        recipient: String,
        hashlock: String,
        timelock: u64,
        token: String,
        amount: u128,
    ) -> (r: Result<Response, ContractError>)
        requires
            old(self).wf(),
        ensures
            final(self).wf(),
            create_post(
                *old(self),
                now,
                sender@,
                coins_view(funds@),
                input_m(recipient@, hashlock@, timelock, token@, amount),
                r,
                *final(self),
            ),
    {
        if !validate_address(recipient.as_str()) {
            return Err(ContractError::InvalidAddress);
        }
        let trimmed = strip_prefix_0x(hashlock.as_str());
        let bytes = match hex_decode(trimmed) {
            Some(b) => b,
            None => {
                return Err(ContractError::InvalidHashlock(hashlock));
            },
        };
        if bytes.len() != 32 {
            return Err(ContractError::InvalidHashlock(hashlock));
        }
        if timelock <= now {
            return Err(ContractError::InvalidTimelock { current: now, timelock });
        }
        let id = hex_encode(bytes.as_slice());
        if self.escrows.has(&id) {
            return Err(ContractError::EscrowAlreadyExists);
        }
        if !str_eq(token.as_str(), native_denom()) {
            return Err(ContractError::UnsupportedToken(token));
        }
        if amount == 0 {
            return Err(ContractError::InvalidFunds);
        }
        let sent = sent_amount(funds, native_denom());
        if sent < amount {
            return Err(ContractError::InsufficientFunds { required: amount, sent });
        }
        let escrow = Escrow {
            creator: sender.clone(),
            recipient: recipient.clone(),
            hashlock: id.clone(),
            timelock,
            token,
            amount,
            status: EscrowStatus::Active,
        };
        self.escrows.save(escrow);
        self.users.append(sender, &id);
        let mut resp = Response::new();
        let ghost attrs0 = resp@.attributes;
        resp.push_attr("action", "create_escrow".to_owned());
        resp.push_attr("creator", sender.clone());
        resp.push_attr("recipient", recipient);
        resp.push_attr("hashlock", id);
        resp.push_attr("amount", u128_to_string(amount));
        proof {
            assert(resp@.attributes =~= create_attrs(
                sender@,
                recipient@,
                canonical_id(hashlock@),
                amount,
            ));
        }
        Ok(resp)
    }

    /// Creates a batch of escrows, all or nothing. The items are validated
    /// sequentially with the single-creation rules (each against the store
    /// plus what the batch staged before it); the first failing item aborts
    /// the whole batch with its error and nothing is persisted. After all
    /// items pass, the accumulated total must not exceed the attached
    /// funds. On success every record is stored, the creator's index grows
    /// by every identifier, and one event reports the count and the total.
    pub fn execute_create_batch_escrows(
        &mut self,
        now: u64,
        sender: &String,
        funds: &Vec<Coin>,
        escrows_in: Vec<EscrowInput>,
    ) -> (r: Result<Response, ContractError>)
        requires
            old(self).wf(),
            total_amount(inputs_view(escrows_in@)) <= u128::MAX,
        ensures
            final(self).wf(),
            batch_post(
                *old(self),
                now,
                sender@,
                coins_view(funds@),
                inputs_view(escrows_in@),
                r,
                *final(self),
            ),
    {
        let ghost items = inputs_view(escrows_in@);
        let n = escrows_in.len();
        if n == 0 || n > self.config.max_batch_size as usize {
            return Err(ContractError::InvalidBatchSize);
        }
        let mut staged: Vec<Escrow> = Vec::new();
        let mut total: u128 = 0;
        let mut idx: usize = 0;
        proof {
            assert(staged@.map_values(|e: Escrow| e@) =~= staged_models(sender@, items.take(0)));
            assert(old(self).escrows@ + staged_models(sender@, items.take(0)) =~= old(
                self,
            ).escrows@);
            assert(items.take(0) =~= Seq::<EscrowInputM>::empty());
            assert(items.skip(0) =~= items);
        }
        while idx < n
            invariant
                0 <= idx <= n,
                n == escrows_in@.len(),
                items == inputs_view(escrows_in@),
                items.len() == n,
                0 < n,
                n <= old(self).config.max_batch_size as usize,
                *self == *old(self),
                old(self).wf(),
                total_amount(items) <= u128::MAX,
                staged@.map_values(|e: Escrow| e@) == staged_models(sender@, items.take(idx as int)),
                escrow_keys_unique(
                    old(self).escrows@ + staged_models(sender@, items.take(idx as int)),
                ),
                batch_scan_err(old(self).escrows@, now, sender@, items) == batch_scan_err(
                    old(self).escrows@ + staged_models(sender@, items.take(idx as int)),
                    now,
                    sender@,
                    items.skip(idx as int),
                ),
                total == total_amount(items.take(idx as int)),
            decreases n - idx,
        {
            let ghost svm = staged_models(sender@, items.take(idx as int));
            let ghost ctx = old(self).escrows@ + svm;
            proof {
                assert(items[idx as int] == escrows_in@[idx as int]@);
                assert(items.skip(idx as int)[0] == items[idx as int]);
                assert(items.skip(idx as int).drop_first() =~= items.skip(idx as int + 1));
            }
            let it = &escrows_in[idx];
            if !validate_address(it.recipient.as_str()) {
                return Err(ContractError::InvalidAddress);
            }
            let trimmed = strip_prefix_0x(it.hashlock.as_str());
            let bytes = match hex_decode(trimmed) {
                Some(b) => b,
                None => {
                    return Err(ContractError::InvalidHashlock(it.hashlock.clone()));
                },
            };
            if bytes.len() != 32 {
                return Err(ContractError::InvalidHashlock(it.hashlock.clone()));
            }
            if it.timelock <= now {
                return Err(ContractError::InvalidTimelock {
                    current: now,
                    timelock: it.timelock,
                });
            }
            let id = hex_encode(bytes.as_slice());
            proof {
                lemma_find_escrow_concat(old(self).escrows@, svm, id@);
            }
            if self.escrows.has(&id) || vec_contains_escrow(&staged, &id) {
                return Err(ContractError::EscrowAlreadyExists);
            }
            if !str_eq(it.token.as_str(), native_denom()) {
                return Err(ContractError::UnsupportedToken(it.token.clone()));
            }
            if it.amount == 0 {
                return Err(ContractError::InvalidFunds);
            }
            proof {
                assert(item_err(ctx, now, items[idx as int]) is None);
                lemma_total_prefix_le(items, idx as int + 1);
                lemma_total_nonneg(items.take(idx as int));
                assert(items.take(idx as int + 1).drop_last() =~= items.take(idx as int));
                assert(items.take(idx as int + 1).last() == items[idx as int]);
            }
            let escrow = Escrow {
                creator: sender.clone(),
                recipient: it.recipient.clone(),
                hashlock: id,
                timelock: it.timelock,
                token: it.token.clone(),
                amount: it.amount,
                status: EscrowStatus::Active,
            };
            proof {
                assert(escrow@ == staged_escrow(sender@, items[idx as int]));
            }
            staged.push(escrow);
            total = total + it.amount;
            proof {
                let st = staged_escrow(sender@, items[idx as int]);
                assert(staged@.map_values(|e: Escrow| e@) =~= svm.push(st));
                assert(staged_models(sender@, items.take(idx as int + 1)) =~= svm.push(st));
                assert(ctx.push(st) =~= old(self).escrows@ + svm.push(st));
                crate::state::lemma_find_escrow_push(ctx, st);
            }
            idx = idx + 1;
        }
        proof {
            assert(items.take(n as int) =~= items);
            assert(items.skip(n as int) =~= Seq::<EscrowInputM>::empty());
            lemma_total_nonneg(items);
        }
        let sent = sent_amount(funds, native_denom());
        if sent < total {
            return Err(ContractError::InsufficientFunds { required: total, sent });
        }
        let ghost svm_all = staged_models(sender@, items);
        let m = staged.len();
        let mut j: usize = 0;
        proof {
            assert(self.escrows@ + svm_all.take(0) =~= self.escrows@);
            assert(batch_users(old(self).users@, sender@, items.take(0)) == old(self).users@) by {
                assert(items.take(0) =~= Seq::<EscrowInputM>::empty());
            }
        }
        while j < m
            invariant
                0 <= j <= m,
                m == staged@.len(),
                items == inputs_view(escrows_in@),
                staged@.map_values(|e: Escrow| e@) == svm_all,
                svm_all == staged_models(sender@, items),
                items.len() == m,
                escrow_keys_unique(old(self).escrows@ + svm_all),
                self.escrows@ == old(self).escrows@ + svm_all.take(j as int),
                self.users@ == batch_users(old(self).users@, sender@, items.take(j as int)),
                self.escrows.wf(),
                self.users.wf(),
                self.config == old(self).config,
                self.admin == old(self).admin,
                self.hash_algo == old(self).hash_algo,
                self.claim_policy == old(self).claim_policy,
            decreases m - j,
        {
            let ghost full = old(self).escrows@ + svm_all;
            let ghost cur = self.escrows@;
            proof {
                assert(svm_all[j as int] == staged@[j as int]@);
                assert(svm_all[j as int] == staged_escrow(sender@, items[j as int])) by {
                    assert(items.take(m as int) =~= items);
                }
                crate::state::lemma_find_escrow(cur, svm_all[j as int].hashlock);
                assert forall|p: int| 0 <= p < cur.len() implies (#[trigger] cur[p]).hashlock
                    != svm_all[j as int].hashlock by {
                    assert(cur[p] == full[p]);
                    assert(svm_all[j as int] == full[old(self).escrows@.len() + j]);
                }
                assert(!contains_escrow(cur, svm_all[j as int].hashlock));
            }
            let e = staged[j].duplicate();
            self.escrows.save(e);
            self.users.append(sender, &staged[j].hashlock);
            proof {
                assert(self.escrows@ =~= old(self).escrows@ + svm_all.take(j as int + 1));
                assert(items.take(j as int + 1).drop_last() =~= items.take(j as int));
                assert(items.take(j as int + 1).last() == items[j as int]);
                assert(self.users@ == batch_users(
                    old(self).users@,
                    sender@,
                    items.take(j as int + 1),
                ));
            }
            j = j + 1;
        }
        proof {
            assert(svm_all.take(m as int) =~= svm_all);
            assert(items.take(m as int) =~= items);
        }
        let mut resp = Response::new();
        resp.push_attr("action", "create_batch_escrows".to_owned());
        resp.push_attr("creator", sender.clone());
        resp.push_attr("count", u128_to_string(n as u128));
        resp.push_attr("total_amount", u128_to_string(total));
        proof {
            assert(resp@.attributes =~= batch_attrs(sender@, items));
        }
        Ok(resp)
    }

    /// Claims an active escrow by revealing its secret. On success the
    /// status moves to `Claimed`, one transfer of the amount goes to the
    /// recorded recipient, and the event names action, escrow, recipient
    /// and amount; on failure the state is unchanged and the error is
    /// exactly what [`claim_err`] assigns to the inputs.
    pub fn execute_claim(
        &mut self,
        now: u64,
        sender: &String,
        hashlock: String,
        secret: String,
    ) -> (r: Result<Response, ContractError>)
        requires
            old(self).wf(),
        ensures
            final(self).wf(),
            claim_post(*old(self), now, sender@, hashlock@, secret@, r, *final(self)),
    {
        let escrow = match self.escrows.get(&hashlock) {
            Some(e) => e.duplicate(),
            None => {
                return Err(ContractError::EscrowNotFound);
            },
        };
        proof {
            crate::state::lemma_find_escrow(self.escrows@, hashlock@);
        }
        if escrow.status != EscrowStatus::Active {
            return Err(ContractError::EscrowClosed);
        }
        if now >= escrow.timelock {
            return Err(ContractError::TimelockExpired);
        }
        if self.claim_policy == ClaimPolicy::RecipientOnly && !str_eq(
            sender.as_str(),
            escrow.recipient.as_str(),
        ) {
            return Err(ContractError::UnauthorizedRedeem);
        }
        let digest = compute_digest(self.hash_algo, secret.as_str().as_bytes());
        let computed = hex_encode(digest.as_slice());
        if !str_eq(computed.as_str(), escrow.hashlock.as_str()) {
            return Err(ContractError::InvalidSecret);
        }
        if !str_eq(escrow.token.as_str(), native_denom()) {
            return Err(ContractError::UnsupportedToken(escrow.token));
        }
        let recipient = escrow.recipient.clone();
        let amount = escrow.amount;
        let mut updated = escrow;
        updated.status = EscrowStatus::Claimed;
        self.escrows.save(updated);
        let mut resp = Response::new();
        resp.push_transfer(recipient.clone(), native_denom(), amount);
        resp.push_attr("action", "claim".to_owned());
        resp.push_attr("escrow", hashlock);
        resp.push_attr("recipient", recipient);
        resp.push_attr("amount", u128_to_string(amount));
        proof {
            let e = find_escrow(old(self).escrows@, hashlock@).unwrap();
            assert(resp@.messages =~= seq![
                TransferM { to_address: e.recipient, denom: "uatom"@, amount: e.amount },
            ]);
            assert(resp@.attributes =~= claim_attrs(hashlock@, e.recipient, e.amount));
        }
        Ok(resp)
    }

    /// Refunds an expired, unclaimed escrow to its creator. On success the
    /// status moves to `Refunded`, one transfer of the amount goes back to
    /// the recorded creator, and the event names action, escrow, creator
    /// and amount; on failure the state is unchanged and the error is
    /// exactly what [`refund_err`] assigns to the inputs.
    pub fn execute_refund(&mut self, now: u64, sender: &String, hashlock: String) -> (r: Result<
        Response,
        ContractError,
    >)
        requires
            old(self).wf(),
        ensures
            final(self).wf(),
            refund_post(*old(self), now, sender@, hashlock@, r, *final(self)),
    {
        let escrow = match self.escrows.get(&hashlock) {
            Some(e) => e.duplicate(),
            None => {
                return Err(ContractError::EscrowNotFound);
            },
        };
        proof {
            crate::state::lemma_find_escrow(self.escrows@, hashlock@);
        }
        if escrow.status != EscrowStatus::Active {
            return Err(ContractError::EscrowClosed);
        }
        if now < escrow.timelock {
            return Err(ContractError::TimelockNotExpired {
                expires: escrow.timelock,
                current: now,
            });
        }
        if !str_eq(sender.as_str(), escrow.creator.as_str()) {
            return Err(ContractError::UnauthorizedRefund);
        }
        if !str_eq(escrow.token.as_str(), native_denom()) {
            return Err(ContractError::UnsupportedToken(escrow.token));
        }
        let creator = escrow.creator.clone();
        let amount = escrow.amount;
        let mut updated = escrow;
        updated.status = EscrowStatus::Refunded;
        self.escrows.save(updated);
        let mut resp = Response::new();
        resp.push_transfer(creator.clone(), native_denom(), amount);
        resp.push_attr("action", "refund".to_owned());
        resp.push_attr("escrow", hashlock);
        resp.push_attr("creator", creator);
        resp.push_attr("amount", u128_to_string(amount));
        proof {
            let e = find_escrow(old(self).escrows@, hashlock@).unwrap();
            assert(resp@.messages =~= seq![
                TransferM { to_address: e.creator, denom: "uatom"@, amount: e.amount },
            ]);
            assert(resp@.attributes =~= refund_attrs(hashlock@, e.creator, e.amount));
        }
        Ok(resp)
    }

    /// Updates the configuration, administrator only: supplied fields
    /// overwrite, absent fields keep their value. The event reflects the
    /// resulting configuration.
    pub fn execute_update_config(
        &mut self,
        sender: &String,
        claim_fee: Option<u128>,
        refund_fee: Option<u128>,
        max_batch_size: Option<u32>,
        paused: Option<bool>,
    ) -> (r: Result<Response, ContractError>)
        requires
            old(self).wf(),
        ensures
            final(self).wf(),
            update_config_post(
                *old(self),
                sender@,
                claim_fee,
                refund_fee,
                max_batch_size,
                paused,
                r,
                *final(self),
            ),
    {
        if !str_eq(sender.as_str(), self.admin.as_str()) {
            return Err(ContractError::Unauthorized);
        }
        if let Some(fee) = claim_fee {
            self.config.claim_fee = fee;
        }
        if let Some(fee) = refund_fee {
            self.config.refund_fee = fee;
        }
        if let Some(size) = max_batch_size {
            self.config.max_batch_size = size;
        }
        if let Some(pause) = paused {
            self.config.paused = pause;
        }
        let mut resp = Response::new();
        resp.push_attr("action", "update_config".to_owned());
        resp.push_attr("claim_fee", u128_to_string(self.config.claim_fee));
        resp.push_attr("refund_fee", u128_to_string(self.config.refund_fee));
        resp.push_attr("max_batch_size", u128_to_string(self.config.max_batch_size as u128));
        resp.push_attr("paused", bool_to_string(self.config.paused));
        proof {
            assert(resp@.attributes =~= config_attrs(self.config));
        }
        Ok(resp)
    }

    /// Performs one mutating request: unless the engine is paused, the
    /// request is dispatched to the matching operation, whose contract
    /// applies unchanged; when paused, every mutating request fails with
    /// `ContractPaused` and the state is untouched.
    pub fn execute(
        &mut self,
        now: u64,
        sender: &String,
        funds: &Vec<Coin>,
        msg: ExecuteMsg,
    ) -> (r: Result<Response, ContractError>)
        requires
            old(self).wf(),
            msg matches ExecuteMsg::CreateBatchEscrows { escrows } ==> total_amount(
                inputs_view(escrows@),
            ) <= u128::MAX,
        ensures
            final(self).wf(),
            old(self).config.paused ==> *final(self) == *old(self) && (match r {
                Err(e) => e@ == ErrorM::ContractPaused,
                Ok(_) => false,
            }),
            !old(self).config.paused ==> match msg {
                ExecuteMsg::CreateEscrow { recipient, hashlock, timelock, token, amount } => {
                    create_post(
                        *old(self),
                        now,
                        sender@,
                        coins_view(funds@),
                        input_m(recipient@, hashlock@, timelock, token@, amount),
                        r,
                        *final(self),
                    )
                },
                ExecuteMsg::CreateBatchEscrows { escrows } => {
                    batch_post(
                        *old(self),
                        now,
                        sender@,
                        coins_view(funds@),
                        inputs_view(escrows@),
                        r,
                        *final(self),
                    )
                },
                ExecuteMsg::Claim { hashlock, secret } => {
                    claim_post(*old(self), now, sender@, hashlock@, secret@, r, *final(self))
                },
                ExecuteMsg::Refund { hashlock } => {
                    refund_post(*old(self), now, sender@, hashlock@, r, *final(self))
                },
                ExecuteMsg::UpdateConfig { claim_fee, refund_fee, max_batch_size, paused } => {
                    update_config_post(
                        *old(self),
                        sender@,
                        claim_fee,
                        refund_fee,
                        max_batch_size,
                        paused,
                        r,
                        *final(self),
                    )
                },
            },
    {
        if self.config.paused {
            return Err(ContractError::ContractPaused);
        }
        match msg {
            ExecuteMsg::CreateEscrow { recipient, hashlock, timelock, token, amount } => self
                .execute_create_escrow(
                now,
                sender,
                funds,
                recipient,
                hashlock,
                timelock,
                token,
                amount,
            ),
            ExecuteMsg::CreateBatchEscrows { escrows } => self.execute_create_batch_escrows(
                now,
                sender,
                funds,
                escrows,
            ),
            ExecuteMsg::Claim { hashlock, secret } => self.execute_claim(
                now,
                sender,
                hashlock,
                secret,
            ),
            ExecuteMsg::Refund { hashlock } => self.execute_refund(now, sender, hashlock),
            ExecuteMsg::UpdateConfig { claim_fee, refund_fee, max_batch_size, paused } => self
                .execute_update_config(sender, claim_fee, refund_fee, max_batch_size, paused),
        }
    }

    /// The full record stored under `hashlock`, or `EscrowNotFound`.
    pub fn query_escrow(&self, hashlock: &String) -> (r: Result<EscrowResponse, ContractError>)
        ensures
            match r {
                Ok(resp) => find_escrow(self.escrows@, hashlock@) == Some(resp@),
                Err(e) => find_escrow(self.escrows@, hashlock@) is None && e@
                    == ErrorM::EscrowNotFound,
            },
    {
        match self.escrows.get(hashlock) {
            Some(e) => Ok(escrow_response(e)),
            None => Err(ContractError::EscrowNotFound),
        }
    }

    /// The records stored under the given identifiers, in request order;
    /// identifiers that miss are silently omitted.
    pub fn query_batch_escrows(&self, hashlocks: &Vec<String>) -> (r: BatchEscrowResponse)
        ensures
            responses_view(r.escrows@) == batch_query(self.escrows@, keys_view(hashlocks@)),
    {
        let ghost keys = keys_view(hashlocks@);
        let n = hashlocks.len();
        let mut out: Vec<EscrowResponse> = Vec::new();
        let mut i: usize = 0;
        proof {
            assert(keys.take(0) =~= Seq::<Seq<char>>::empty());
            assert(responses_view(out@) =~= batch_query(self.escrows@, keys.take(0)));
        }
        while i < n
            invariant
                0 <= i <= n,
                n == hashlocks@.len(),
                keys == keys_view(hashlocks@),
                responses_view(out@) == batch_query(self.escrows@, keys.take(i as int)),
            decreases n - i,
        {
            let ghost before = responses_view(out@);
            proof {
                assert(keys.take(i as int + 1).drop_last() =~= keys.take(i as int));
                assert(keys.take(i as int + 1).last() == keys[i as int]);
                assert(keys[i as int] == hashlocks@[i as int]@);
            }
            match self.escrows.get(&hashlocks[i]) {
                Some(e) => {
                    let resp = escrow_response(e);
                    let ghost rm = resp@;
                    out.push(resp);
                    proof {
                        assert(responses_view(out@) =~= before + seq![rm]);
                    }
                },
                None => {
                    proof {
                        assert(before + Seq::<EscrowM>::empty() =~= before);
                    }
                },
            }
            i = i + 1;
        }
        proof {
            assert(keys.take(n as int) =~= keys);
        }
        BatchEscrowResponse { escrows: out }
    }

    /// The identifiers recorded for `user`, or an empty list and zero count
    /// if the account never created an escrow.
    pub fn query_user_escrows(&self, user: &String) -> (r: UserEscrowsResponse)
        ensures
            match find_user(self.users@, user@) {
                Some(u) => r@.escrow_ids == u.escrow_ids && r.count == u.count,
                None => r@.escrow_ids == Seq::<Seq<char>>::empty() && r.count == 0,
            },
    {
        match self.users.get(user) {
            Some(u) => {
                let d = u.duplicate();
                let r = UserEscrowsResponse { escrow_ids: d.escrow_ids, count: d.count };
                proof {
                    assert(r@.escrow_ids =~= d@.escrow_ids);
                }
                r
            },
            None => {
                let r = UserEscrowsResponse { escrow_ids: Vec::new(), count: 0 };
                proof {
                    assert(r@.escrow_ids =~= Seq::<Seq<char>>::empty());
                }
                r
            },
        }
    }

    /// The current configuration.
    pub fn query_config(&self) -> (r: ConfigResponse)
        ensures
            r.as_config() == self.config,
    {
        ConfigResponse {
            claim_fee: self.config.claim_fee,
            refund_fee: self.config.refund_fee,
            max_batch_size: self.config.max_batch_size,
            paused: self.config.paused,
        }
    }

    /// Every escrow involving `account` in the given role, found by a full
    /// scan of the store, returned ascending by identifier.
    pub fn query_escrows_by_account(&self, account: &String, role: AccountRole) -> (r:
        BatchEscrowResponse)
        ensures
            responses_view(r.escrows@) == sort_by_id(
                account_filter(self.escrows@, account@, role),
            ),
    {
        let n = self.escrows.len();
        let mut out: Vec<EscrowResponse> = Vec::new();
        let mut i: usize = 0;
        proof {
            assert(self.escrows@.take(0) =~= Seq::<EscrowM>::empty());
            assert(responses_view(out@) =~= sort_by_id(
                account_filter(self.escrows@.take(0), account@, role),
            ));
        }
        while i < n
            invariant
                0 <= i <= n,
                n == self.escrows@.len(),
                responses_view(out@) == sort_by_id(
                    account_filter(self.escrows@.take(i as int), account@, role),
                ),
            decreases n - i,
        {
            let ghost sorted = responses_view(out@);
            let ghost filtered = account_filter(self.escrows@.take(i as int), account@, role);
            proof {
                assert(self.escrows@.take(i as int + 1).drop_last() =~= self.escrows@.take(
                    i as int,
                ));
                assert(self.escrows@.take(i as int + 1).last() == self.escrows@[i as int]);
            }
            let e = self.escrows.at(i);
            let matches_role = match role {
                AccountRole::Creator => str_eq(e.creator.as_str(), account.as_str()),
                AccountRole::Recipient => str_eq(e.recipient.as_str(), account.as_str()),
            };
            if matches_role {
                let resp = escrow_response(e);
                let ghost rm = resp@;
                let len = out.len();
                let mut p: usize = 0;
                while p < len && !str_le(resp.hashlock.as_str(), out[p].hashlock.as_str())
                    invariant
                        0 <= p <= len,
                        len == out@.len(),
                        sorted == responses_view(out@),
                        rm == resp@,
                        forall|j: int|
                            0 <= j < p ==> !text_le(rm.hashlock, (#[trigger] sorted[j]).hashlock),
                    decreases len - p,
                {
                    proof {
                        assert(sorted[p as int] == out@[p as int]@);
                    }
                    p = p + 1;
                }
                proof {
                    if p < len {
                        assert(sorted[p as int] == out@[p as int]@);
                    }
                    lemma_insert_by_id_at(rm, sorted, p as int);
                }
                out.insert(p, resp);
                proof {
                    assert(responses_view(out@) =~= sorted.insert(p as int, rm));
                    assert(account_filter(self.escrows@.take(i as int + 1), account@, role)
                        == filtered + seq![rm]);
                    assert((filtered + seq![rm]).drop_last() =~= filtered);
                    assert((filtered + seq![rm]).last() == rm);
                }
            } else {
                proof {
                    assert(filtered + Seq::<EscrowM>::empty() =~= filtered);
                }
            }
            i = i + 1;
        }
        proof {
            assert(self.escrows@.take(n as int) =~= self.escrows@);
        }
        BatchEscrowResponse { escrows: out }
    }

    /// Answers one read-only request; queries bypass the pause gate.
    pub fn query(&self, msg: QueryMsg) -> (r: Result<QueryAnswer, ContractError>)
        ensures
            match msg {
                QueryMsg::GetEscrow { hashlock } => match r {
                    Ok(QueryAnswer::Escrow(resp)) => find_escrow(self.escrows@, hashlock@)
                        == Some(resp@),
                    Err(e) => find_escrow(self.escrows@, hashlock@) is None && e@
                        == ErrorM::EscrowNotFound,
                    _ => false,
                },
                QueryMsg::GetBatchEscrows { hashlocks } => match r {
                    Ok(QueryAnswer::Batch(resp)) => responses_view(resp.escrows@) == batch_query(
                        self.escrows@,
                        keys_view(hashlocks@),
                    ),
                    _ => false,
                },
                QueryMsg::GetUserEscrows { user } => match r {
                    Ok(QueryAnswer::Users(resp)) => match find_user(self.users@, user@) {
                        Some(u) => resp@.escrow_ids == u.escrow_ids && resp.count == u.count,
                        None => resp@.escrow_ids == Seq::<Seq<char>>::empty() && resp.count == 0,
                    },
                    _ => false,
                },
                QueryMsg::GetConfig {  } => match r {
                    Ok(QueryAnswer::Config(resp)) => resp.as_config() == self.config,
                    _ => false,
                },
                QueryMsg::GetEscrowsByAccount { account, role } => match r {
                    Ok(QueryAnswer::ByAccount(resp)) => responses_view(resp.escrows@)
                        == sort_by_id(account_filter(self.escrows@, account@, role)),
                    _ => false,
                },
            },
    {
        match msg {
            QueryMsg::GetEscrow { hashlock } => match self.query_escrow(&hashlock) {
                Ok(resp) => Ok(QueryAnswer::Escrow(resp)),
                Err(e) => Err(e),
            },
            QueryMsg::GetBatchEscrows { hashlocks } => Ok(
                QueryAnswer::Batch(self.query_batch_escrows(&hashlocks)),
            ),
            QueryMsg::GetUserEscrows { user } => Ok(
                QueryAnswer::Users(self.query_user_escrows(&user)),
            ),
            QueryMsg::GetConfig {  } => Ok(QueryAnswer::Config(self.query_config())),
            QueryMsg::GetEscrowsByAccount { account, role } => Ok(
                QueryAnswer::ByAccount(self.query_escrows_by_account(&account, role)),
            ),
        }
    }
}

/// The view of a stored escrow, ready to hand out.
fn escrow_response(e: &Escrow) -> (r: EscrowResponse)
    ensures
        r@ == e@,
{
    EscrowResponse {
        creator: e.creator.clone(),
        recipient: e.recipient.clone(),
        hashlock: e.hashlock.clone(),
        timelock: e.timelock,
        token: e.token.clone(),
        amount: e.amount,
        status: e.status,
    }
}

} // verus!
