//! The persisted state of the engine: the escrow store (keyed by hashlock),
//! the user index (keyed by creator account), and the configuration record.
//!
//! Both stores are association lists over vectors; their contracts speak of
//! a sequence-of-models view, with first-match lookup ([`find_escrow`],
//! [`find_user`]) and a well-formedness predicate (keys pairwise distinct,
//! counts mirroring lengths).

use vstd::prelude::*;
use vstd::std_specs::vec::vec_index_mut;

verus! {

/// The lifecycle state of an escrow. `Active` can move to `Claimed` or to
/// `Refunded`; both are terminal.
#[derive(Clone, Copy, Debug, PartialEq, Eq, Structural)]
pub enum EscrowStatus {
    Active,
    Claimed,
    Refunded,
}

/// One locked-funds commitment.
#[derive(Clone, Debug, PartialEq, Eq)]
pub struct Escrow {
    /// The account that created and funded the escrow.
    pub creator: String,
    /// The account entitled to claim with the secret.
    pub recipient: String,
    /// The identifier: hex text of a 32-byte digest of the secret.
    pub hashlock: String,
    /// Absolute expiry, in UNIX seconds.
    pub timelock: u64,
    /// The denomination of the locked funds.
    pub token: String,
    /// The locked quantity.
    pub amount: u128,
    pub status: EscrowStatus,
}

/// The model of an [`Escrow`].
pub ghost struct EscrowM {
    pub creator: Seq<char>,
    pub recipient: Seq<char>,
    pub hashlock: Seq<char>,
    pub timelock: u64,
    pub token: Seq<char>,
    pub amount: u128,
    pub status: EscrowStatus,
}

impl View for Escrow {
    type V = EscrowM;

    open spec fn view(&self) -> EscrowM {
        EscrowM {
            creator: self.creator@,
            recipient: self.recipient@,
            hashlock: self.hashlock@,
            timelock: self.timelock,
            token: self.token@,
            amount: self.amount,
            status: self.status,
        }
    }
}

impl Escrow {
    /// A field-for-field copy, with the model known to be preserved.
    pub fn duplicate(&self) -> (r: Escrow)
        ensures
            r@ == self@,
    {
        Escrow {
            creator: self.creator.clone(),
            recipient: self.recipient.clone(),
            hashlock: self.hashlock.clone(),
            timelock: self.timelock,
            token: self.token.clone(),
            amount: self.amount,
            status: self.status,
        }
    }
}

/// The escrows one account has created, in creation order, with a count
/// mirroring the length.
#[derive(Clone, Debug, PartialEq, Eq)]
pub struct UserEscrows {
    pub escrow_ids: Vec<String>,
    pub count: u64,
}

/// The model of a [`UserEscrows`].
pub ghost struct UserEscrowsM {
    pub escrow_ids: Seq<Seq<char>>,
    pub count: u64,
}

impl View for UserEscrows {
    type V = UserEscrowsM;

    open spec fn view(&self) -> UserEscrowsM {
        UserEscrowsM {
            escrow_ids: self.escrow_ids@.map_values(|s: String| s@),
            count: self.count,
        }
    }
}

impl UserEscrows {
    /// A copy whose identifiers and count are known to match.
    pub fn duplicate(&self) -> (r: UserEscrows)
        ensures
            r@ == self@,
    {
        let n = self.escrow_ids.len();
        let mut ids: Vec<String> = Vec::new();
        let mut i: usize = 0;
        while i < n
            invariant
                0 <= i <= n,
                n == self.escrow_ids@.len(),
                ids@.len() == i,
                forall|j: int| 0 <= j < i ==> (#[trigger] ids@[j])@ == self.escrow_ids@[j]@,
            decreases n - i,
        {
            ids.push(self.escrow_ids[i].clone());
            i = i + 1;
        }
        let r = UserEscrows { escrow_ids: ids, count: self.count };
        proof {
            assert(r@.escrow_ids =~= self@.escrow_ids);
        }
        r
    }
}

/// The operational configuration: fee quantities (stored and updatable, not
/// deducted anywhere), the batch-size ceiling, and the pause switch.
#[derive(Clone, Copy, Debug, PartialEq, Eq, Structural)]
pub struct Config {
    pub claim_fee: u128,
    pub refund_fee: u128,
    pub max_batch_size: u32,
    pub paused: bool,
}

/// The escrow under `key`, by first match (under well-formedness the match
/// is unique).
pub open spec fn find_escrow(s: Seq<EscrowM>, key: Seq<char>) -> Option<EscrowM>
    decreases s.len(),
{
    if s.len() == 0 {
        None
    } else if s[0].hashlock == key {
        Some(s[0])
    } else {
        find_escrow(s.drop_first(), key)
    }
}

/// Whether any escrow is stored under `key`.
pub open spec fn contains_escrow(s: Seq<EscrowM>, key: Seq<char>) -> bool {
    find_escrow(s, key) is Some
}

/// The position of the first escrow under `key` (meaningful only when one
/// is present).
pub open spec fn escrow_index(s: Seq<EscrowM>, key: Seq<char>) -> int
    decreases s.len(),
{
    if s.len() == 0 {
        0
    } else if s[0].hashlock == key {
        0
    } else {
        1 + escrow_index(s.drop_first(), key)
    }
}

/// No two stored escrows share a hashlock.
pub open spec fn escrow_keys_unique(s: Seq<EscrowM>) -> bool {
    forall|i: int, j: int|
        0 <= i < j < s.len() ==> (#[trigger] s[i]).hashlock != (#[trigger] s[j]).hashlock
}

/// How `find_escrow` and `escrow_index` relate to the elements: a key is
/// contained exactly when some element bears it, and then the index points
/// at the first such element, which is what `find_escrow` returns.
pub proof fn lemma_find_escrow(s: Seq<EscrowM>, key: Seq<char>)
    ensures
        contains_escrow(s, key) <==> exists|i: int|
            0 <= i < s.len() && (#[trigger] s[i]).hashlock == key,
        contains_escrow(s, key) ==> {
            let idx = escrow_index(s, key);
            &&& 0 <= idx < s.len()
            &&& s[idx].hashlock == key
            &&& find_escrow(s, key) == Some(s[idx])
            &&& forall|j: int| 0 <= j < idx ==> (#[trigger] s[j]).hashlock != key
        },
    decreases s.len(),
{
    if s.len() > 0 && s[0].hashlock != key {
        lemma_find_escrow(s.drop_first(), key);
        if contains_escrow(s, key) {
            let idx = escrow_index(s, key);
            assert(s[idx] == s.drop_first()[idx - 1]);
            assert(forall|j: int|
                1 <= j < idx ==> (#[trigger] s[j]) == s.drop_first()[j - 1]);
        }
        if exists|i: int| 0 <= i < s.len() && (#[trigger] s[i]).hashlock == key {
            let i = choose|i: int| 0 <= i < s.len() && (#[trigger] s[i]).hashlock == key;
            assert(s.drop_first()[i - 1].hashlock == key);
        }
    }
}

/// Appending an escrow leaves every other key's lookup unchanged, and the
/// new key's lookup finds the appended escrow if the key was fresh.
pub proof fn lemma_find_escrow_push(s: Seq<EscrowM>, m: EscrowM)
    ensures
        !contains_escrow(s, m.hashlock) ==> find_escrow(s.push(m), m.hashlock) == Some(m),
        forall|k: Seq<char>|
            k != m.hashlock ==> #[trigger] find_escrow(s.push(m), k) == find_escrow(s, k),
        !contains_escrow(s, m.hashlock) && escrow_keys_unique(s) ==> escrow_keys_unique(
            s.push(m),
        ),
    decreases s.len(),
{
    if s.len() == 0 {
        assert forall|k: Seq<char>| k != m.hashlock implies #[trigger] find_escrow(
            s.push(m),
            k,
        ) == find_escrow(s, k) by {
            assert(s.push(m)[0] == m);
            assert(s.push(m).drop_first() =~= Seq::<EscrowM>::empty());
            assert(find_escrow(Seq::<EscrowM>::empty(), k) is None);
        }
        assert(s.push(m)[0] == m);
    } else {
        lemma_find_escrow_push(s.drop_first(), m);
        assert(s.push(m)[0] == s[0]);
        assert(s.push(m).drop_first() =~= s.drop_first().push(m));
        assert forall|k: Seq<char>| k != m.hashlock implies #[trigger] find_escrow(
            s.push(m),
            k,
        ) == find_escrow(s, k) by {
            assert(find_escrow(s.drop_first().push(m), k) == find_escrow(s.drop_first(), k));
        }
        if !contains_escrow(s, m.hashlock) {
            assert(!contains_escrow(s.drop_first(), m.hashlock));
            assert(find_escrow(s.drop_first().push(m), m.hashlock) == Some(m));
        }
    }
    if !contains_escrow(s, m.hashlock) && escrow_keys_unique(s) {
        lemma_find_escrow(s, m.hashlock);
        assert forall|i: int, j: int| 0 <= i < j < s.push(m).len() implies (#[trigger] s.push(
            m,
        )[i]).hashlock != (#[trigger] s.push(m)[j]).hashlock by {
            if j < s.len() {
                assert(s.push(m)[i] == s[i] && s.push(m)[j] == s[j]);
            } else {
                assert(s.push(m)[i] == s[i] && s.push(m)[j] == m);
            }
        }
    }
}

/// Replacing the escrow at the key's own position rebinds that key and
/// leaves every other key's lookup unchanged.
pub proof fn lemma_find_escrow_update(s: Seq<EscrowM>, i: int, m: EscrowM)
    requires
        0 <= i < s.len(),
        escrow_keys_unique(s),
        s[i].hashlock == m.hashlock,
    ensures
        find_escrow(s.update(i, m), m.hashlock) == Some(m),
        forall|k: Seq<char>|
            k != m.hashlock ==> #[trigger] find_escrow(s.update(i, m), k) == find_escrow(s, k),
        escrow_keys_unique(s.update(i, m)),
    decreases s.len(),
{
    let t = s.update(i, m);
    assert(t.len() == s.len());
    if i == 0 {
        assert(t[0] == m);
        assert(t.drop_first() =~= s.drop_first());
    } else {
        assert(t[0] == s[0]);
        assert(s[0].hashlock != m.hashlock);
        assert(t.drop_first() =~= s.drop_first().update(i - 1, m));
        assert(escrow_keys_unique(s.drop_first())) by {
            assert(forall|p: int, q: int|
                0 <= p < q < s.drop_first().len() ==> (#[trigger] s.drop_first()[p]) == s[p + 1]
                    && (#[trigger] s.drop_first()[q]) == s[q + 1]);
        }
        assert(s.drop_first()[i - 1] == s[i]);
        lemma_find_escrow_update(s.drop_first(), i - 1, m);
        assert(find_escrow(s.drop_first().update(i - 1, m), m.hashlock) == Some(m));
        assert forall|k: Seq<char>| k != m.hashlock implies #[trigger] find_escrow(
            t,
            k,
        ) == find_escrow(s, k) by {
            assert(find_escrow(s.drop_first().update(i - 1, m), k) == find_escrow(
                s.drop_first(),
                k,
            ));
        }
    }
    assert forall|p: int, q: int| 0 <= p < q < t.len() implies (#[trigger] t[p]).hashlock != (
    #[trigger] t[q]).hashlock by {
        assert(t[p].hashlock == s[p].hashlock && t[q].hashlock == s[q].hashlock);
    }
}

/// The escrow store: a mapping from hashlock to escrow record, with point
/// lookup, existence check, insert/update, and positional access for full
/// scans.
pub struct EscrowStore {
    entries: Vec<Escrow>,
}

impl View for EscrowStore {
    type V = Seq<EscrowM>;

    closed spec fn view(&self) -> Seq<EscrowM> {
        self.entries@.map_values(|e: Escrow| e@)
    }
}

impl EscrowStore {
    /// Keys are pairwise distinct.
    pub open spec fn wf(&self) -> bool {
        escrow_keys_unique(self@)
    }

    /// An empty store.
    pub fn new() -> (s: Self)
        ensures
            s@ == Seq::<EscrowM>::empty(),
            s.wf(),
    {
        let s = EscrowStore { entries: Vec::new() };
        proof {
            assert(s@ =~= Seq::<EscrowM>::empty());
        }
        s
    }

    /// The number of stored escrows.
    pub fn len(&self) -> (n: usize)
        ensures
            n == self@.len(),
    {
        self.entries.len()
    }

    /// The escrow at a position of the scan order.
    pub fn at(&self, i: usize) -> (e: &Escrow)
        requires
            i < self@.len(),
        ensures
            e@ == self@[i as int],
    {
        &self.entries[i]
    }

    /// The position of `key`, if present.
    fn index_of(&self, key: &String) -> (r: Option<usize>)
        ensures
            match r {
                Some(i) => {
                    &&& i < self@.len()
                    &&& self@[i as int].hashlock == key@
                    &&& i as int == escrow_index(self@, key@)
                    &&& contains_escrow(self@, key@)
                },
                None => !contains_escrow(self@, key@),
            },
    {
        let n = self.entries.len();
        let mut i: usize = 0;
        while i < n
            invariant
                0 <= i <= n,
                n == self@.len(),
                self@.len() == self.entries@.len(),
                forall|j: int| 0 <= j < i ==> (#[trigger] self@[j]).hashlock != key@,
            decreases n - i,
        {
            if crate::codec::str_eq(self.entries[i].hashlock.as_str(), key.as_str()) {
                proof {
                    lemma_find_escrow(self@, key@);
                    assert(self@[i as int].hashlock == key@);
                }
                return Some(i);
            }
            proof {
                assert(self@[i as int] == self.entries@[i as int]@);
            }
            i = i + 1;
        }
        proof {
            lemma_find_escrow(self@, key@);
        }
        None
    }

    /// Whether an escrow is stored under `key`.
    pub fn has(&self, key: &String) -> (r: bool)
        ensures
            r == contains_escrow(self@, key@),
    {
        self.index_of(key).is_some()
    }

    /// The escrow stored under `key`, if any.
    pub fn get(&self, key: &String) -> (r: Option<&Escrow>)
        ensures
            match r {
                Some(e) => find_escrow(self@, key@) == Some(e@),
                None => find_escrow(self@, key@) is None,
            },
    {
        match self.index_of(key) {
            Some(i) => {
                proof {
                    lemma_find_escrow(self@, key@);
                }
                Some(self.at(i))
            },
            None => None,
        }
    }

    /// Inserts `e` under its hashlock, or replaces what that key held.
    pub fn save(&mut self, e: Escrow)
        requires
            old(self).wf(),
        ensures
            final(self).wf(),
            contains_escrow(old(self)@, e@.hashlock) ==> final(self)@ == old(self)@.update(
                escrow_index(old(self)@, e@.hashlock),
                e@,
            ),
            !contains_escrow(old(self)@, e@.hashlock) ==> final(self)@ == old(self)@.push(e@),
            find_escrow(final(self)@, e@.hashlock) == Some(e@),
            forall|k: Seq<char>|
                k != e@.hashlock ==> #[trigger] find_escrow(final(self)@, k) == find_escrow(
                    old(self)@,
                    k,
                ),
    {
        let ghost before = self@;
        let ghost m = e@;
        let found = self.index_of(&e.hashlock);
        match found {
            Some(i) => {
                let slot = vec_index_mut(&mut self.entries, i);
                *slot = e;
                proof {
                    assert(self@ =~= before.update(i as int, m));
                    lemma_find_escrow_update(before, i as int, m);
                }
            },
            None => {
                self.entries.push(e);
                proof {
                    assert(self@ =~= before.push(m));
                    lemma_find_escrow_push(before, m);
                }
            },
        }
    }
}

/// One user-index entry: an account and the escrows it created.
pub struct UserEntry {
    pub account: String,
    pub escrows: UserEscrows,
}

/// The model of a [`UserEntry`].
pub ghost struct UserEntryM {
    pub account: Seq<char>,
    pub escrow_ids: Seq<Seq<char>>,
    pub count: u64,
}

impl View for UserEntry {
    type V = UserEntryM;

    open spec fn view(&self) -> UserEntryM {
        UserEntryM {
            account: self.account@,
            escrow_ids: self.escrows@.escrow_ids,
            count: self.escrows.count,
        }
    }
}

/// The entry for `acct`, by first match (under well-formedness the match is
/// unique).
pub open spec fn find_user(s: Seq<UserEntryM>, acct: Seq<char>) -> Option<UserEntryM>
    decreases s.len(),
{
    if s.len() == 0 {
        None
    } else if s[0].account == acct {
        Some(s[0])
    } else {
        find_user(s.drop_first(), acct)
    }
}

/// Whether the index has an entry for `acct`.
pub open spec fn contains_user(s: Seq<UserEntryM>, acct: Seq<char>) -> bool {
    find_user(s, acct) is Some
}

/// The position of the first entry for `acct` (meaningful only when one is
/// present).
pub open spec fn user_index_at(s: Seq<UserEntryM>, acct: Seq<char>) -> int
    decreases s.len(),
{
    if s.len() == 0 {
        0
    } else if s[0].account == acct {
        0
    } else {
        1 + user_index_at(s.drop_first(), acct)
    }
}

/// No two entries share an account, and every count mirrors its list.
pub open spec fn user_entries_wf(s: Seq<UserEntryM>) -> bool {
    &&& forall|i: int, j: int|
        0 <= i < j < s.len() ==> (#[trigger] s[i]).account != (#[trigger] s[j]).account
    &&& forall|i: int|
        0 <= i < s.len() ==> (#[trigger] s[i]).count as int == s[i].escrow_ids.len()
}

/// The entry for `acct` with `id` appended, count moved along.
pub open spec fn user_entry_appended(e: UserEntryM, id: Seq<char>) -> UserEntryM {
    UserEntryM {
        account: e.account,
        escrow_ids: e.escrow_ids.push(id),
        count: (e.count + 1) as u64,
    }
}

/// The index after recording that `acct` created the escrow `id`: the
/// existing entry grows by one identifier, or a fresh entry appears.
pub open spec fn user_append(s: Seq<UserEntryM>, acct: Seq<char>, id: Seq<char>) -> Seq<
    UserEntryM,
> {
    if contains_user(s, acct) {
        s.update(user_index_at(s, acct), user_entry_appended(s[user_index_at(s, acct)], id))
    } else {
        s.push(UserEntryM { account: acct, escrow_ids: seq![id], count: 1 })
    }
}

/// How `find_user` and `user_index_at` relate to the elements.
pub proof fn lemma_find_user(s: Seq<UserEntryM>, acct: Seq<char>)
    ensures
        contains_user(s, acct) <==> exists|i: int|
            0 <= i < s.len() && (#[trigger] s[i]).account == acct,
        contains_user(s, acct) ==> {
            let idx = user_index_at(s, acct);
            &&& 0 <= idx < s.len()
            &&& s[idx].account == acct
            &&& find_user(s, acct) == Some(s[idx])
            &&& forall|j: int| 0 <= j < idx ==> (#[trigger] s[j]).account != acct
        },
    decreases s.len(),
{
    if s.len() > 0 && s[0].account != acct {
        lemma_find_user(s.drop_first(), acct);
        if contains_user(s, acct) {
            let idx = user_index_at(s, acct);
            assert(s[idx] == s.drop_first()[idx - 1]);
            assert(forall|j: int| 1 <= j < idx ==> (#[trigger] s[j]) == s.drop_first()[j - 1]);
        }
        if exists|i: int| 0 <= i < s.len() && (#[trigger] s[i]).account == acct {
            let i = choose|i: int| 0 <= i < s.len() && (#[trigger] s[i]).account == acct;
            assert(s.drop_first()[i - 1].account == acct);
        }
    }
}

/// Recording a creation leaves every other account's entry unchanged, binds
/// the creator's account to the grown entry, and keeps the index well
/// formed.
pub proof fn lemma_user_append(s: Seq<UserEntryM>, acct: Seq<char>, id: Seq<char>)
    requires
        user_entries_wf(s),
        contains_user(s, acct) ==> s[user_index_at(s, acct)].count < u64::MAX,
    ensures
        user_entries_wf(user_append(s, acct, id)),
        find_user(user_append(s, acct, id), acct) == Some(
            match find_user(s, acct) {
                Some(e) => user_entry_appended(e, id),
                None => UserEntryM { account: acct, escrow_ids: seq![id], count: 1 },
            },
        ),
        forall|k: Seq<char>|
            k != acct ==> #[trigger] find_user(user_append(s, acct, id), k) == find_user(s, k),
    decreases s.len(),
{
    let t = user_append(s, acct, id);
    lemma_find_user(s, acct);
    if contains_user(s, acct) {
        let idx = user_index_at(s, acct);
        let grown = user_entry_appended(s[idx], id);
        lemma_user_update(s, idx, grown);
        assert(s[idx].count as int == s[idx].escrow_ids.len());
        assert forall|i: int| 0 <= i < t.len() implies (#[trigger] t[i]).count as int
            == t[i].escrow_ids.len() by {
            if i != idx {
                assert(t[i] == s[i]);
            }
        }
    } else {
        lemma_user_push(s, UserEntryM { account: acct, escrow_ids: seq![id], count: 1 });
        assert forall|i: int| 0 <= i < t.len() implies (#[trigger] t[i]).count as int
            == t[i].escrow_ids.len() by {
            if i < s.len() {
                assert(t[i] == s[i]);
            } else {
                assert(t[i] == UserEntryM { account: acct, escrow_ids: seq![id], count: 1 });
            }
        }
    }
}

/// Appending an entry with a fresh account leaves other lookups unchanged
/// and binds that account; account distinctness is preserved.
proof fn lemma_user_push(s: Seq<UserEntryM>, m: UserEntryM)
    ensures
        !contains_user(s, m.account) ==> find_user(s.push(m), m.account) == Some(m),
        forall|k: Seq<char>|
            k != m.account ==> #[trigger] find_user(s.push(m), k) == find_user(s, k),
        !contains_user(s, m.account) && (forall|i: int, j: int|
            0 <= i < j < s.len() ==> (#[trigger] s[i]).account != (#[trigger] s[j]).account)
            ==> forall|i: int, j: int|
            0 <= i < j < s.push(m).len() ==> (#[trigger] s.push(m)[i]).account != (
            #[trigger] s.push(m)[j]).account,
    decreases s.len(),
{
    if s.len() == 0 {
        assert forall|k: Seq<char>| k != m.account implies #[trigger] find_user(
            s.push(m),
            k,
        ) == find_user(s, k) by {
            assert(s.push(m)[0] == m);
            assert(s.push(m).drop_first() =~= Seq::<UserEntryM>::empty());
            assert(find_user(Seq::<UserEntryM>::empty(), k) is None);
        }
        assert(s.push(m)[0] == m);
    } else {
        lemma_user_push(s.drop_first(), m);
        assert(s.push(m)[0] == s[0]);
        assert(s.push(m).drop_first() =~= s.drop_first().push(m));
        assert forall|k: Seq<char>| k != m.account implies #[trigger] find_user(
            s.push(m),
            k,
        ) == find_user(s, k) by {
            assert(find_user(s.drop_first().push(m), k) == find_user(s.drop_first(), k));
        }
        if !contains_user(s, m.account) {
            assert(!contains_user(s.drop_first(), m.account));
            assert(find_user(s.drop_first().push(m), m.account) == Some(m));
        }
    }
    if !contains_user(s, m.account) {
        lemma_find_user(s, m.account);
        assert forall|i: int, j: int| 0 <= i < j < s.push(m).len() && (forall|p: int, q: int|
            0 <= p < q < s.len() ==> (#[trigger] s[p]).account != (
            #[trigger] s[q]).account) implies (#[trigger] s.push(m)[i]).account != (
        #[trigger] s.push(m)[j]).account by {
            if j < s.len() {
                assert(s.push(m)[i] == s[i] && s.push(m)[j] == s[j]);
            } else {
                assert(s.push(m)[i] == s[i] && s.push(m)[j] == m);
            }
        }
    }
}

/// Replacing an entry at the account's own position rebinds that account
/// and leaves other lookups unchanged; distinctness is preserved.
proof fn lemma_user_update(s: Seq<UserEntryM>, i: int, m: UserEntryM)
    requires
        0 <= i < s.len(),
        forall|p: int, q: int|
            0 <= p < q < s.len() ==> (#[trigger] s[p]).account != (#[trigger] s[q]).account,
        s[i].account == m.account,
    ensures
        find_user(s.update(i, m), m.account) == Some(m),
        forall|k: Seq<char>|
            k != m.account ==> #[trigger] find_user(s.update(i, m), k) == find_user(s, k),
        forall|p: int, q: int|
            0 <= p < q < s.update(i, m).len() ==> (#[trigger] s.update(i, m)[p]).account != (
            #[trigger] s.update(i, m)[q]).account,
    decreases s.len(),
{
    let t = s.update(i, m);
    assert(t.len() == s.len());
    if i == 0 {
        assert(t[0] == m);
        assert(t.drop_first() =~= s.drop_first());
    } else {
        assert(t[0] == s[0]);
        assert(s[0].account != m.account);
        assert(t.drop_first() =~= s.drop_first().update(i - 1, m));
        assert(forall|p: int, q: int|
            0 <= p < q < s.drop_first().len() ==> (#[trigger] s.drop_first()[p]) == s[p + 1] && (
            #[trigger] s.drop_first()[q]) == s[q + 1]);
        assert(s.drop_first()[i - 1] == s[i]);
        lemma_user_update(s.drop_first(), i - 1, m);
        assert(find_user(s.drop_first().update(i - 1, m), m.account) == Some(m));
        assert forall|k: Seq<char>| k != m.account implies #[trigger] find_user(t, k)
            == find_user(s, k) by {
            assert(find_user(s.drop_first().update(i - 1, m), k) == find_user(
                s.drop_first(),
                k,
            ));
        }
    }
    assert forall|p: int, q: int| 0 <= p < q < t.len() implies (#[trigger] t[p]).account != (
    #[trigger] t[q]).account by {
        assert(t[p].account == s[p].account && t[q].account == s[q].account);
    }
}

/// The user index: a mapping from creator account to the list of escrow
/// identifiers that account created, append-only.
pub struct UserIndex {
    entries: Vec<UserEntry>,
}

impl View for UserIndex {
    type V = Seq<UserEntryM>;

    closed spec fn view(&self) -> Seq<UserEntryM> {
        self.entries@.map_values(|e: UserEntry| e@)
    }
}

impl UserIndex {
    /// Accounts are pairwise distinct and counts mirror lengths.
    pub open spec fn wf(&self) -> bool {
        user_entries_wf(self@)
    }

    /// An empty index.
    pub fn new() -> (s: Self)
        ensures
            s@ == Seq::<UserEntryM>::empty(),
            s.wf(),
    {
        let s = UserIndex { entries: Vec::new() };
        proof {
            assert(s@ =~= Seq::<UserEntryM>::empty());
        }
        s
    }

    /// The number of accounts with an entry.
    pub fn len(&self) -> (n: usize)
        ensures
            n == self@.len(),
    {
        self.entries.len()
    }

    /// The entry at a position of the scan order.
    pub fn at(&self, i: usize) -> (e: &UserEntry)
        requires
            i < self@.len(),
        ensures
            e@ == self@[i as int],
    {
        &self.entries[i]
    }

    /// The position of the entry for `account`, if present.
    fn index_of(&self, account: &String) -> (r: Option<usize>)
        ensures
            match r {
                Some(i) => {
                    &&& i < self@.len()
                    &&& self@[i as int].account == account@
                    &&& i as int == user_index_at(self@, account@)
                    &&& contains_user(self@, account@)
                },
                None => !contains_user(self@, account@),
            },
    {
        let n = self.entries.len();
        let mut i: usize = 0;
        while i < n
            invariant
                0 <= i <= n,
                n == self@.len(),
                self@.len() == self.entries@.len(),
                forall|j: int| 0 <= j < i ==> (#[trigger] self@[j]).account != account@,
            decreases n - i,
        {
            if crate::codec::str_eq(self.entries[i].account.as_str(), account.as_str()) {
                proof {
                    lemma_find_user(self@, account@);
                    assert(self@[i as int].account == account@);
                }
                return Some(i);
            }
            proof {
                assert(self@[i as int] == self.entries@[i as int]@);
            }
            i = i + 1;
        }
        proof {
            lemma_find_user(self@, account@);
        }
        None
    }

    /// The escrows recorded for `account`, if any.
    pub fn get(&self, account: &String) -> (r: Option<&UserEscrows>)
        ensures
            match find_user(self@, account@) {
                Some(e) => {
                    &&& r is Some
                    &&& r.unwrap()@.escrow_ids == e.escrow_ids
                    &&& r.unwrap().count == e.count
                },
                None => r is None,
            },
    {
        match self.index_of(account) {
            Some(i) => {
                proof {
                    lemma_find_user(self@, account@);
                    assert(self@[i as int] == self.entries@[i as int]@);
                }
                Some(&self.entries[i].escrows)
            },
            None => None,
        }
    }

    /// Records that `account` created the escrow `id`.
    pub fn append(&mut self, account: &String, id: &String)
        requires
            old(self).wf(),
        ensures
            final(self).wf(),
            final(self)@ == user_append(old(self)@, account@, id@),
    {
        let ghost before = self@;
        let found = self.index_of(account);
        match found {
            Some(i) => {
                proof {
                    lemma_find_user(before, account@);
                }
                let mut entry = self.entries.remove(i);
                entry.escrows.escrow_ids.push(id.clone());
                let n = entry.escrows.escrow_ids.len();
                entry.escrows.count = n as u64;
                proof {
                    assert(before[i as int].count < u64::MAX);
                    assert(entry@ == user_entry_appended(before[i as int], id@)) by {
                        assert(entry@.escrow_ids =~= user_entry_appended(
                            before[i as int],
                            id@,
                        ).escrow_ids);
                    }
                }
                self.entries.insert(i, entry);
                proof {
                    assert(self@ =~~= before.update(
                        i as int,
                        user_entry_appended(before[i as int], id@),
                    ));
                    lemma_user_append(before, account@, id@);
                }
            },
            None => {
                let mut ids: Vec<String> = Vec::new();
                ids.push(id.clone());
                let entry = UserEntry {
                    account: account.clone(),
                    escrows: UserEscrows { escrow_ids: ids, count: 1 },
                };
                proof {
                    assert(entry@.escrow_ids =~= seq![id@]);
                }
                self.entries.push(entry);
                proof {
                    assert(self@ =~~= before.push(
                        UserEntryM { account: account@, escrow_ids: seq![id@], count: 1 },
                    ));
                    lemma_user_append(before, account@, id@);
                }
            },
        }
    }
}

} // verus!
