//! What a successful mutating operation hands back to the host: zero or one
//! transfer instruction for the ledger, and a structured event as an ordered
//! list of key/value attributes. Also the coins attached to a call.

use vstd::prelude::*;

verus! {

/// One coin attached to a call: a denomination and a quantity.
#[derive(Clone, Debug, PartialEq, Eq)]
pub struct Coin {
    pub denom: String,
    pub amount: u128,
}

/// The model of a [`Coin`].
pub ghost struct CoinM {
    pub denom: Seq<char>,
    pub amount: u128,
}

impl View for Coin {
    type V = CoinM;

    open spec fn view(&self) -> CoinM {
        CoinM { denom: self.denom@, amount: self.amount }
    }
}

/// The models of a list of coins.
pub open spec fn coins_view(funds: Seq<Coin>) -> Seq<CoinM> {
    funds.map_values(|c: Coin| c@)
}

/// The amount of the first coin of the given denomination, or zero if none
/// is attached.
pub open spec fn sent_amount_of(funds: Seq<CoinM>, denom: Seq<char>) -> u128
    decreases funds.len(),
{
    if funds.len() == 0 {
        0
    } else if funds[0].denom == denom {
        funds[0].amount
    } else {
        sent_amount_of(funds.drop_first(), denom)
    }
}

/// The first match decides: if no coin before `i` matches, the lookup is
/// settled by the coins from `i` on.
proof fn lemma_sent_amount_skip(s: Seq<CoinM>, denom: Seq<char>, i: int)
    requires
        0 <= i <= s.len(),
        forall|j: int| 0 <= j < i ==> (#[trigger] s[j]).denom != denom,
    ensures
        sent_amount_of(s, denom) == sent_amount_of(s.skip(i), denom),
    decreases i,
{
    if i > 0 {
        lemma_sent_amount_skip(s.drop_first(), denom, i - 1);
        assert(s.drop_first().skip(i - 1) =~= s.skip(i));
    } else {
        assert(s.skip(0) =~= s);
    }
}

/// Looks up the amount attached for `denom`: the first matching coin, or
/// zero if none matches.
pub fn sent_amount(funds: &Vec<Coin>, denom: &str) -> (r: u128)
    ensures
        r == sent_amount_of(coins_view(funds@), denom@),
{
    let n = funds.len();
    let mut i: usize = 0;
    while i < n
        invariant
            0 <= i <= n,
            n == funds@.len(),
            forall|j: int| 0 <= j < i ==> (#[trigger] coins_view(funds@)[j]).denom != denom@,
        decreases n - i,
    {
        if crate::codec::str_eq(funds[i].denom.as_str(), denom) {
            proof {
                lemma_sent_amount_skip(coins_view(funds@), denom@, i as int);
                assert(coins_view(funds@).skip(i as int)[0] == coins_view(funds@)[i as int]);
            }
            return funds[i].amount;
        }
        proof {
            assert(coins_view(funds@)[i as int] == funds@[i as int]@);
        }
        i = i + 1;
    }
    proof {
        lemma_sent_amount_skip(coins_view(funds@), denom@, n as int);
        assert(coins_view(funds@).skip(n as int) =~= Seq::<CoinM>::empty());
    }
    0
}

/// One event attribute: a key/value pair of texts.
#[derive(Clone, Debug, PartialEq, Eq)]
pub struct Attribute {
    pub key: String,
    pub value: String,
}

/// The model of an [`Attribute`].
pub ghost struct AttrM {
    pub key: Seq<char>,
    pub value: Seq<char>,
}

impl View for Attribute {
    type V = AttrM;

    open spec fn view(&self) -> AttrM {
        AttrM { key: self.key@, value: self.value@ }
    }
}

/// An instruction to the ledger: move `amount` of `denom` to `to_address`.
#[derive(Clone, Debug, PartialEq, Eq)]
pub struct TransferMsg {
    pub to_address: String,
    pub denom: String,
    pub amount: u128,
}

/// The model of a [`TransferMsg`].
pub ghost struct TransferM {
    pub to_address: Seq<char>,
    pub denom: Seq<char>,
    pub amount: u128,
}

impl View for TransferMsg {
    type V = TransferM;

    open spec fn view(&self) -> TransferM {
        TransferM { to_address: self.to_address@, denom: self.denom@, amount: self.amount }
    }
}

/// What a successful mutating operation returns.
#[derive(Clone, Debug, PartialEq, Eq)]
pub struct Response {
    pub messages: Vec<TransferMsg>,
    pub attributes: Vec<Attribute>,
}

/// The model of a [`Response`].
pub ghost struct ResponseM {
    pub messages: Seq<TransferM>,
    pub attributes: Seq<AttrM>,
}

impl View for Response {
    type V = ResponseM;

    open spec fn view(&self) -> ResponseM {
        ResponseM {
            messages: self.messages@.map_values(|m: TransferMsg| m@),
            attributes: self.attributes@.map_values(|a: Attribute| a@),
        }
    }
}

impl Response {
    /// A response with no messages and no attributes.
    pub fn new() -> (r: Response)
        ensures
            r@.messages == Seq::<TransferM>::empty(),
            r@.attributes == Seq::<AttrM>::empty(),
    {
        let r = Response { messages: Vec::new(), attributes: Vec::new() };
        proof {
            assert(r@.messages =~= Seq::<TransferM>::empty());
            assert(r@.attributes =~= Seq::<AttrM>::empty());
        }
        r
    }

    /// Appends one event attribute.
    pub fn push_attr(&mut self, key: &str, value: String)
        ensures
            final(self)@.attributes == old(self)@.attributes.push(
                AttrM { key: key@, value: value@ },
            ),
            final(self)@.messages == old(self)@.messages,
    {
        let ghost before = self@.attributes;
        let ghost v = value@;
        self.attributes.push(Attribute { key: key.to_owned(), value });
        proof {
            assert(self@.attributes =~= before.push(AttrM { key: key@, value: v }));
        }
    }

    /// Appends one transfer instruction.
    pub fn push_transfer(&mut self, to_address: String, denom: &str, amount: u128)
        ensures
            final(self)@.messages == old(self)@.messages.push(
                TransferM { to_address: to_address@, denom: denom@, amount },
            ),
            final(self)@.attributes == old(self)@.attributes,
    {
        let ghost before = self@.messages;
        let ghost to = to_address@;
        self.messages.push(TransferMsg { to_address, denom: denom.to_owned(), amount });
        proof {
            assert(self@.messages =~= before.push(TransferM { to_address: to, denom: denom@, amount }));
        }
    }
}

} // verus!
