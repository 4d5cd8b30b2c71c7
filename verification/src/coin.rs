use crate::addr::Addr;
use vstd::prelude::*;

verus! {

/// What a ledger holds of one fungible asset: the asset's key (a native
/// denomination or a token contract) and an amount.
pub struct Holding {
    pub key: Seq<char>,
    pub amount: nat,
}

/// What a ledger holds of one non-fungible token.
pub struct NftView {
    pub contract_address: Seq<char>,
    pub token_id: Seq<char>,
}

/// The views of a sequence's items, in order.
pub open spec fn views<T: View>(s: Seq<T>) -> Seq<T::V> {
    Seq::new(s.len(), |i: int| s[i]@)
}

/// An item of a ledger: it can be compared and copied by its view.
pub trait Entry: View + Sized {
    fn same(&self, other: &Self) -> (r: bool)
        ensures
            r == (self@ == other@),
    ;

    fn copy(&self) -> (r: Self)
        ensures
            r@ == self@,
    ;
}

/// An amount of a native token.
#[derive(Debug, PartialEq, Eq)]
pub struct Coin {
    pub denom: String,
    pub amount: u128,
}

/// An amount of a fungible token, named by its contract.
#[derive(Debug, PartialEq, Eq)]
pub struct Cw20CoinVerified {
    pub address: Addr,
    pub amount: u128,
}

/// One non-fungible token, named by its contract and its id.
#[derive(Debug, PartialEq, Eq)]
pub struct Nft {
    pub contract_address: Addr,
    pub token_id: String,
}

impl View for Coin {
    type V = Holding;

    open spec fn view(&self) -> Holding {
        Holding { key: self.denom@, amount: self.amount as nat }
    }
}

impl View for Cw20CoinVerified {
    type V = Holding;

    open spec fn view(&self) -> Holding {
        Holding { key: self.address@, amount: self.amount as nat }
    }
}

impl View for Nft {
    type V = NftView;

    open spec fn view(&self) -> NftView {
        NftView { contract_address: self.contract_address@, token_id: self.token_id@ }
    }
}

impl Entry for Coin {
    fn same(&self, other: &Self) -> (r: bool) {
        self.denom == other.denom && self.amount == other.amount
    }

    fn copy(&self) -> (r: Self) {
        Coin { denom: self.denom.clone(), amount: self.amount }
    }
}

impl Entry for Cw20CoinVerified {
    fn same(&self, other: &Self) -> (r: bool) {
        self.address.same(&other.address) && self.amount == other.amount
    }

    fn copy(&self) -> (r: Self) {
        Cw20CoinVerified { address: self.address.clone(), amount: self.amount }
    }
}

impl Entry for Nft {
    fn same(&self, other: &Self) -> (r: bool) {
        self.contract_address.same(&other.contract_address) && self.token_id == other.token_id
    }

    fn copy(&self) -> (r: Self) {
        Nft { contract_address: self.contract_address.clone(), token_id: self.token_id.clone() }
    }
}

impl Clone for Coin {
    fn clone(&self) -> (r: Self)
        ensures
            r@ == self@,
    {
        self.copy()
    }
}

impl Clone for Cw20CoinVerified {
    fn clone(&self) -> (r: Self)
        ensures
            r@ == self@,
    {
        self.copy()
    }
}

impl Clone for Nft {
    fn clone(&self) -> (r: Self)
        ensures
            r@ == self@,
    {
        self.copy()
    }
}

/// The coin of `amount` in `denom`.
pub fn coin(amount: u128, denom: &str) -> (r: Coin)
    ensures
        r@ == (Holding { key: denom@, amount: amount as nat }),
{
    Coin { denom: denom.to_owned(), amount }
}

/// The one-coin list of `amount` in `denom`.
pub fn coins(amount: u128, denom: &str) -> (r: Vec<Coin>)
    ensures
        views(r@) == seq![Holding { key: denom@, amount: amount as nat }],
{
    let mut v: Vec<Coin> = Vec::new();
    v.push(coin(amount, denom));
    assert(views(v@) =~= seq![Holding { key: denom@, amount: amount as nat }]);
    v
}

/// Copies a list of entries.
pub fn copy_entries<T: Entry>(v: &Vec<T>) -> (r: Vec<T>)
    ensures
        views(r@) == views(v@),
{
    let mut out: Vec<T> = Vec::new();
    let mut i: usize = 0;
    while i < v.len()
        invariant
            i <= v.len(),
            out.len() == i,
            forall|j: int| 0 <= j < i ==> out[j]@ == v[j]@,
        decreases v.len() - i,
    {
        out.push(v[i].copy());
        i += 1;
    }
    assert(views(out@) =~= views(v@));
    out
}

/// Whether two lists hold the same entries in the same order.
pub fn same_entries<T: Entry>(a: &Vec<T>, b: &Vec<T>) -> (r: bool)
    ensures
        r == (views(a@) == views(b@)),
{
    if a.len() != b.len() {
        assert(views(a@).len() != views(b@).len());
        return false;
    }
    let mut i: usize = 0;
    while i < a.len()
        invariant
            i <= a.len(),
            a.len() == b.len(),
            forall|j: int| 0 <= j < i ==> a[j]@ == b[j]@,
        decreases a.len() - i,
    {
        if !a[i].same(&b[i]) {
            assert(views(a@)[i as int] != views(b@)[i as int]);
            return false;
        }
        i += 1;
    }
    assert(views(a@) =~= views(b@));
    true
}

} // verus!
