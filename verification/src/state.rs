use crate::addr::{clone_opt_addr, opt_addr_view, same_opt_addr, Addr};
use crate::balance::{GenericBalance, GenericBalanceView};
use crate::error::ContractError;
use crate::storage::{RecordKey, Table};
use vstd::prelude::*;

verus! {

/// A point in time: nanoseconds since the epoch.
#[derive(Clone, Copy, Debug, PartialEq, Eq, Structural)]
pub struct Timestamp {
    pub nanos: u64,
}

/// The nanoseconds of one second.
pub const NANOS_PER_SECOND: u64 = 1_000_000_000;

impl Timestamp {
    pub fn from_nanos(nanos: u64) -> (r: Timestamp)
        ensures
            r.nanos == nanos,
    {
        Timestamp { nanos }
    }

    /// The time `addition` seconds after this one.
    pub fn plus_seconds(&self, addition: u64) -> (r: Timestamp)
        requires
            self.nanos + addition * NANOS_PER_SECOND <= u64::MAX,
        ensures
            r.nanos == self.nanos + addition * NANOS_PER_SECOND,
    {
        Timestamp { nanos: self.nanos + addition * NANOS_PER_SECOND }
    }
}

/// Where a listing stands in its life.
#[derive(Clone, Copy, Debug, PartialEq, Eq, Structural)]
pub enum Status {
    /// Created, and still open to changes by its creator.
    BeingPrepared,
    /// Sealed and open to purchase until it expires.
    FinalizedReady,
    /// Purchased; it waits for its claimant to withdraw it.
    Closed,
}

/// An escrowed offer: the assets for sale, the assets asked for them, and
/// who may buy until when.
#[derive(Debug, PartialEq)]
pub struct Listing {
    pub creator: Addr,
    pub id: String,
    pub finalized_time: Option<Timestamp>,
    pub expiration_time: Option<Timestamp>,
    pub status: Status,
    pub for_sale: GenericBalance,
    pub ask: GenericBalance,
    pub claimant: Option<Addr>,
    pub whitelisted_buyer_one: Option<Addr>,
    pub whitelisted_buyer_two: Option<Addr>,
    pub whitelisted_buyer_three: Option<Addr>,
}

pub struct ListingView {
    pub creator: Seq<char>,
    pub id: Seq<char>,
    pub finalized_time: Option<Timestamp>,
    pub expiration_time: Option<Timestamp>,
    pub status: Status,
    pub for_sale: GenericBalanceView,
    pub ask: GenericBalanceView,
    pub claimant: Option<Seq<char>>,
    pub whitelisted_buyer_one: Option<Seq<char>>,
    pub whitelisted_buyer_two: Option<Seq<char>>,
    pub whitelisted_buyer_three: Option<Seq<char>>,
}

impl View for Listing {
    type V = ListingView;

    open spec fn view(&self) -> ListingView {
        ListingView {
            creator: self.creator@,
            id: self.id@,
            finalized_time: self.finalized_time,
            expiration_time: self.expiration_time,
            status: self.status,
            for_sale: self.for_sale@,
            ask: self.ask@,
            claimant: opt_addr_view(self.claimant),
            whitelisted_buyer_one: opt_addr_view(self.whitelisted_buyer_one),
            whitelisted_buyer_two: opt_addr_view(self.whitelisted_buyer_two),
            whitelisted_buyer_three: opt_addr_view(self.whitelisted_buyer_three),
        }
    }
}

impl Clone for Listing {
    fn clone(&self) -> (r: Self)
        ensures
            r@ == self@,
    {
        Listing {
            creator: self.creator.clone(),
            id: self.id.clone(),
            finalized_time: self.finalized_time,
            expiration_time: self.expiration_time,
            status: self.status,
            for_sale: self.for_sale.clone(),
            ask: self.ask.clone(),
            claimant: clone_opt_addr(&self.claimant),
            whitelisted_buyer_one: clone_opt_addr(&self.whitelisted_buyer_one),
            whitelisted_buyer_two: clone_opt_addr(&self.whitelisted_buyer_two),
            whitelisted_buyer_three: clone_opt_addr(&self.whitelisted_buyer_three),
        }
    }
}

/// Whether two optional times are both absent or the same time.
fn same_opt_time(a: &Option<Timestamp>, b: &Option<Timestamp>) -> (r: bool)
    ensures
        r == (*a == *b),
{
    match (a, b) {
        (Some(x), Some(y)) => x.nanos == y.nanos,
        (None, None) => true,
        _ => false,
    }
}

impl Listing {
    /// Whether the two records agree in every field, the ledgers entry by
    /// entry and in order.
    pub fn same(&self, other: &Listing) -> (r: bool)
        ensures
            r == (self@ == other@),
    {
        self.creator.same(&other.creator) && self.id == other.id && same_opt_time(
            &self.finalized_time,
            &other.finalized_time,
        ) && same_opt_time(&self.expiration_time, &other.expiration_time) && self.status
            == other.status && self.for_sale.same(&other.for_sale) && self.ask.same(&other.ask)
            && same_opt_addr(&self.claimant, &other.claimant) && same_opt_addr(
            &self.whitelisted_buyer_one,
            &other.whitelisted_buyer_one,
        ) && same_opt_addr(&self.whitelisted_buyer_two, &other.whitelisted_buyer_two)
            && same_opt_addr(&self.whitelisted_buyer_three, &other.whitelisted_buyer_three)
    }
}

/// A staged deposit that a buyer assembles before a purchase.
#[derive(Debug, PartialEq)]
pub struct Bucket {
    pub funds: GenericBalance,
    pub owner: Addr,
}

pub struct BucketView {
    pub funds: GenericBalanceView,
    pub owner: Seq<char>,
}

impl View for Bucket {
    type V = BucketView;

    open spec fn view(&self) -> BucketView {
        BucketView { funds: self.funds@, owner: self.owner@ }
    }
}

impl Clone for Bucket {
    fn clone(&self) -> (r: Self)
        ensures
            r@ == self@,
    {
        Bucket { funds: self.funds.clone(), owner: self.owner.clone() }
    }
}

/// The key of a record in a view: the owner, then the id.
pub type KeyView = (Seq<char>, Seq<char>);

/// Whether some record of `m` has the id `id`, whoever holds it.
pub open spec fn id_taken<V>(m: Map<KeyView, V>, id: Seq<char>) -> bool {
    exists|owner: Seq<char>| #[trigger] m.contains_key((owner, id))
}

/// No two records of `m` share an id.
pub open spec fn ids_unique<V>(m: Map<KeyView, V>) -> bool {
    forall|a: KeyView, b: KeyView|
        #[trigger] m.contains_key(a) && #[trigger] m.contains_key(b) && a.1 == b.1 ==> a == b
}

/// The view of an optional record.
pub open spec fn opt_listing_view(l: Option<Listing>) -> Option<ListingView> {
    match l {
        Some(x) => Some(x@),
        None => None,
    }
}

/// The record under `k`, where there is one.
pub open spec fn lookup<V>(m: Map<KeyView, V>, k: KeyView) -> Option<V> {
    if m.contains_key(k) {
        Some(m[k])
    } else {
        None
    }
}

/// The listings: each under the key of its holder and its id, and found
/// again by its id alone, which no two listings share.
pub struct ListingStore {
    primary: Table<RecordKey, Listing>,
    by_id: Table<String, Addr>,
}

impl View for ListingStore {
    type V = Map<KeyView, ListingView>;

    closed spec fn view(&self) -> Map<KeyView, ListingView> {
        self.primary@
    }
}

impl ListingStore {
    /// Both tables are well formed, and the index names the holder of
    /// exactly the ids that are in use.
    pub closed spec fn wf(&self) -> bool {
        &&& self.primary.wf()
        &&& self.by_id.wf()
        &&& forall|owner: Seq<char>, id: Seq<char>|
            #[trigger] self.primary@.contains_key((owner, id)) <==> (self.by_id@.contains_key(id)
                && self.by_id@[id] == owner)
    }

    /// In a well-formed store no two listings share an id.
    pub proof fn lemma_ids_unique(&self)
        requires
            self.wf(),
        ensures
            ids_unique(self@),
    {
        assert forall|a: KeyView, b: KeyView|
            #[trigger] self@.contains_key(a) && #[trigger] self@.contains_key(b) && a.1
                == b.1 implies a == b by {
            assert(self.primary@.contains_key((a.0, a.1)));
            assert(self.primary@.contains_key((b.0, b.1)));
        }
    }

    /// The store that holds nothing.
    pub fn new() -> (r: Self)
        ensures
            r.wf(),
            r@ == Map::<KeyView, ListingView>::empty(),
    {
        ListingStore { primary: Table::new(), by_id: Table::new() }
    }

    /// The keys of the listings, in the order in which the store holds them.
    pub closed spec fn order(&self) -> Seq<KeyView> {
        self.primary.order()
    }

    /// The order names each key of the store once, and nothing else.
    pub proof fn lemma_order(&self)
        requires
            self.wf(),
        ensures
            self.order().no_duplicates(),
            forall|k: KeyView| self.order().contains(k) <==> #[trigger] self@.contains_key(k),
    {
        self.primary.lemma_order();
    }

    /// How many listings there are.
    pub fn len(&self) -> (r: usize)
        ensures
            r == self.order().len(),
    {
        self.primary.len()
    }

    /// The key at place `i` of the order, and the listing under it; `None`
    /// past the end.
    pub fn entry(&self, i: usize) -> (r: Option<(&RecordKey, &Listing)>)
        requires
            self.wf(),
        ensures
            match r {
                Some((k, l)) => i < self.order().len() && k@ == self.order()[i as int]
                    && self@.contains_key(k@) && self@[k@] == l@,
                None => i >= self.order().len(),
            },
    {
        self.primary.entry(i)
    }

    /// A copy of the listing `id` held by `owner`.
    pub fn may_load(&self, owner: &Addr, id: &str) -> (r: Option<Listing>)
        requires
            self.wf(),
        ensures
            opt_listing_view(r) == lookup(self@, (owner@, id@)),
    {
        let key = RecordKey::new(owner, id);
        match self.primary.get(&key) {
            Some(l) => Some(l.clone()),
            None => None,
        }
    }

    /// Who holds the listing `id`, and a copy of it.
    pub fn item_by_id(&self, id: &str) -> (r: Option<(Addr, Listing)>)
        requires
            self.wf(),
        ensures
            match r {
                Some((owner, l)) => self@.contains_key((owner@, id@)) && self@[(owner@, id@)]
                    == l@,
                None => !id_taken(self@, id@),
            },
    {
        let id_key = id.to_owned();
        match self.by_id.get(&id_key) {
            Some(owner) => {
                let key = RecordKey::new(owner, id);
                assert(self.primary@.contains_key((owner@, id@)));
                match self.primary.get(&key) {
                    Some(l) => Some((owner.clone(), l.clone())),
                    None => None,
                }
            },
            None => {
                assert forall|owner: Seq<char>| !self@.contains_key((owner, id@)) by {
                    if self.primary@.contains_key((owner, id@)) {
                        assert(self.by_id@.contains_key(id@));
                    }
                }
                None
            },
        }
    }

    /// Puts `new` in the place of the listing `id` held by `owner`, given
    /// the listing that the caller believes to be there; `None` stands for
    /// no listing, on either side.
    ///
    /// Refused with `ConcurrentModification` where the store holds
    /// something else than `expected`, and with `IdAlreadyExists` where
    /// `new` would take an id that another holder's listing has. A refusal
    /// writes nothing.
    pub fn replace(
        &mut self,
        owner: &Addr,
        id: &str,
        new: Option<Listing>,
        expected: Option<&Listing>,
    ) -> (r: Result<(), ContractError>)
        requires
            old(self).wf(),
        ensures
            final(self).wf(),
            r == replace_result(
                old(self)@,
                (owner@, id@),
                opt_listing_view(new) is Some,
                match expected {
                    Some(e) => Some(e@),
                    None => None,
                },
            ),
            final(self)@ == (if r is Ok {
                match new {
                    Some(l) => old(self)@.insert((owner@, id@), l@),
                    None => old(self)@.remove((owner@, id@)),
                }
            } else {
                old(self)@
            }),
    {
        let key = RecordKey::new(owner, id);
        let id_key = id.to_owned();
        let agrees = match (self.primary.get(&key), expected) {
            (Some(stored), Some(e)) => stored.same(e),
            (None, None) => true,
            _ => false,
        };
        if !agrees {
            return Err(ContractError::ConcurrentModification);
        }
        match new {
            Some(l) => {
                let taken = match self.by_id.get(&id_key) {
                    Some(holder) => !holder.same(owner),
                    None => false,
                };
                proof {
                    if taken {
                        let h = self.by_id@[id@];
                        let k = (owner@, id@);
                        assert(self.primary@.contains_key((h, id@)));
                        assert(h != k.0 && self@.contains_key((h, k.1)));
                        assert(id_taken_by_other(self@, k));
                    }
                    if id_taken_by_other(self@, (owner@, id@)) {
                        let o = choose|o: Seq<char>|
                            o != owner@ && #[trigger] self@.contains_key((o, id@));
                        assert(self.primary@.contains_key((o, id@)));
                    }
                }
                if taken {
                    return Err(ContractError::IdAlreadyExists);
                }
                self.primary.set(key, l);
                self.by_id.set(id_key, owner.clone());
                proof {
                    let ghost_old = old(self);
                    assert forall|o: Seq<char>, i: Seq<char>|
                        #[trigger] self.primary@.contains_key((o, i)) <==> (
                        self.by_id@.contains_key(i) && self.by_id@[i] == o) by {
                        if i == id@ {
                            if o != owner@ {
                                assert(!ghost_old.primary@.contains_key((o, i)));
                            }
                        } else {
                            assert(ghost_old.primary@.contains_key((o, i)) <==> (
                            ghost_old.by_id@.contains_key(i) && ghost_old.by_id@[i] == o));
                        }
                    }
                }
                Ok(())
            },
            None => {
                let gone = self.primary.remove(&key);
                if gone.is_some() {
                    let index_gone = self.by_id.remove(&id_key);
                }
                proof {
                    let ghost_old = old(self);
                    assert forall|o: Seq<char>, i: Seq<char>|
                        #[trigger] self.primary@.contains_key((o, i)) <==> (
                        self.by_id@.contains_key(i) && self.by_id@[i] == o) by {
                        assert(ghost_old.primary@.contains_key((o, i)) <==> (
                        ghost_old.by_id@.contains_key(i) && ghost_old.by_id@[i] == o));
                        assert(ghost_old.primary@.contains_key((owner@, id@)) <==> (
                        ghost_old.by_id@.contains_key(id@) && ghost_old.by_id@[id@] == owner@));
                    }
                }
                Ok(())
            },
        }
    }

    /// Puts `listing` under the key of `owner` and `id`, in place of a
    /// listing of the same key.
    ///
    /// Refused with `IdAlreadyExists`, and only then, where another holder's
    /// listing has the id.
    pub fn save(&mut self, owner: &Addr, id: &str, listing: Listing) -> (r: Result<
        (),
        ContractError,
    >)
        requires
            old(self).wf(),
        ensures
            final(self).wf(),
            r == (if id_taken_by_other(old(self)@, (owner@, id@)) {
                Err(ContractError::IdAlreadyExists)
            } else {
                Ok(())
            }),
            final(self)@ == (if r is Ok {
                old(self)@.insert((owner@, id@), listing@)
            } else {
                old(self)@
            }),
    {
        let stored = self.may_load(owner, id);
        match stored {
            Some(s) => self.replace(owner, id, Some(listing), Some(&s)),
            None => self.replace(owner, id, Some(listing), None),
        }
    }

    /// Takes away the listing `id` held by `owner`, where there is one.
    pub fn remove(&mut self, owner: &Addr, id: &str)
        requires
            old(self).wf(),
        ensures
            final(self).wf(),
            final(self)@ == old(self)@.remove((owner@, id@)),
    {
        let stored = self.may_load(owner, id);
        let r = match stored {
            Some(s) => self.replace(owner, id, None, Some(&s)),
            None => self.replace(owner, id, None, None),
        };
    }
}

/// Whether a listing of another holder than `k.0` has the id `k.1`.
pub open spec fn id_taken_by_other<V>(m: Map<KeyView, V>, k: KeyView) -> bool {
    exists|o: Seq<char>| o != k.0 && #[trigger] m.contains_key((o, k.1))
}

/// What `ListingStore::replace` answers: the store `m`, the key `k`, whether
/// a new listing is to be put there, and the listing that the caller
/// expects to find.
pub open spec fn replace_result(
    m: Map<KeyView, ListingView>,
    k: KeyView,
    puts: bool,
    expected: Option<ListingView>,
) -> Result<(), ContractError> {
    if lookup(m, k) != expected {
        Err(ContractError::ConcurrentModification)
    } else if puts && id_taken_by_other(m, k) {
        Err(ContractError::IdAlreadyExists)
    } else {
        Ok(())
    }
}

/// Everything the marketplace keeps: the listings and the buckets.
pub struct State {
    pub listings: ListingStore,
    pub buckets: Table<RecordKey, Bucket>,
}

pub struct StateView {
    pub listings: Map<KeyView, ListingView>,
    pub buckets: Map<KeyView, BucketView>,
}

impl View for State {
    type V = StateView;

    open spec fn view(&self) -> StateView {
        StateView { listings: self.listings@, buckets: self.buckets@ }
    }
}

impl State {
    /// Both stores are well formed.
    pub open spec fn wf(&self) -> bool {
        self.listings.wf() && self.buckets.wf()
    }

    /// The marketplace with no listing and no bucket.
    pub fn new() -> (r: State)
        ensures
            r.wf(),
            r@.listings == Map::<KeyView, ListingView>::empty(),
            r@.buckets == Map::<KeyView, BucketView>::empty(),
    {
        State { listings: ListingStore::new(), buckets: Table::new() }
    }
}

} // verus!
