use crate::addr::Addr;
use crate::coin::views;
use crate::laws::lemma_holder_is_key;
use crate::model::holder_of;
use crate::state::{
    id_taken, Bucket, BucketView, KeyView, Listing, ListingView, State, Status,
};
use vstd::prelude::*;

verus! {

/// The listings of a store, in the order of their keys.
pub open spec fn listed(order: Seq<KeyView>, m: Map<KeyView, ListingView>) -> Seq<ListingView> {
    Seq::new(order.len(), |i: int| m[order[i]])
}

/// The listings held by `owner`, in the order of their keys.
pub open spec fn held_by(
    order: Seq<KeyView>,
    m: Map<KeyView, ListingView>,
    owner: Seq<char>,
) -> Seq<ListingView>
    decreases order.len(),
{
    if order.len() == 0 {
        Seq::empty()
    } else if order.last().0 == owner {
        held_by(order.drop_last(), m, owner).push(m[order.last()])
    } else {
        held_by(order.drop_last(), m, owner)
    }
}

/// The listings that are open to purchase, in the order of their keys.
pub open spec fn on_market(order: Seq<KeyView>, m: Map<KeyView, ListingView>) -> Seq<ListingView>
    decreases order.len(),
{
    if order.len() == 0 {
        Seq::empty()
    } else if m[order.last()].status == Status::FinalizedReady {
        on_market(order.drop_last(), m).push(m[order.last()])
    } else {
        on_market(order.drop_last(), m)
    }
}

/// A bucket with its id.
#[derive(Debug, PartialEq)]
pub struct BucketEntry {
    pub id: String,
    pub bucket: Bucket,
}

pub struct BucketEntryView {
    pub id: Seq<char>,
    pub bucket: BucketView,
}

impl View for BucketEntry {
    type V = BucketEntryView;

    open spec fn view(&self) -> BucketEntryView {
        BucketEntryView { id: self.id@, bucket: self.bucket@ }
    }
}

/// The buckets held by `owner`, each with its id, in the order of their keys.
pub open spec fn buckets_held_by(
    order: Seq<KeyView>,
    m: Map<KeyView, BucketView>,
    owner: Seq<char>,
) -> Seq<BucketEntryView>
    decreases order.len(),
{
    if order.len() == 0 {
        Seq::empty()
    } else if order.last().0 == owner {
        buckets_held_by(order.drop_last(), m, owner).push(
            BucketEntryView { id: order.last().1, bucket: m[order.last()] },
        )
    } else {
        buckets_held_by(order.drop_last(), m, owner)
    }
}

/// How many listings a page of the market holds.
pub const MARKET_PAGE_SIZE: usize = 20;

/// The page `page_num` of `s`, counted from zero: the items from
/// `page_num * MARKET_PAGE_SIZE` on, up to `MARKET_PAGE_SIZE` of them.
pub open spec fn page<T>(s: Seq<T>, page_num: u8) -> Seq<T> {
    let first = page_num * MARKET_PAGE_SIZE;
    if first >= s.len() {
        Seq::empty()
    } else if first + MARKET_PAGE_SIZE >= s.len() {
        s.subrange(first, s.len() as int)
    } else {
        s.subrange(first, first + MARKET_PAGE_SIZE)
    }
}

/// The listing with the id `listing_id`, whoever holds it.
pub fn get_listing_info(state: &State, listing_id: &str) -> (r: Option<Listing>)
    requires
        state.wf(),
    ensures
        match r {
            Some(l) => id_taken(state@.listings, listing_id@) && l@ == state@.listings[(
                holder_of(state@.listings, listing_id@),
                listing_id@,
            )],
            None => !id_taken(state@.listings, listing_id@),
        },
{
    match state.listings.item_by_id(listing_id) {
        Some((holder, l)) => {
            proof {
                state.listings.lemma_ids_unique();
                lemma_holder_is_key(state@.listings, holder@, listing_id@);
            }
            Some(l)
        },
        None => None,
    }
}

/// Every listing.
pub fn get_all_listings(state: &State) -> (r: Vec<Listing>)
    requires
        state.wf(),
    ensures
        views(r@) == listed(state.listings.order(), state@.listings),
{
    let mut out: Vec<Listing> = Vec::new();
    let mut i: usize = 0;
    let ghost all = listed(state.listings.order(), state@.listings);
    while i < state.listings.len()
        invariant
            state.wf(),
            i <= state.listings.order().len(),
            all == listed(state.listings.order(), state@.listings),
            out.len() == i,
            forall|j: int| 0 <= j < i ==> (#[trigger] out[j])@ == all[j],
        decreases state.listings.order().len() - i,
    {
        match state.listings.entry(i) {
            Some((_, l)) => {
                out.push(l.clone());
            },
            None => {},
        }
        i += 1;
    }
    assert(views(out@) =~= all);
    out
}

/// The listings that `owner` holds.
pub fn get_listings_by_owner(state: &State, owner: &Addr) -> (r: Vec<Listing>)
    requires
        state.wf(),
    ensures
        views(r@) == held_by(state.listings.order(), state@.listings, owner@),
{
    let mut out: Vec<Listing> = Vec::new();
    let mut i: usize = 0;
    let ghost order = state.listings.order();
    assert(order.take(0) =~= Seq::<KeyView>::empty());
    assert(views(out@) =~= held_by(order.take(0), state@.listings, owner@));
    while i < state.listings.len()
        invariant
            state.wf(),
            order == state.listings.order(),
            i <= order.len(),
            views(out@) == held_by(order.take(i as int), state@.listings, owner@),
        decreases order.len() - i,
    {
        let ghost before = views(out@);
        proof {
            assert(order.take(i as int + 1).drop_last() =~= order.take(i as int));
            assert(order.take(i as int + 1).last() == order[i as int]);
        }
        match state.listings.entry(i) {
            Some((k, l)) => {
                if k.owner.same(owner) {
                    out.push(l.clone());
                    assert(views(out@) =~= before.push(state@.listings[order[i as int]]));
                }
            },
            None => {},
        }
        i += 1;
    }
    assert(order.take(i as int) =~= order);
    out
}

/// The buckets that `bucket_owner` holds, each with its id.
pub fn get_buckets(state: &State, bucket_owner: &Addr) -> (r: Vec<BucketEntry>)
    requires
        state.wf(),
    ensures
        views(r@) == buckets_held_by(state.buckets.order(), state@.buckets, bucket_owner@),
{
    let mut out: Vec<BucketEntry> = Vec::new();
    let mut i: usize = 0;
    let ghost order = state.buckets.order();
    assert(order.take(0) =~= Seq::<KeyView>::empty());
    assert(views(out@) =~= buckets_held_by(order.take(0), state@.buckets, bucket_owner@));
    while i < state.buckets.len()
        invariant
            state.wf(),
            order == state.buckets.order(),
            i <= order.len(),
            views(out@) == buckets_held_by(order.take(i as int), state@.buckets, bucket_owner@),
        decreases order.len() - i,
    {
        let ghost before = views(out@);
        proof {
            assert(order.take(i as int + 1).drop_last() =~= order.take(i as int));
            assert(order.take(i as int + 1).last() == order[i as int]);
        }
        match state.buckets.entry(i) {
            Some((k, b)) => {
                if k.owner.same(bucket_owner) {
                    out.push(BucketEntry { id: k.id.clone(), bucket: b.clone() });
                    assert(views(out@) =~= before.push(
                        BucketEntryView {
                            id: order[i as int].1,
                            bucket: state@.buckets[order[i as int]],
                        },
                    ));
                }
            },
            None => {},
        }
        i += 1;
    }
    assert(order.take(i as int) =~= order);
    out
}

/// The listings that are open to purchase.
fn market_listings(state: &State) -> (r: Vec<Listing>)
    requires
        state.wf(),
    ensures
        views(r@) == on_market(state.listings.order(), state@.listings),
{
    let mut out: Vec<Listing> = Vec::new();
    let mut i: usize = 0;
    let ghost order = state.listings.order();
    assert(order.take(0) =~= Seq::<KeyView>::empty());
    assert(views(out@) =~= on_market(order.take(0), state@.listings));
    while i < state.listings.len()
        invariant
            state.wf(),
            order == state.listings.order(),
            i <= order.len(),
            views(out@) == on_market(order.take(i as int), state@.listings),
        decreases order.len() - i,
    {
        let ghost before = views(out@);
        proof {
            assert(order.take(i as int + 1).drop_last() =~= order.take(i as int));
            assert(order.take(i as int + 1).last() == order[i as int]);
        }
        match state.listings.entry(i) {
            Some((_, l)) => {
                if l.status == Status::FinalizedReady {
                    out.push(l.clone());
                    assert(views(out@) =~= before.push(state@.listings[order[i as int]]));
                }
            },
            None => {},
        }
        i += 1;
    }
    assert(order.take(i as int) =~= order);
    out
}

/// One page of the listings that are open to purchase; pages are counted
/// from zero.
pub fn get_listings_for_market(state: &State, page_num: u8) -> (r: Vec<Listing>)
    requires
        state.wf(),
    ensures
        views(r@) == page(on_market(state.listings.order(), state@.listings), page_num),
{
    let all = market_listings(state);
    let ghost s = views(all@);
    let first: usize = (page_num as usize) * MARKET_PAGE_SIZE;
    let mut out: Vec<Listing> = Vec::new();
    if first >= all.len() {
        assert(views(out@) =~= page(s, page_num));
        return out;
    }
    let end: usize = if all.len() - first <= MARKET_PAGE_SIZE {
        all.len()
    } else {
        first + MARKET_PAGE_SIZE
    };
    let mut i: usize = first;
    while i < end
        invariant
            first <= i <= end <= all.len(),
            s == views(all@),
            out.len() == i - first,
            forall|j: int| 0 <= j < i - first ==> (#[trigger] out[j])@ == s[first + j],
        decreases end - i,
    {
        out.push(all[i].clone());
        i += 1;
    }
    assert(views(out@) =~= s.subrange(first as int, end as int));
    out
}

} // verus!
