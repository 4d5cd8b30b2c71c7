use crate::balance::{has_key, is_empty_deposit, unique_keys, BalanceView, GenericBalanceView};
use crate::balance_eq::same_holdings;
use crate::balance_laws::{amount_at, lemma_total_of_unique, share, total};
use crate::coin::{Holding, NftView};
use crate::error::ContractError;
use crate::model::{
    add_funds_to_sale_outcome, add_to_sale_cw721_outcome, buy_listing_outcome,
    change_ask_outcome, create_listing_cw20_outcome, create_listing_cw721_outcome,
    create_listing_outcome, done, finalize_outcome, holder_of, purchase_refusal,
    refund_outcome, refused, remove_listing_outcome, reply, valid_window,
    withdraw_purchased_outcome,
};
use crate::msg::CreateListingMsgView;
use crate::response::{attr, bank_send};
use crate::state::{
    id_taken, ids_unique, BucketView, KeyView, ListingView, StateView, Status, Timestamp,
};
use crate::utils::{
    fee_of, fee_outcome, normalized_ask, transfer_msgs, whitelisted, without_key, COMMUNITY_POOL,
    FEE_DENOM,
};
use vstd::prelude::*;

verus! {

/// With unique ids, the holder of a listing is the identity under whose
/// key it is stored.
pub proof fn lemma_holder_is_key(m: Map<KeyView, ListingView>, owner: Seq<char>, id: Seq<char>)
    requires
        ids_unique(m),
        m.contains_key((owner, id)),
    ensures
        id_taken(m, id),
        holder_of(m, id) == owner,
{
    let h = holder_of(m, id);
    assert(m.contains_key((h, id)));
    assert((h, id).1 == (owner, id).1);
}

/// With unique ids, an id is free once the listing that had it is gone.
pub proof fn lemma_id_free_after_removal(
    m: Map<KeyView, ListingView>,
    owner: Seq<char>,
    id: Seq<char>,
)
    requires
        ids_unique(m),
        m.contains_key((owner, id)),
    ensures
        !id_taken(m.remove((owner, id)), id),
{
    assert forall|o: Seq<char>| !m.remove((owner, id)).contains_key((o, id)) by {
        if m.contains_key((o, id)) {
            assert((o, id).1 == (owner, id).1);
        }
    }
}

/// An id in use is refused: whoever asks for a listing with the id of a
/// listing that exists, of the same holder or of another, is refused with
/// `IdAlreadyExists`, whatever is deposited as long as it is something,
/// and whatever is asked.
pub proof fn law_id_in_use_is_refused(
    s: StateView,
    user: Seq<char>,
    funds: BalanceView,
    nft: NftView,
    msg: CreateListingMsgView,
)
    requires
        id_taken(s.listings, msg.id),
        !is_empty_deposit(funds),
    ensures
        create_listing_outcome(s, user, funds, msg) == refused(ContractError::IdAlreadyExists),
        create_listing_cw20_outcome(s, user, funds, msg) == refused(ContractError::IdAlreadyExists),
        create_listing_cw721_outcome(s, user, nft, msg) == refused(ContractError::IdAlreadyExists),
{
}

/// Ids are unique across holders: after `first` has created a listing, a
/// second request with the same id is refused with `IdAlreadyExists`,
/// whoever makes it.
pub proof fn law_global_id_uniqueness(
    s: StateView,
    first: Seq<char>,
    first_funds: BalanceView,
    first_msg: CreateListingMsgView,
    second: Seq<char>,
    second_funds: BalanceView,
    second_msg: CreateListingMsgView,
)
    requires
        create_listing_outcome(s, first, first_funds, first_msg) is Ok,
        second_msg.id == first_msg.id,
        !is_empty_deposit(second_funds),
    ensures
        create_listing_outcome(
            create_listing_outcome(s, first, first_funds, first_msg)->Ok_0.0,
            second,
            second_funds,
            second_msg,
        ) == refused(ContractError::IdAlreadyExists),
{
    let s1 = create_listing_outcome(s, first, first_funds, first_msg)->Ok_0.0;
    assert(s1.listings.contains_key((first, first_msg.id)));
}

/// An id can be used again once its listing is gone: after a listing was
/// removed, refunded or withdrawn, a request for a listing with its id
/// succeeds, given a deposit that carries something and an acceptable ask.
pub proof fn law_id_reusable_after_delete(
    s: StateView,
    now: Timestamp,
    caller: Seq<char>,
    id: Seq<char>,
    user: Seq<char>,
    funds: BalanceView,
    msg: CreateListingMsgView,
)
    requires
        ids_unique(s.listings),
        msg.id == id,
        !is_empty_deposit(funds),
        normalized_ask(msg.ask) is Ok,
    ensures
        remove_listing_outcome(s, caller, id) matches Ok((after, _)) ==> create_listing_outcome(
            after,
            user,
            funds,
            msg,
        ) is Ok,
        refund_outcome(s, now, caller, id) matches Ok((after, _)) ==> create_listing_outcome(
            after,
            user,
            funds,
            msg,
        ) is Ok,
        withdraw_purchased_outcome(s, caller, id) matches Ok((after, _))
            ==> create_listing_outcome(after, user, funds, msg) is Ok,
{
    if remove_listing_outcome(s, caller, id) is Ok {
        lemma_id_free_after_removal(s.listings, caller, id);
    }
    if refund_outcome(s, now, caller, id) is Ok {
        lemma_id_free_after_removal(s.listings, caller, id);
    }
    if withdraw_purchased_outcome(s, caller, id) is Ok {
        let holder = holder_of(s.listings, id);
        assert(s.listings.contains_key((holder, id)));
        lemma_id_free_after_removal(s.listings, holder, id);
    }
}

/// A listing is changed only in preparation: where its creator changes the
/// ask, adds to what it sells, takes it back or finalizes it, the listing
/// was the caller's, in preparation and unclaimed; and unless it is taken
/// back, it had never been finalized.
pub proof fn law_changes_need_preparation(
    s: StateView,
    now: Timestamp,
    sender: Seq<char>,
    listing_id: Seq<char>,
    funds: BalanceView,
    nft: NftView,
    new_ask: GenericBalanceView,
    seconds: u64,
)
    ensures
        (change_ask_outcome(s, sender, listing_id, new_ask) is Ok || add_funds_to_sale_outcome(
            s,
            funds,
            sender,
            listing_id,
        ) is Ok || add_to_sale_cw721_outcome(s, sender, nft, listing_id) is Ok
            || remove_listing_outcome(s, sender, listing_id) is Ok || finalize_outcome(
            s,
            now,
            sender,
            listing_id,
            seconds,
        ) is Ok) ==> {
            let l = s.listings[(sender, listing_id)];
            &&& s.listings.contains_key((sender, listing_id))
            &&& l.creator == sender
            &&& l.status == Status::BeingPrepared
            &&& l.claimant is None
        },
        (change_ask_outcome(s, sender, listing_id, new_ask) is Ok || add_funds_to_sale_outcome(
            s,
            funds,
            sender,
            listing_id,
        ) is Ok || add_to_sale_cw721_outcome(s, sender, nft, listing_id) is Ok
            || finalize_outcome(s, now, sender, listing_id, seconds) is Ok)
            ==> s.listings[(sender, listing_id)].finalized_time is None,
        finalize_outcome(s, now, sender, listing_id, seconds) is Ok ==> valid_window(seconds),
{
}

/// A purchase is all or nothing. Where it succeeds, the listing was
/// finalized, unclaimed and open to the buyer, and the bucket held what the
/// listing asked. Afterwards the listing is under
/// the buyer's key, closed, claimed by the buyer and selling what it sold;
/// the bucket is under the seller's key, owned by the seller and holding
/// what it held; and where buyer and seller differ, the listing is no
/// longer under the seller's key nor the bucket under the buyer's. Every
/// other listing is as it was. Where it is refused, the outcome is the
/// refusal alone, and the marketplace is as it was.
pub proof fn law_purchase_is_atomic(
    s: StateView,
    now: Timestamp,
    buyer: Seq<char>,
    listing_id: Seq<char>,
    bucket_id: Seq<char>,
)
    requires
        ids_unique(s.listings),
    ensures
        buy_listing_outcome(s, now, buyer, listing_id, bucket_id) matches Ok((post, _)) ==> {
            let seller = holder_of(s.listings, listing_id);
            let before = s.listings[(seller, listing_id)];
            let bucket = s.buckets[(buyer, bucket_id)];
            &&& s.listings.contains_key((seller, listing_id))
            &&& s.buckets.contains_key((buyer, bucket_id))
            &&& before.status == Status::FinalizedReady
            &&& before.claimant is None
            &&& same_holdings(bucket.funds, before.ask)
            &&& whitelisted(buyer, before)
            &&& post.listings.contains_key((buyer, listing_id))
            &&& post.listings[(buyer, listing_id)].status == Status::Closed
            &&& post.listings[(buyer, listing_id)].claimant == Some(buyer)
            &&& post.listings[(buyer, listing_id)].creator == buyer
            &&& post.listings[(buyer, listing_id)].for_sale == before.for_sale
            &&& post.buckets.contains_key((seller, bucket_id))
            &&& post.buckets[(seller, bucket_id)].owner == seller
            &&& post.buckets[(seller, bucket_id)].funds == bucket.funds
            &&& seller != buyer ==> !post.listings.contains_key((seller, listing_id))
            &&& seller != buyer ==> !post.buckets.contains_key((buyer, bucket_id))
            &&& ids_unique(post.listings)
            &&& forall|k: KeyView|
                k.1 != listing_id ==> post.listings.contains_key(k) == s.listings.contains_key(k)
                    && (s.listings.contains_key(k) ==> #[trigger] post.listings[k]
                    == s.listings[k])
            &&& forall|k: KeyView|
                k != (buyer, bucket_id) && k != (seller, bucket_id) ==> post.buckets.contains_key(k)
                    == s.buckets.contains_key(k) && (s.buckets.contains_key(k)
                    ==> #[trigger] post.buckets[k] == s.buckets[k])
        },
{
    if buy_listing_outcome(s, now, buyer, listing_id, bucket_id) is Ok {
        let post = buy_listing_outcome(s, now, buyer, listing_id, bucket_id)->Ok_0.0;
        let seller = holder_of(s.listings, listing_id);
        assert(s.listings.contains_key((seller, listing_id)));
        lemma_id_free_after_removal(s.listings, seller, listing_id);
        assert forall|a: KeyView, b: KeyView|
            #[trigger] post.listings.contains_key(a) && #[trigger] post.listings.contains_key(b)
                && a.1 == b.1 implies a == b by {
            if a.1 == listing_id {
                assert(!s.listings.remove((seller, listing_id)).contains_key((a.0, listing_id)));
                assert(!s.listings.remove((seller, listing_id)).contains_key((b.0, listing_id)));
            } else {
                assert(s.listings.contains_key(a) && s.listings.contains_key(b));
            }
        }
    }
}

/// The whitelist decides who may buy. A listing that names no buyer is open
/// to everyone; a listing that names buyers is open to them and to nobody
/// else; and a buyer who is not accepted, and whose bucket and listing are
/// otherwise in order, is refused with `NotWhitelisted`.
pub proof fn law_whitelist(l: ListingView, b: BucketView, now: Timestamp, buyer: Seq<char>)
    ensures
        (l.whitelisted_buyer_one is None && l.whitelisted_buyer_two is None
            && l.whitelisted_buyer_three is None) ==> whitelisted(buyer, l),
        whitelisted(buyer, l) && !(l.whitelisted_buyer_one is None && l.whitelisted_buyer_two
            is None && l.whitelisted_buyer_three is None) ==> (l.whitelisted_buyer_one == Some(
            buyer,
        ) || l.whitelisted_buyer_two == Some(buyer) || l.whitelisted_buyer_three == Some(buyer)),
        purchase_refusal(l, b, now, buyer) == Some(ContractError::NotWhitelisted) <==> (buyer
            == b.owner && same_holdings(b.funds, l.ask) && l.status == Status::FinalizedReady
            && !whitelisted(buyer, l)),
        purchase_refusal(l, b, now, buyer) is None ==> whitelisted(buyer, l),
{
}

/// A listing with exactly one named buyer accepts that buyer and refuses
/// every other.
pub proof fn law_whitelist_of_one(l: ListingView, named: Seq<char>, other: Seq<char>)
    requires
        l.whitelisted_buyer_one == Some(named),
        l.whitelisted_buyer_two is None,
        l.whitelisted_buyer_three is None,
        other != named,
    ensures
        whitelisted(named, l),
        !whitelisted(other, l),
{
}

/// Expiration is checked when a listing is bought or refunded. A purchase
/// that is otherwise in order is refused with `Expired` exactly when a set
/// expiration time lies before `now`. A refund that is otherwise in order
/// is refused with `NotYetExpired` exactly when `now` lies before the
/// expiration time; from the expiration time on it takes the listing away
/// and sends all that it sold back to its creator, as far as the transfers
/// can be encoded.
pub proof fn law_expiration(
    s: StateView,
    now: Timestamp,
    sender: Seq<char>,
    listing_id: Seq<char>,
    b: BucketView,
    buyer: Seq<char>,
)
    requires
        s.listings.contains_key((sender, listing_id)),
        s.listings[(sender, listing_id)].creator == sender,
        s.listings[(sender, listing_id)].status == Status::FinalizedReady,
        s.listings[(sender, listing_id)].claimant is None,
        s.listings[(sender, listing_id)].expiration_time is Some,
    ensures
        ({
            let l = s.listings[(sender, listing_id)];
            let expires = l.expiration_time->0;
            &&& purchase_refusal(l, b, now, buyer) == Some(ContractError::Expired) <==> (buyer
                == b.owner && same_holdings(b.funds, l.ask) && whitelisted(buyer, l) && now.nanos
                > expires.nanos)
            &&& now.nanos < expires.nanos <==> refund_outcome(s, now, sender, listing_id) == refused(ContractError::NotYetExpired)
            &&& now.nanos >= expires.nanos ==> match transfer_msgs(sender, l.for_sale) {
                Some(msgs) => refund_outcome(s, now, sender, listing_id) == done(
                    StateView { listings: s.listings.remove((sender, listing_id)), ..s },
                    reply(seq![attr("action"@, "refund"@)], msgs),
                ),
                None => refund_outcome(s, now, sender, listing_id) == refused(ContractError::Std),
            }
        }),
{
}

/// The entries without a key sum to nothing under that key, and to what
/// they summed to under every other.
proof fn lemma_total_without_key(s: Seq<Holding>, gone: Seq<char>, k: Seq<char>)
    ensures
        total(without_key(s, gone), k) == if k == gone {
            0
        } else {
            total(s, k)
        },
    decreases s.len(),
{
    if s.len() > 0 {
        lemma_total_without_key(s.drop_last(), gone, k);
        if s.last().key != gone {
            assert(without_key(s, gone).drop_last() =~= without_key(s.drop_last(), gone));
        }
    }
}

/// The protocol fee neither makes nor loses anything. Where a fee is
/// taken on a balance that names no denomination twice, the fee is a
/// thousandth of the amount in the fee denomination, rounded down, and at
/// least one; it goes to the community pool; and under every denomination
/// the fee and what is left sum to what the balance held. The tokens are
/// left as they were. No fee is taken exactly where the balance holds less
/// than a thousand in the fee denomination.
pub proof fn law_fee_conserves(b: GenericBalanceView, k: Seq<char>)
    requires
        unique_keys(b.native),
    ensures
        match fee_outcome(b) {
            Some((msg, rest)) => {
                let amount = amount_at(b.native, FEE_DENOM@);
                let fee = Holding { key: FEE_DENOM@, amount: fee_of(amount) };
                &&& has_key(b.native, FEE_DENOM@)
                &&& fee.amount >= 1
                &&& fee.amount * 1000 <= amount < (fee.amount + 1) * 1000
                &&& msg == bank_send(COMMUNITY_POOL@, seq![fee])
                &&& total(rest.native, k) + share(fee, k) == total(b.native, k)
                &&& rest.cw20 == b.cw20
                &&& rest.nfts == b.nfts
            },
            None => amount_at(b.native, FEE_DENOM@) < 1000,
        },
        fee_outcome(b) is None <==> amount_at(b.native, FEE_DENOM@) < 1000,
{
    if fee_outcome(b) is Some {
        let amount = amount_at(b.native, FEE_DENOM@);
        let kept = without_key(b.native, FEE_DENOM@);
        let left = Holding { key: FEE_DENOM@, amount: (amount - fee_of(amount)) as nat };
        lemma_total_without_key(b.native, FEE_DENOM@, k);
        lemma_total_of_unique(b.native, FEE_DENOM@);
        assert(kept.push(left).drop_last() =~= kept);
    }
}

} // verus!
