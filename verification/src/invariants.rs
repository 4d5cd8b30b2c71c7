use crate::balance::{
    empty_ledger, holds_something, unique_keys, well_formed, with_nft, BalanceView,
    GenericBalanceView,
};
use crate::balance_laws::{
    lemma_deposit_as_ledger, lemma_merge_holds_something, lemma_merge_well_formed,
};
use crate::coin::NftView;
use crate::contract::{execute_outcome, reported_deposit, reported_token, MessageInfoView};
use crate::error::ContractError;
use crate::model::{
    add_funds_to_sale_outcome, add_to_bucket_cw721_outcome, add_to_bucket_outcome,
    add_to_sale_cw721_outcome, buy_listing_outcome, change_ask_outcome,
    create_bucket_cw721_outcome, create_bucket_outcome, create_listing_cw20_outcome,
    create_listing_cw721_outcome, create_listing_outcome, finalize_outcome, holder_of,
    refund_outcome, refused, remove_listing_outcome, store_new_listing,
    withdraw_bucket_outcome, withdraw_purchased_outcome, Outcome,
};
use crate::msg::{CreateListingMsgView, ExecuteMsgView, ReceiveMsgView, ReceiveNftMsgView};
use crate::response::AttributeView;
use crate::state::{id_taken, ids_unique, KeyView, ListingView, StateView, Status, Timestamp};
use vstd::prelude::*;

verus! {

/// Whether the listing `l` under the key `k` is in order: it names its
/// holder and its id, its two times are both set or both unset, it is in
/// preparation exactly as long as they are unset, and it is closed exactly
/// when it has a claimant, who then holds it.
pub open spec fn listing_in_order(k: KeyView, l: ListingView) -> bool {
    &&& l.creator == k.0
    &&& l.id == k.1
    &&& (l.finalized_time is Some <==> l.expiration_time is Some)
    &&& (l.status == Status::BeingPrepared <==> l.finalized_time is None)
    &&& (l.status == Status::Closed <==> l.claimant is Some)
    &&& (l.claimant is Some ==> l.claimant == Some(l.creator))
}

/// Whether the marketplace is in order: no two listings share an id, every
/// listing is in order, and every bucket names its holder as its owner.
pub open spec fn in_order(s: StateView) -> bool {
    &&& ids_unique(s.listings)
    &&& forall|k: KeyView| #[trigger]
        s.listings.contains_key(k) ==> listing_in_order(k, s.listings[k])
    &&& forall|k: KeyView| #[trigger] s.buckets.contains_key(k) ==> s.buckets[k].owner == k.0
}

/// The marketplace with no listing and no bucket is in order.
pub proof fn lemma_empty_in_order()
    ensures
        in_order(StateView { listings: Map::empty(), buckets: Map::empty() }),
{
}

/// Putting a listing in order under a key whose id no other key has keeps
/// the listings in order.
proof fn lemma_put_listing(s: StateView, k: KeyView, l: ListingView)
    requires
        in_order(s),
        listing_in_order(k, l),
        forall|o: Seq<char>| #[trigger] s.listings.contains_key((o, k.1)) ==> o == k.0,
    ensures
        in_order(StateView { listings: s.listings.insert(k, l), ..s }),
{
    let post = s.listings.insert(k, l);
    assert forall|a: KeyView, b: KeyView|
        #[trigger] post.contains_key(a) && #[trigger] post.contains_key(b) && a.1
            == b.1 implies a == b by {
        if a != k && b != k {
            assert(s.listings.contains_key(a) && s.listings.contains_key(b));
        } else if a == k && b != k {
            assert(s.listings.contains_key((b.0, k.1)));
        } else if b == k && a != k {
            assert(s.listings.contains_key((a.0, k.1)));
        }
    }
}

/// Taking a listing away keeps the listings in order.
proof fn lemma_drop_listing(s: StateView, k: KeyView)
    requires
        in_order(s),
    ensures
        in_order(StateView { listings: s.listings.remove(k), ..s }),
{
    let post = s.listings.remove(k);
    assert forall|a: KeyView, b: KeyView|
        #[trigger] post.contains_key(a) && #[trigger] post.contains_key(b) && a.1
            == b.1 implies a == b by {
        assert(s.listings.contains_key(a) && s.listings.contains_key(b));
    }
}

/// In a marketplace in order, the one holder of an id is the holder that
/// the model speaks of.
proof fn lemma_unique_holder(s: StateView, id: Seq<char>)
    requires
        in_order(s),
    ensures
        forall|o: Seq<char>| #[trigger]
            s.listings.contains_key((o, id)) ==> o == holder_of(s.listings, id),
{
    assert forall|o: Seq<char>| #[trigger] s.listings.contains_key((o, id)) implies o
        == holder_of(s.listings, id) by {
        let h = holder_of(s.listings, id);
        assert(s.listings.contains_key((h, id)));
        assert((h, id).1 == (o, id).1);
    }
}

/// Whether the operation with the outcome `o` keeps a marketplace in order.
pub open spec fn keeps_order(o: Outcome) -> bool {
    o matches Ok((post, _)) ==> in_order(post)
}

/// The operations on buckets keep a marketplace in order.
pub proof fn lemma_bucket_operations_keep_order(
    s: StateView,
    user: Seq<char>,
    bucket_id: Seq<char>,
    funds: BalanceView,
    nft: NftView,
)
    requires
        in_order(s),
    ensures
        keeps_order(create_bucket_outcome(s, funds, user, bucket_id)),
        keeps_order(create_bucket_cw721_outcome(s, user, nft, bucket_id)),
        keeps_order(add_to_bucket_outcome(s, funds, user, bucket_id)),
        keeps_order(add_to_bucket_cw721_outcome(s, user, nft, bucket_id)),
        keeps_order(withdraw_bucket_outcome(s, user, bucket_id)),
{
}

/// Creating a listing keeps a marketplace in order.
pub proof fn lemma_create_listing_keeps_order(
    s: StateView,
    user: Seq<char>,
    funds: BalanceView,
    nft: NftView,
    msg: CreateListingMsgView,
)
    requires
        in_order(s),
    ensures
        keeps_order(create_listing_outcome(s, user, funds, msg)),
        keeps_order(create_listing_cw20_outcome(s, user, funds, msg)),
        keeps_order(create_listing_cw721_outcome(s, user, nft, msg)),
{
    assert forall|for_sale: GenericBalanceView,
        attributes: Seq<AttributeView>| #[trigger]
        keeps_order(store_new_listing(s, user, for_sale, msg, attributes)) by {
        let o = store_new_listing(s, user, for_sale, msg, attributes);
        if o is Ok {
            let l = o->Ok_0.0.listings[(user, msg.id)];
            lemma_put_listing(s, (user, msg.id), l);
            assert(o->Ok_0.0 == StateView {
                listings: s.listings.insert((user, msg.id), l),
                ..s
            });
        }
    }
}

/// Changing a listing in preparation, finalizing it or taking it away keeps
/// a marketplace in order.
pub proof fn lemma_listing_operations_keep_order(
    s: StateView,
    now: Timestamp,
    sender: Seq<char>,
    listing_id: Seq<char>,
    funds: BalanceView,
    nft: NftView,
    new_ask: GenericBalanceView,
    seconds: u64,
)
    requires
        in_order(s),
    ensures
        keeps_order(change_ask_outcome(s, sender, listing_id, new_ask)),
        keeps_order(add_funds_to_sale_outcome(s, funds, sender, listing_id)),
        keeps_order(add_to_sale_cw721_outcome(s, sender, nft, listing_id)),
        keeps_order(remove_listing_outcome(s, sender, listing_id)),
        keeps_order(finalize_outcome(s, now, sender, listing_id, seconds)),
        keeps_order(refund_outcome(s, now, sender, listing_id)),
{
    let key = (sender, listing_id);
    lemma_drop_listing(s, key);
    lemma_unique_holder(s, listing_id);
    let o1 = change_ask_outcome(s, sender, listing_id, new_ask);
    if o1 is Ok {
        lemma_put_listing(s, key, o1->Ok_0.0.listings[key]);
        assert(o1->Ok_0.0 == StateView { listings: s.listings.insert(key, o1->Ok_0.0.listings[key]), ..s });
    }
    let o2 = add_funds_to_sale_outcome(s, funds, sender, listing_id);
    if o2 is Ok {
        lemma_put_listing(s, key, o2->Ok_0.0.listings[key]);
        assert(o2->Ok_0.0 == StateView { listings: s.listings.insert(key, o2->Ok_0.0.listings[key]), ..s });
    }
    let o3 = add_to_sale_cw721_outcome(s, sender, nft, listing_id);
    if o3 is Ok {
        lemma_put_listing(s, key, o3->Ok_0.0.listings[key]);
        assert(o3->Ok_0.0 == StateView { listings: s.listings.insert(key, o3->Ok_0.0.listings[key]), ..s });
    }
    let o4 = finalize_outcome(s, now, sender, listing_id, seconds);
    if o4 is Ok {
        lemma_put_listing(s, key, o4->Ok_0.0.listings[key]);
        assert(o4->Ok_0.0 == StateView { listings: s.listings.insert(key, o4->Ok_0.0.listings[key]), ..s });
    }
}

/// A purchase and the withdrawal of what was bought keep a marketplace in order.
pub proof fn lemma_settlement_keeps_order(
    s: StateView,
    now: Timestamp,
    caller: Seq<char>,
    listing_id: Seq<char>,
    bucket_id: Seq<char>,
)
    requires
        in_order(s),
    ensures
        keeps_order(buy_listing_outcome(s, now, caller, listing_id, bucket_id)),
        keeps_order(withdraw_purchased_outcome(s, caller, listing_id)),
{
    let holder = holder_of(s.listings, listing_id);
    lemma_drop_listing(s, (holder, listing_id));
    lemma_unique_holder(s, listing_id);
    let o = buy_listing_outcome(s, now, caller, listing_id, bucket_id);
    if o is Ok {
        let post = o->Ok_0.0;
        let mid = StateView { listings: s.listings.remove((holder, listing_id)), ..s };
        let sold = post.listings[(caller, listing_id)];
        assert(s.listings.contains_key((holder, listing_id)));
        assert(listing_in_order((holder, listing_id), s.listings[(holder, listing_id)]));
        assert forall|o2: Seq<char>| #[trigger]
            mid.listings.contains_key((o2, listing_id)) implies o2 == caller by {
            assert(s.listings.contains_key((o2, listing_id)));
        }
        lemma_put_listing(mid, (caller, listing_id), sold);
        let after = StateView { listings: mid.listings.insert((caller, listing_id), sold), ..mid };
        assert(post.listings == after.listings);
        assert forall|k: KeyView| #[trigger] post.buckets.contains_key(k) implies post.buckets[k].owner
            == k.0 by {
            if k != (holder, bucket_id) {
                assert(s.buckets.contains_key(k));
            }
        }
    }
}

/// Every request keeps the marketplace in order: where a marketplace in
/// order carries out a request, whatever the request, the sender, the
/// deposit and the time, the marketplace that it leaves is in order.
pub proof fn theorem_execute_keeps_order(
    s: StateView,
    now: Timestamp,
    info: MessageInfoView,
    msg: ExecuteMsgView,
)
    requires
        in_order(s),
    ensures
        keeps_order(execute_outcome(s, now, info, msg)),
{
    let funds = BalanceView::Native(info.funds);
    let any_nft = NftView { contract_address: Seq::empty(), token_id: Seq::empty() };
    let any_ask = empty_ledger();
    match msg {
        ExecuteMsgView::Receive(w) => {
            let deposit = reported_deposit(info.sender, w);
            match w.msg {
                ReceiveMsgView::CreateListingCw20 { create_msg } => {
                    lemma_create_listing_keeps_order(s, w.sender, deposit, any_nft, create_msg);
                },
                ReceiveMsgView::AddFundsToSaleCw20 { listing_id } => {
                    lemma_listing_operations_keep_order(
                        s,
                        now,
                        w.sender,
                        listing_id,
                        deposit,
                        any_nft,
                        any_ask,
                        0,
                    );
                },
                ReceiveMsgView::CreateBucketCw20 { bucket_id } => {
                    lemma_bucket_operations_keep_order(s, w.sender, bucket_id, deposit, any_nft);
                },
                ReceiveMsgView::AddToBucketCw20 { bucket_id } => {
                    lemma_bucket_operations_keep_order(s, w.sender, bucket_id, deposit, any_nft);
                },
            }
        },
        ExecuteMsgView::ReceiveNft(w) => {
            let nft = reported_token(info.sender, w);
            match w.msg {
                ReceiveNftMsgView::CreateListingCw721 { create_msg } => {
                    lemma_create_listing_keeps_order(s, w.sender, funds, nft, create_msg);
                },
                ReceiveNftMsgView::AddToListingCw721 { listing_id } => {
                    lemma_listing_operations_keep_order(
                        s,
                        now,
                        w.sender,
                        listing_id,
                        funds,
                        nft,
                        any_ask,
                        0,
                    );
                },
                ReceiveNftMsgView::CreateBucketCw721 { bucket_id } => {
                    lemma_bucket_operations_keep_order(s, w.sender, bucket_id, funds, nft);
                },
                ReceiveNftMsgView::AddToBucketCw721 { bucket_id } => {
                    lemma_bucket_operations_keep_order(s, w.sender, bucket_id, funds, nft);
                },
            }
        },
        ExecuteMsgView::CreateListing { create_msg } => {
            lemma_create_listing_keeps_order(s, info.sender, funds, any_nft, create_msg);
        },
        ExecuteMsgView::AddFundsToSaleNative { listing_id } => {
            lemma_listing_operations_keep_order(
                s,
                now,
                info.sender,
                listing_id,
                funds,
                any_nft,
                any_ask,
                0,
            );
        },
        ExecuteMsgView::ChangeAsk { listing_id, new_ask } => {
            lemma_listing_operations_keep_order(
                s,
                now,
                info.sender,
                listing_id,
                funds,
                any_nft,
                new_ask,
                0,
            );
        },
        ExecuteMsgView::RemoveListing { listing_id } => {
            lemma_listing_operations_keep_order(
                s,
                now,
                info.sender,
                listing_id,
                funds,
                any_nft,
                any_ask,
                0,
            );
        },
        ExecuteMsgView::Finalize { listing_id, seconds } => {
            lemma_listing_operations_keep_order(
                s,
                now,
                info.sender,
                listing_id,
                funds,
                any_nft,
                any_ask,
                seconds,
            );
        },
        ExecuteMsgView::RefundExpired { listing_id } => {
            lemma_listing_operations_keep_order(
                s,
                now,
                info.sender,
                listing_id,
                funds,
                any_nft,
                any_ask,
                0,
            );
        },
        ExecuteMsgView::CreateBucket { bucket_id } => {
            lemma_bucket_operations_keep_order(s, info.sender, bucket_id, funds, any_nft);
        },
        ExecuteMsgView::AddToBucket { bucket_id } => {
            lemma_bucket_operations_keep_order(s, info.sender, bucket_id, funds, any_nft);
        },
        ExecuteMsgView::RemoveBucket { bucket_id } => {
            lemma_bucket_operations_keep_order(s, info.sender, bucket_id, funds, any_nft);
        },
        ExecuteMsgView::BuyListing { listing_id, bucket_id } => {
            lemma_settlement_keeps_order(s, now, info.sender, listing_id, bucket_id);
        },
        ExecuteMsgView::WithdrawPurchased { listing_id } => {
            lemma_settlement_keeps_order(s, now, info.sender, listing_id, Seq::empty());
        },
    }
}

/// In a marketplace in order some refusals never come: no operation finds
/// a record under the caller's key that names another holder, no finalized
/// listing lacks its expiration time, and no listing open to purchase has
/// a claimant.
pub proof fn lemma_refusals_that_never_come(
    s: StateView,
    now: Timestamp,
    caller: Seq<char>,
    listing_id: Seq<char>,
    bucket_id: Seq<char>,
)
    requires
        in_order(s),
    ensures
        refund_outcome(s, now, caller, listing_id) != refused(
            ContractError::MissingExpiration,
        ),
        buy_listing_outcome(s, now, caller, listing_id, bucket_id) != refused(
            ContractError::AlreadyClaimed,
        ),
        buy_listing_outcome(s, now, caller, listing_id, bucket_id) != refused(
            ContractError::Unauthorized,
        ),
        withdraw_bucket_outcome(s, caller, bucket_id) != refused(
            ContractError::Unauthorized,
        ),
{
    let holder = holder_of(s.listings, listing_id);
    if s.listings.contains_key((caller, listing_id)) {
        assert(listing_in_order((caller, listing_id), s.listings[(caller, listing_id)]));
    }
    if id_taken(s.listings, listing_id) {
        assert(s.listings.contains_key((holder, listing_id)));
        assert(listing_in_order((holder, listing_id), s.listings[(holder, listing_id)]));
    }
    if s.buckets.contains_key((caller, bucket_id)) {
        assert(s.buckets[(caller, bucket_id)].owner == caller);
    }
}

/// Whether the ledgers of the marketplace are in order: what a listing
/// sells and what a bucket holds has no key twice and holds something, and
/// no ask names a denomination twice.
pub open spec fn ledgers_in_order(s: StateView) -> bool {
    &&& forall|k: KeyView| #[trigger]
        s.listings.contains_key(k) ==> well_formed(s.listings[k].for_sale) && holds_something(
            s.listings[k].for_sale,
        ) && unique_keys(s.listings[k].ask.native)
    &&& forall|k: KeyView| #[trigger]
        s.buckets.contains_key(k) ==> well_formed(s.buckets[k].funds) && holds_something(
            s.buckets[k].funds,
        )
}

/// Whether the operation with the outcome `o` keeps the ledgers in order.
pub open spec fn keeps_ledgers(o: Outcome) -> bool {
    o matches Ok((post, _)) ==> ledgers_in_order(post)
}

/// The operations that take a deposit keep the ledgers in order, given a
/// deposit that names no denomination twice.
pub proof fn lemma_deposits_keep_ledgers(
    s: StateView,
    user: Seq<char>,
    id: Seq<char>,
    funds: BalanceView,
    msg: CreateListingMsgView,
)
    requires
        ledgers_in_order(s),
        crate::balance_laws::deposit_well_formed(funds),
    ensures
        keeps_ledgers(create_bucket_outcome(s, funds, user, id)),
        keeps_ledgers(add_to_bucket_outcome(s, funds, user, id)),
        keeps_ledgers(create_listing_outcome(s, user, funds, msg)),
        keeps_ledgers(create_listing_cw20_outcome(s, user, funds, msg)),
        keeps_ledgers(add_funds_to_sale_outcome(s, funds, user, id)),
{
    let any_nft = NftView { contract_address: Seq::empty(), token_id: Seq::empty() };
    if !crate::balance::is_empty_deposit(funds) {
        lemma_deposit_as_ledger(funds);
    }
    if s.buckets.contains_key((user, id)) {
        lemma_merge_well_formed(s.buckets[(user, id)].funds, funds, any_nft);
        lemma_merge_holds_something(s.buckets[(user, id)].funds, funds, any_nft);
    }
    if s.listings.contains_key((user, id)) {
        lemma_merge_well_formed(s.listings[(user, id)].for_sale, funds, any_nft);
        lemma_merge_holds_something(s.listings[(user, id)].for_sale, funds, any_nft);
    }
}

/// The operations that take a token keep the ledgers in order.
pub proof fn lemma_tokens_keep_ledgers(
    s: StateView,
    user: Seq<char>,
    id: Seq<char>,
    nft: NftView,
    msg: CreateListingMsgView,
)
    requires
        ledgers_in_order(s),
    ensures
        keeps_ledgers(create_bucket_cw721_outcome(s, user, nft, id)),
        keeps_ledgers(add_to_bucket_cw721_outcome(s, user, nft, id)),
        keeps_ledgers(create_listing_cw721_outcome(s, user, nft, msg)),
        keeps_ledgers(add_to_sale_cw721_outcome(s, user, nft, id)),
{
    let no_deposit = BalanceView::Native(Seq::empty());
    assert(with_nft(empty_ledger(), nft).nfts =~= seq![nft]);
    if s.buckets.contains_key((user, id)) {
        lemma_merge_well_formed(s.buckets[(user, id)].funds, no_deposit, nft);
        lemma_merge_holds_something(s.buckets[(user, id)].funds, no_deposit, nft);
    }
    if s.listings.contains_key((user, id)) {
        lemma_merge_well_formed(s.listings[(user, id)].for_sale, no_deposit, nft);
        lemma_merge_holds_something(s.listings[(user, id)].for_sale, no_deposit, nft);
    }
}

/// The operations that take nothing keep the ledgers in order.
pub proof fn lemma_others_keep_ledgers(
    s: StateView,
    now: Timestamp,
    caller: Seq<char>,
    listing_id: Seq<char>,
    bucket_id: Seq<char>,
    new_ask: GenericBalanceView,
    seconds: u64,
)
    requires
        ledgers_in_order(s),
    ensures
        keeps_ledgers(withdraw_bucket_outcome(s, caller, bucket_id)),
        keeps_ledgers(change_ask_outcome(s, caller, listing_id, new_ask)),
        keeps_ledgers(remove_listing_outcome(s, caller, listing_id)),
        keeps_ledgers(finalize_outcome(s, now, caller, listing_id, seconds)),
        keeps_ledgers(refund_outcome(s, now, caller, listing_id)),
        keeps_ledgers(buy_listing_outcome(s, now, caller, listing_id, bucket_id)),
        keeps_ledgers(withdraw_purchased_outcome(s, caller, listing_id)),
{
    let o = buy_listing_outcome(s, now, caller, listing_id, bucket_id);
    if o is Ok {
        let seller = holder_of(s.listings, listing_id);
        assert(s.listings.contains_key((seller, listing_id)));
        assert(s.buckets.contains_key((caller, bucket_id)));
    }
}

/// Every request keeps the ledgers in order, as long as the coins that come
/// with a request name no denomination twice: what a listing sells and
/// what a bucket holds never has a key twice and always holds something.
pub proof fn theorem_execute_keeps_ledgers(
    s: StateView,
    now: Timestamp,
    info: MessageInfoView,
    msg: ExecuteMsgView,
)
    requires
        ledgers_in_order(s),
        unique_keys(info.funds),
    ensures
        keeps_ledgers(execute_outcome(s, now, info, msg)),
{
    let funds = BalanceView::Native(info.funds);
    let any_msg = CreateListingMsgView {
        id: Seq::empty(),
        ask: empty_ledger(),
        whitelist_buyer_one: None,
        whitelist_buyer_two: None,
        whitelist_buyer_three: None,
    };
    match msg {
        ExecuteMsgView::Receive(w) => {
            let deposit = reported_deposit(info.sender, w);
            match w.msg {
                ReceiveMsgView::CreateListingCw20 { create_msg } => {
                    lemma_deposits_keep_ledgers(s, w.sender, Seq::empty(), deposit, create_msg);
                },
                ReceiveMsgView::AddFundsToSaleCw20 { listing_id } => {
                    lemma_deposits_keep_ledgers(s, w.sender, listing_id, deposit, any_msg);
                },
                ReceiveMsgView::CreateBucketCw20 { bucket_id } => {
                    lemma_deposits_keep_ledgers(s, w.sender, bucket_id, deposit, any_msg);
                },
                ReceiveMsgView::AddToBucketCw20 { bucket_id } => {
                    lemma_deposits_keep_ledgers(s, w.sender, bucket_id, deposit, any_msg);
                },
            }
        },
        ExecuteMsgView::ReceiveNft(w) => {
            let nft = reported_token(info.sender, w);
            match w.msg {
                ReceiveNftMsgView::CreateListingCw721 { create_msg } => {
                    lemma_tokens_keep_ledgers(s, w.sender, Seq::empty(), nft, create_msg);
                },
                ReceiveNftMsgView::AddToListingCw721 { listing_id } => {
                    lemma_tokens_keep_ledgers(s, w.sender, listing_id, nft, any_msg);
                },
                ReceiveNftMsgView::CreateBucketCw721 { bucket_id } => {
                    lemma_tokens_keep_ledgers(s, w.sender, bucket_id, nft, any_msg);
                },
                ReceiveNftMsgView::AddToBucketCw721 { bucket_id } => {
                    lemma_tokens_keep_ledgers(s, w.sender, bucket_id, nft, any_msg);
                },
            }
        },
        ExecuteMsgView::CreateListing { create_msg } => {
            lemma_deposits_keep_ledgers(s, info.sender, Seq::empty(), funds, create_msg);
        },
        ExecuteMsgView::AddFundsToSaleNative { listing_id } => {
            lemma_deposits_keep_ledgers(s, info.sender, listing_id, funds, any_msg);
        },
        ExecuteMsgView::CreateBucket { bucket_id } => {
            lemma_deposits_keep_ledgers(s, info.sender, bucket_id, funds, any_msg);
        },
        ExecuteMsgView::AddToBucket { bucket_id } => {
            lemma_deposits_keep_ledgers(s, info.sender, bucket_id, funds, any_msg);
        },
        ExecuteMsgView::ChangeAsk { listing_id, new_ask } => {
            lemma_others_keep_ledgers(s, now, info.sender, listing_id, Seq::empty(), new_ask, 0);
        },
        ExecuteMsgView::RemoveListing { listing_id } => {
            lemma_others_keep_ledgers(
                s,
                now,
                info.sender,
                listing_id,
                Seq::empty(),
                empty_ledger(),
                0,
            );
        },
        ExecuteMsgView::Finalize { listing_id, seconds } => {
            lemma_others_keep_ledgers(
                s,
                now,
                info.sender,
                listing_id,
                Seq::empty(),
                empty_ledger(),
                seconds,
            );
        },
        ExecuteMsgView::RefundExpired { listing_id } => {
            lemma_others_keep_ledgers(
                s,
                now,
                info.sender,
                listing_id,
                Seq::empty(),
                empty_ledger(),
                0,
            );
        },
        ExecuteMsgView::RemoveBucket { bucket_id } => {
            lemma_others_keep_ledgers(
                s,
                now,
                info.sender,
                Seq::empty(),
                bucket_id,
                empty_ledger(),
                0,
            );
        },
        ExecuteMsgView::BuyListing { listing_id, bucket_id } => {
            lemma_others_keep_ledgers(
                s,
                now,
                info.sender,
                listing_id,
                bucket_id,
                empty_ledger(),
                0,
            );
        },
        ExecuteMsgView::WithdrawPurchased { listing_id } => {
            lemma_others_keep_ledgers(
                s,
                now,
                info.sender,
                listing_id,
                Seq::empty(),
                empty_ledger(),
                0,
            );
        },
    }
}

} // verus!
