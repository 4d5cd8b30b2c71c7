use crate::addr::Addr;
use crate::balance::{genbal_from_nft, merge_fits, Balance, GenericBalance};
use crate::coin::{views, Nft};
use crate::encoding::print_timestamp;
use crate::error::{ContractError, Resource};
use crate::model::{
    add_to_bucket_cw721_outcome, add_to_bucket_outcome, create_bucket_cw721_outcome,
    create_bucket_outcome, settlement_msgs, withdraw_bucket_outcome,
    add_funds_to_sale_outcome, add_to_sale_cw721_outcome, buy_listing_outcome,
    change_ask_outcome, create_listing_cw20_outcome, create_listing_cw721_outcome,
    create_listing_outcome, edit_refusal, expiration, finalize_outcome,
    purchase_refusal, realizes, refund_outcome, remove_listing_outcome, store_new_listing,
    valid_window, withdraw_purchased_outcome, MAX_EXPIRATION_SECONDS, MIN_EXPIRATION_SECONDS,
};
use crate::laws::{lemma_holder_is_key, lemma_id_free_after_removal};
use crate::msg::CreateListingMsg;
use crate::response::{attr, AttributeView, CosmosMsg, Response};
use crate::state::{Bucket, Listing, State, Status, Timestamp, NANOS_PER_SECOND};
use crate::storage::RecordKey;
use crate::utils::{
    calc_fee, check_buyer_whitelisted, normalize_ask_error_on_dup, send_tokens_cosmos,
};
use vstd::prelude::*;

verus! {

/// Why `sender` may not change the listing, if it may not.
fn check_edit(listing: &Listing, sender: &Addr, sealed: bool) -> (r: Result<(), ContractError>)
    ensures
        match edit_refusal(listing@, sender@, sealed) {
            Some(e) => r matches Err(x) && x == e,
            None => r is Ok,
        },
{
    if !sender.same(&listing.creator) {
        return Err(ContractError::Unauthorized);
    }
    if sealed && listing.finalized_time.is_some() {
        return Err(ContractError::AlreadyFinalized);
    }
    if listing.status != Status::BeingPrepared {
        return Err(ContractError::AlreadyFinalized);
    }
    if listing.claimant.is_some() {
        return Err(ContractError::Unauthorized);
    }
    Ok(())
}

/// Buys the listing `listing_id` with the buyer's bucket `bucket_id`.
///
/// The bucket must hold exactly what the listing asks, the listing must be
/// finalized, unclaimed, open to this buyer and not yet expired. Then the
/// two change hands: the listing is stored under the buyer's key, closed
/// and claimed by the buyer, and the bucket under the key of the listing's
/// holder. A refusal changes nothing.
pub fn execute_buy_listing(
    state: &mut State,
    now: Timestamp,
    buyer: &Addr,
    listing_id: String,
    bucket_id: &str,
) -> (r: Result<Response, ContractError>)
    requires
        old(state).wf(),
    ensures
        final(state).wf(),
        realizes(
            r,
            old(state)@,
            final(state)@,
            buy_listing_outcome(old(state)@, now, buyer@, listing_id@, bucket_id@),
        ),
{
    let bucket_key = RecordKey::new(buyer, bucket_id);
    let the_bucket = match state.buckets.get(&bucket_key) {
        Some(b) => b.clone(),
        None => {
            return Err(ContractError::LoadBucketError);
        },
    };
    let (seller, the_listing) = match state.listings.item_by_id(listing_id.as_str()) {
        Some(found) => found,
        None => {
            return Err(ContractError::NotFound { typ: Resource::Listing });
        },
    };
    proof {
        state.listings.lemma_ids_unique();
        lemma_holder_is_key(state@.listings, seller@, listing_id@);
        lemma_id_free_after_removal(state@.listings, seller@, listing_id@);
    }
    if !buyer.same(&the_bucket.owner) {
        return Err(ContractError::Unauthorized);
    }
    if !(the_bucket.funds == the_listing.ask) {
        return Err(ContractError::FundsMismatch);
    }
    if the_listing.status != Status::FinalizedReady {
        return Err(ContractError::NotPurchasable);
    }
    match check_buyer_whitelisted(buyer, &the_listing) {
        Ok(()) => {},
        Err(e) => {
            return Err(e);
        },
    }
    if the_listing.claimant.is_some() {
        return Err(ContractError::AlreadyClaimed);
    }
    match the_listing.expiration_time {
        Some(exp) => {
            if now.nanos > exp.nanos {
                return Err(ContractError::Expired);
            }
        },
        None => {},
    }
    assert(purchase_refusal(the_listing@, the_bucket@, now, buyer@) is None);

    state.listings.remove(&seller, listing_id.as_str());
    let sold = Listing {
        creator: buyer.clone(),
        id: the_listing.id,
        finalized_time: the_listing.finalized_time,
        expiration_time: the_listing.expiration_time,
        status: Status::Closed,
        for_sale: the_listing.for_sale,
        ask: the_listing.ask,
        claimant: Some(buyer.clone()),
        whitelisted_buyer_one: the_listing.whitelisted_buyer_one,
        whitelisted_buyer_two: the_listing.whitelisted_buyer_two,
        whitelisted_buyer_three: the_listing.whitelisted_buyer_three,
    };
    match state.listings.save(buyer, listing_id.as_str(), sold) {
        Ok(()) => {},
        Err(e) => {
            return Err(e);
        },
    }
    let gone = state.buckets.remove(&bucket_key);
    let proceeds = Bucket { funds: the_bucket.funds, owner: seller.clone() };
    state.buckets.set(RecordKey::new(&seller, bucket_id), proceeds);

    let res = Response::new().add_attribute("action", "buy_listing").add_attribute(
        "bucket_used",
        bucket_id,
    ).add_attribute("listing_purchased:", listing_id.as_str());
    assert(res@.attributes =~= seq![
        attr("action"@, "buy_listing"@),
        attr("bucket_used"@, bucket_id@),
        attr("listing_purchased:"@, listing_id@),
    ]);
    Ok(res)
}

/// Seals the listing `listing_id` of `sender` and opens it to purchase for
/// `seconds` seconds from `now`.
///
/// The listing must be in preparation, never finalized and unclaimed, and
/// the duration between ten minutes and fourteen days.
pub fn execute_finalize(
    state: &mut State,
    now: Timestamp,
    sender: &Addr,
    listing_id: String,
    seconds: u64,
) -> (r: Result<Response, ContractError>)
    requires
        old(state).wf(),
        valid_window(seconds) ==> now.nanos + seconds * NANOS_PER_SECOND <= u64::MAX,
    ensures
        final(state).wf(),
        realizes(
            r,
            old(state)@,
            final(state)@,
            finalize_outcome(old(state)@, now, sender@, listing_id@, seconds),
        ),
{
    let listing = match state.listings.may_load(sender, listing_id.as_str()) {
        Some(l) => l,
        None => {
            return Err(ContractError::NotFound { typ: Resource::Listing });
        },
    };
    match check_edit(&listing, sender, true) {
        Ok(()) => {},
        Err(e) => {
            return Err(e);
        },
    }
    if seconds < MIN_EXPIRATION_SECONDS || seconds > MAX_EXPIRATION_SECONDS {
        return Err(ContractError::InvalidExpirationWindow);
    }
    let finalized_at = now;
    let expires_at = now.plus_seconds(seconds);
    assert(expires_at == expiration(now, seconds));
    let mut sealed = listing.clone();
    sealed.finalized_time = Some(finalized_at);
    sealed.expiration_time = Some(expires_at);
    sealed.status = Status::FinalizedReady;
    proof {
        state.listings.lemma_ids_unique();
    }
    match state.listings.replace(sender, listing_id.as_str(), Some(sealed), Some(&listing)) {
        Ok(()) => {},
        Err(e) => {
            return Err(e);
        },
    }
    let text = print_timestamp(expires_at.nanos);
    let res = Response::new().add_attribute("action", "finalize").add_attribute(
        "listing_id",
        listing_id.as_str(),
    ).add_attribute("expiration_seconds", text.as_str());
    assert(res@.attributes =~= seq![
        attr("action"@, "finalize"@),
        attr("listing_id"@, listing_id@),
        attr("expiration_seconds"@, text@),
    ]);
    Ok(res)
}

/// Merges a deposit into what the listing `listing_id` of `sender` sells.
///
/// The deposit must carry something and change the ledger, and the listing
/// must be in preparation, never finalized and unclaimed.
pub fn execute_add_funds_to_sale(
    state: &mut State,
    balance: Balance,
    sender: &Addr,
    listing_id: String,
) -> (r: Result<Response, ContractError>)
    requires
        old(state).wf(),
        old(state)@.listings.contains_key((sender@, listing_id@)) ==> merge_fits(
            old(state)@.listings[(sender@, listing_id@)].for_sale,
            balance@,
        ),
    ensures
        final(state).wf(),
        realizes(
            r,
            old(state)@,
            final(state)@,
            add_funds_to_sale_outcome(old(state)@, balance@, sender@, listing_id@),
        ),
{
    if balance.is_empty() {
        return Err(ContractError::EmptyDeposit);
    }
    let listing = match state.listings.may_load(sender, listing_id.as_str()) {
        Some(l) => l,
        None => {
            return Err(ContractError::NotFound { typ: Resource::Listing });
        },
    };
    match check_edit(&listing, sender, true) {
        Ok(()) => {},
        Err(e) => {
            return Err(e);
        },
    }
    let mut grown = listing.clone();
    grown.for_sale.add_tokens(balance);
    if listing.for_sale == grown.for_sale {
        return Err(ContractError::NoChangeDetected);
    }
    proof {
        state.listings.lemma_ids_unique();
    }
    match state.listings.replace(sender, listing_id.as_str(), Some(grown), Some(&listing)) {
        Ok(()) => {},
        Err(e) => {
            return Err(e);
        },
    }
    let res = Response::new().add_attribute("action", "add_funds_to_listing").add_attribute(
        "listing",
        listing_id.as_str(),
    );
    assert(res@.attributes =~= seq![
        attr("action"@, "add_funds_to_listing"@),
        attr("listing"@, listing_id@),
    ]);
    Ok(res)
}

/// Puts a non-fungible token into what the listing `listing_id` of
/// `user_wallet` sells.
///
/// The token must not be there already, and the listing must be in
/// preparation, never finalized and unclaimed.
pub fn execute_add_to_sale_cw721(
    state: &mut State,
    user_wallet: &Addr,
    nft: Nft,
    listing_id: String,
) -> (r: Result<Response, ContractError>)
    requires
        old(state).wf(),
    ensures
        final(state).wf(),
        realizes(
            r,
            old(state)@,
            final(state)@,
            add_to_sale_cw721_outcome(old(state)@, user_wallet@, nft@, listing_id@),
        ),
{
    let old_listing = match state.listings.may_load(user_wallet, listing_id.as_str()) {
        Some(l) => l,
        None => {
            return Err(ContractError::NotFound { typ: Resource::Listing });
        },
    };
    match check_edit(&old_listing, user_wallet, true) {
        Ok(()) => {},
        Err(e) => {
            return Err(e);
        },
    }
    let mut new_listing = old_listing.clone();
    new_listing.for_sale.add_nft(nft);
    if old_listing.for_sale == new_listing.for_sale {
        return Err(ContractError::NoChangeDetected);
    }
    proof {
        state.listings.lemma_ids_unique();
    }
    match state.listings.replace(
        user_wallet,
        listing_id.as_str(),
        Some(new_listing),
        Some(&old_listing),
    ) {
        Ok(()) => {},
        Err(e) => {
            return Err(e);
        },
    }
    Ok(Response::new())
}

/// Stores a new listing of `user` that sells `for_sale`, where the id of
/// the request is free and its ask acceptable.
fn store_listing(
    state: &mut State,
    user: &Addr,
    for_sale: GenericBalance,
    msg: CreateListingMsg,
) -> (r: Result<(), ContractError>)
    requires
        old(state).wf(),
    ensures
        final(state).wf(),
        forall|attributes: Seq<AttributeView>|
            match #[trigger] store_new_listing(old(state)@, user@, for_sale@, msg@, attributes) {
                Ok((post, _)) => r is Ok && final(state)@ == post,
                Err(e) => (r matches Err(x) && x == e) && final(state)@ == old(state)@,
            },
{
    if state.listings.item_by_id(msg.id.as_str()).is_some() {
        return Err(ContractError::IdAlreadyExists);
    }
    let ask = match normalize_ask_error_on_dup(msg.ask) {
        Ok(a) => a,
        Err(e) => {
            return Err(e);
        },
    };
    let listing = Listing {
        creator: user.clone(),
        id: msg.id.clone(),
        finalized_time: None,
        expiration_time: None,
        status: Status::BeingPrepared,
        for_sale,
        ask,
        claimant: None,
        whitelisted_buyer_one: msg.whitelist_buyer_one,
        whitelisted_buyer_two: msg.whitelist_buyer_two,
        whitelisted_buyer_three: msg.whitelist_buyer_three,
    };
    state.listings.save(user, msg.id.as_str(), listing)
}

/// Creates a listing of `user_address` that sells the native coins
/// `funds_sent` for the ask of the request.
///
/// The deposit must carry something, the id must be free and the ask must
/// not name a denomination twice.
pub fn execute_create_listing(
    state: &mut State,
    user_address: &Addr,
    funds_sent: &Balance,
    createlistingmsg: CreateListingMsg,
) -> (r: Result<Response, ContractError>)
    requires
        old(state).wf(),
    ensures
        final(state).wf(),
        realizes(
            r,
            old(state)@,
            final(state)@,
            create_listing_outcome(old(state)@, user_address@, funds_sent@, createlistingmsg@),
        ),
{
    if funds_sent.is_empty() {
        return Err(ContractError::EmptyDeposit);
    }
    let res = Response::new().add_attribute("action", "create_native_listing").add_attribute(
        "listing_id",
        createlistingmsg.id.as_str(),
    );
    assert(res@.attributes =~= seq![
        attr("action"@, "create_native_listing"@),
        attr("listing_id"@, createlistingmsg.id@),
    ]);
    match store_listing(state, user_address, funds_sent.to_generic(), createlistingmsg) {
        Ok(()) => Ok(res),
        Err(e) => Err(e),
    }
}

/// Creates a listing of `user_address` that sells the fungible token
/// `funds_sent`, which the token contract reported.
///
/// The deposit must carry something, the id must be free and the ask must
/// not name a denomination twice.
pub fn execute_create_listing_cw20(
    state: &mut State,
    user_address: &Addr,
    _contract_address: &Addr,
    funds_sent: &Balance,
    createlistingmsg: CreateListingMsg,
) -> (r: Result<Response, ContractError>)
    requires
        old(state).wf(),
    ensures
        final(state).wf(),
        realizes(
            r,
            old(state)@,
            final(state)@,
            create_listing_cw20_outcome(
                old(state)@,
                user_address@,
                funds_sent@,
                createlistingmsg@,
            ),
        ),
{
    if funds_sent.is_empty() {
        return Err(ContractError::EmptyDeposit);
    }
    let res = Response::new().add_attribute("action", "create_cw20_listing").add_attribute(
        "listing_id",
        createlistingmsg.id.as_str(),
    ).add_attribute("creator", user_address.as_str());
    assert(res@.attributes =~= seq![
        attr("action"@, "create_cw20_listing"@),
        attr("listing_id"@, createlistingmsg.id@),
        attr("creator"@, user_address@),
    ]);
    match store_listing(state, user_address, funds_sent.to_generic(), createlistingmsg) {
        Ok(()) => Ok(res),
        Err(e) => Err(e),
    }
}

/// Creates a listing of `user_wallet` that sells the non-fungible token `nft`.
///
/// The id must be free and the ask must not name a denomination twice.
pub fn execute_create_listing_cw721(
    state: &mut State,
    user_wallet: &Addr,
    nft: Nft,
    createlistingmsg: CreateListingMsg,
) -> (r: Result<Response, ContractError>)
    requires
        old(state).wf(),
    ensures
        final(state).wf(),
        realizes(
            r,
            old(state)@,
            final(state)@,
            create_listing_cw721_outcome(old(state)@, user_wallet@, nft@, createlistingmsg@),
        ),
{
    let res = Response::new().add_attribute("action", "create_cw721_listing").add_attribute(
        "listing_id",
        createlistingmsg.id.as_str(),
    ).add_attribute("creator", user_wallet.as_str());
    assert(res@.attributes =~= seq![
        attr("action"@, "create_cw721_listing"@),
        attr("listing_id"@, createlistingmsg.id@),
        attr("creator"@, user_wallet@),
    ]);
    match store_listing(state, user_wallet, genbal_from_nft(nft), createlistingmsg) {
        Ok(()) => Ok(res),
        Err(e) => Err(e),
    }
}

/// Gives the listing `listing_id` of `user_sender` another ask.
///
/// The listing must be in preparation, never finalized and unclaimed, and
/// the ask must not name a denomination twice.
pub fn execute_change_ask(
    state: &mut State,
    user_sender: &Addr,
    listing_id: String,
    new_ask: GenericBalance,
) -> (r: Result<Response, ContractError>)
    requires
        old(state).wf(),
    ensures
        final(state).wf(),
        realizes(
            r,
            old(state)@,
            final(state)@,
            change_ask_outcome(old(state)@, user_sender@, listing_id@, new_ask@),
        ),
{
    let listing = match state.listings.may_load(user_sender, listing_id.as_str()) {
        Some(l) => l,
        None => {
            return Err(ContractError::NotFound { typ: Resource::Listing });
        },
    };
    match check_edit(&listing, user_sender, true) {
        Ok(()) => {},
        Err(e) => {
            return Err(e);
        },
    }
    let new_ask_tokens = match normalize_ask_error_on_dup(new_ask) {
        Ok(a) => a,
        Err(e) => {
            return Err(e);
        },
    };
    let mut changed = listing.clone();
    changed.ask = new_ask_tokens;
    proof {
        state.listings.lemma_ids_unique();
    }
    match state.listings.replace(user_sender, listing_id.as_str(), Some(changed), Some(&listing)) {
        Ok(()) => {},
        Err(e) => {
            return Err(e);
        },
    }
    let res = Response::new().add_attribute("attribute", "change_listing_ask").add_attribute(
        "listing_id",
        listing_id.as_str(),
    );
    assert(res@.attributes =~= seq![
        attr("attribute"@, "change_listing_ask"@),
        attr("listing_id"@, listing_id@),
    ]);
    Ok(res)
}

/// Takes the listing `listing_id` of `user_sender` away and sends what it
/// sold back to its creator.
///
/// The listing must be in preparation and unclaimed.
pub fn execute_remove_listing(state: &mut State, user_sender: &Addr, listing_id: String) -> (r:
    Result<Response, ContractError>)
    requires
        old(state).wf(),
    ensures
        final(state).wf(),
        realizes(
            r,
            old(state)@,
            final(state)@,
            remove_listing_outcome(old(state)@, user_sender@, listing_id@),
        ),
{
    let listing = match state.listings.may_load(user_sender, listing_id.as_str()) {
        Some(l) => l,
        None => {
            return Err(ContractError::NotFound { typ: Resource::Listing });
        },
    };
    match check_edit(&listing, user_sender, false) {
        Ok(()) => {},
        Err(e) => {
            return Err(e);
        },
    }
    let msgs = match send_tokens_cosmos(&listing.creator, &listing.for_sale) {
        Ok(m) => m,
        Err(e) => {
            return Err(e);
        },
    };
    state.listings.remove(user_sender, listing_id.as_str());
    let res = Response::new().add_attribute("action", "remove_listing").add_messages(msgs);
    assert(res@.attributes =~= seq![attr("action"@, "remove_listing"@)]);
    Ok(res)
}

/// Takes the expired listing `listing_id` of `user_sender` away and sends
/// what it sold back to its creator.
///
/// The listing must be finalized and unclaimed, and its expiration time
/// must not lie after `now`.
pub fn execute_refund(state: &mut State, now: Timestamp, user_sender: &Addr, listing_id: String) -> (r:
    Result<Response, ContractError>)
    requires
        old(state).wf(),
    ensures
        final(state).wf(),
        realizes(
            r,
            old(state)@,
            final(state)@,
            refund_outcome(old(state)@, now, user_sender@, listing_id@),
        ),
{
    let listing = match state.listings.may_load(user_sender, listing_id.as_str()) {
        Some(l) => l,
        None => {
            return Err(ContractError::NotFound { typ: Resource::Listing });
        },
    };
    if !user_sender.same(&listing.creator) {
        return Err(ContractError::Unauthorized);
    }
    if listing.claimant.is_some() {
        return Err(ContractError::Unauthorized);
    }
    if listing.status == Status::BeingPrepared {
        return Err(ContractError::Unauthorized);
    }
    match listing.expiration_time {
        None => {
            return Err(ContractError::MissingExpiration);
        },
        Some(timestamp) => {
            if now.nanos < timestamp.nanos {
                return Err(ContractError::NotYetExpired);
            }
        },
    }
    let send_msgs = match send_tokens_cosmos(&listing.creator, &listing.for_sale) {
        Ok(m) => m,
        Err(e) => {
            return Err(e);
        },
    };
    state.listings.remove(user_sender, listing_id.as_str());
    let res = Response::new().add_attribute("action", "refund").add_messages(send_msgs);
    assert(res@.attributes =~= seq![attr("action"@, "refund"@)]);
    Ok(res)
}

/// Hands the closed listing `listing_id` to its claimant `withdrawer`: the
/// listing is taken away, the protocol fee is sent to the community pool
/// where one is due, and the rest of what the listing sold to the claimant.
pub fn execute_withdraw_purchased(state: &mut State, withdrawer: &Addr, listing_id: String) -> (r:
    Result<Response, ContractError>)
    requires
        old(state).wf(),
    ensures
        final(state).wf(),
        realizes(
            r,
            old(state)@,
            final(state)@,
            withdraw_purchased_outcome(old(state)@, withdrawer@, listing_id@),
        ),
{
    let (holder, the_listing) = match state.listings.item_by_id(listing_id.as_str()) {
        Some(found) => found,
        None => {
            return Err(ContractError::NotFound { typ: Resource::Listing });
        },
    };
    proof {
        state.listings.lemma_ids_unique();
        lemma_holder_is_key(state@.listings, holder@, listing_id@);
    }
    match &the_listing.claimant {
        None => {
            return Err(ContractError::Unauthorized);
        },
        Some(listing_claimr) => {
            if !withdrawer.same(listing_claimr) {
                return Err(ContractError::Unauthorized);
            }
        },
    }
    if the_listing.status != Status::Closed {
        return Err(ContractError::Unauthorized);
    }
    let msgs = match calc_fee(&the_listing.for_sale) {
        Some((fee_msg, gbal)) => {
            let user_msgs = match send_tokens_cosmos(withdrawer, &gbal) {
                Ok(m) => m,
                Err(e) => {
                    return Err(e);
                },
            };
            let mut all: Vec<CosmosMsg> = Vec::new();
            let ghost fee_view = fee_msg@;
            all.push(fee_msg);
            let mut tail = user_msgs;
            let ghost tail_view = views(tail@);
            all.append(&mut tail);
            assert(views(all@) =~= seq![fee_view] + tail_view);
            all
        },
        None => match send_tokens_cosmos(withdrawer, &the_listing.for_sale) {
            Ok(m) => m,
            Err(e) => {
                return Err(e);
            },
        },
    };
    assert(settlement_msgs(withdrawer@, the_listing@.for_sale) == Some(views(msgs@)));
    state.listings.remove(&holder, listing_id.as_str());
    let res = Response::new().add_attribute("action", "withdraw_purchased").add_attribute(
        "listing_id",
        listing_id.as_str(),
    ).add_messages(msgs);
    assert(res@.attributes =~= seq![
        attr("action"@, "withdraw_purchased"@),
        attr("listing_id"@, listing_id@),
    ]);
    Ok(res)
}

/// Creates the bucket `bucket_id` of `creator` from a deposit.
///
/// The deposit must carry something, and `creator` must not have a bucket
/// of that id.
pub fn execute_create_bucket(
    state: &mut State,
    funds: &Balance,
    creator: &Addr,
    bucket_id: &String,
) -> (r: Result<Response, ContractError>)
    requires
        old(state).wf(),
    ensures
        final(state).wf(),
        realizes(
            r,
            old(state)@,
            final(state)@,
            create_bucket_outcome(old(state)@, funds@, creator@, bucket_id@),
        ),
{
    if funds.is_empty() {
        return Err(ContractError::EmptyDeposit);
    }
    let key = RecordKey::new(creator, bucket_id.as_str());
    if state.buckets.has(&key) {
        return Err(ContractError::IdAlreadyExists);
    }
    state.buckets.set(key, Bucket { funds: funds.to_generic(), owner: creator.clone() });
    let res = Response::new().add_attribute("action", "create_bucket").add_attribute(
        "bucket_id",
        bucket_id.as_str(),
    );
    assert(res@.attributes =~= seq![
        attr("action"@, "create_bucket"@),
        attr("bucket_id"@, bucket_id@),
    ]);
    Ok(res)
}

/// Creates the bucket `bucket_id` of `user_wallet` from a non-fungible token.
///
/// `user_wallet` must not have a bucket of that id.
pub fn execute_create_bucket_cw721(
    state: &mut State,
    user_wallet: &Addr,
    nft: Nft,
    bucket_id: &str,
) -> (r: Result<Response, ContractError>)
    requires
        old(state).wf(),
    ensures
        final(state).wf(),
        realizes(
            r,
            old(state)@,
            final(state)@,
            create_bucket_cw721_outcome(old(state)@, user_wallet@, nft@, bucket_id@),
        ),
{
    let key = RecordKey::new(user_wallet, bucket_id);
    if state.buckets.has(&key) {
        return Err(ContractError::IdAlreadyExists);
    }
    state.buckets.set(key, Bucket { funds: genbal_from_nft(nft), owner: user_wallet.clone() });
    Ok(Response::new())
}

/// Merges a deposit into the bucket `bucket_id` of `sender`.
///
/// The deposit must carry something and change the bucket's funds.
pub fn execute_add_to_bucket(
    state: &mut State,
    funds: Balance,
    sender: &Addr,
    bucket_id: String,
) -> (r: Result<Response, ContractError>)
    requires
        old(state).wf(),
        old(state)@.buckets.contains_key((sender@, bucket_id@)) ==> merge_fits(
            old(state)@.buckets[(sender@, bucket_id@)].funds,
            funds@,
        ),
    ensures
        final(state).wf(),
        realizes(
            r,
            old(state)@,
            final(state)@,
            add_to_bucket_outcome(old(state)@, funds@, sender@, bucket_id@),
        ),
{
    if funds.is_empty() {
        return Err(ContractError::EmptyDeposit);
    }
    let key = RecordKey::new(sender, bucket_id.as_str());
    let the_bucket = match state.buckets.get(&key) {
        Some(b) => b.clone(),
        None => {
            return Err(ContractError::NotFound { typ: Resource::Bucket });
        },
    };
    if !sender.same(&the_bucket.owner) {
        return Err(ContractError::Unauthorized);
    }
    let mut new_bucket = the_bucket.clone();
    new_bucket.funds.add_tokens(funds);
    if the_bucket.funds == new_bucket.funds {
        return Err(ContractError::NoChangeDetected);
    }
    state.buckets.set(key, new_bucket);
    let res = Response::new().add_attribute("action", "add_funds_to_bucket").add_attribute(
        "bucket_id",
        bucket_id.as_str(),
    );
    assert(res@.attributes =~= seq![
        attr("action"@, "add_funds_to_bucket"@),
        attr("bucket_id"@, bucket_id@),
    ]);
    Ok(res)
}

/// Puts a non-fungible token into the bucket `bucket_id` of `user_wallet`.
///
/// The token must not be there already.
pub fn execute_add_to_bucket_cw721(
    state: &mut State,
    user_wallet: &Addr,
    nft: Nft,
    bucket_id: String,
) -> (r: Result<Response, ContractError>)
    requires
        old(state).wf(),
    ensures
        final(state).wf(),
        realizes(
            r,
            old(state)@,
            final(state)@,
            add_to_bucket_cw721_outcome(old(state)@, user_wallet@, nft@, bucket_id@),
        ),
{
    let key = RecordKey::new(user_wallet, bucket_id.as_str());
    let the_bucket = match state.buckets.get(&key) {
        Some(b) => b.clone(),
        None => {
            return Err(ContractError::NotFound { typ: Resource::Bucket });
        },
    };
    if !user_wallet.same(&the_bucket.owner) {
        return Err(ContractError::Unauthorized);
    }
    let mut new_bucket = the_bucket.clone();
    new_bucket.funds.add_nft(nft);
    if the_bucket.funds == new_bucket.funds {
        return Err(ContractError::NoChangeDetected);
    }
    state.buckets.set(key, new_bucket);
    let res = Response::new().add_attribute(
        "action",
        "execute_add_to_bucket_cw721",
    ).add_attribute("bucket_id", bucket_id.as_str());
    assert(res@.attributes =~= seq![
        attr("action"@, "execute_add_to_bucket_cw721"@),
        attr("bucket_id"@, bucket_id@),
    ]);
    Ok(res)
}

/// Takes the bucket `bucket_id` of `user` away and sends its funds to `user`.
pub fn execute_withdraw_bucket(state: &mut State, user: &Addr, bucket_id: &str) -> (r: Result<
    Response,
    ContractError,
>)
    requires
        old(state).wf(),
    ensures
        final(state).wf(),
        realizes(
            r,
            old(state)@,
            final(state)@,
            withdraw_bucket_outcome(old(state)@, user@, bucket_id@),
        ),
{
    let key = RecordKey::new(user, bucket_id);
    let the_bucket = match state.buckets.get(&key) {
        Some(b) => b.clone(),
        None => {
            return Err(ContractError::NotFound { typ: Resource::Bucket });
        },
    };
    if !the_bucket.owner.same(user) {
        return Err(ContractError::Unauthorized);
    }
    let msgs = match send_tokens_cosmos(user, &the_bucket.funds) {
        Ok(m) => m,
        Err(e) => {
            return Err(e);
        },
    };
    let gone = state.buckets.remove(&key);
    let res = Response::new().add_attribute("action", "empty_bucket").add_attribute(
        "bucket_id",
        bucket_id,
    ).add_messages(msgs);
    assert(res@.attributes =~= seq![
        attr("action"@, "empty_bucket"@),
        attr("bucket_id"@, bucket_id@),
    ]);
    Ok(res)
}

} // verus!
