use crate::balance::{
    as_ledger, empty_ledger, is_empty_deposit, merged, with_nft, BalanceView, GenericBalanceView,
};
use crate::balance_eq::same_holdings;
use crate::coin::NftView;
use crate::encoding::timestamp_text;
use crate::error::{ContractError, Resource};
use crate::msg::CreateListingMsgView;
use crate::response::{attr, AttributeView, CosmosMsgView, Response, ResponseView};
use crate::state::{
    id_taken, BucketView, KeyView, ListingView, StateView, Status, Timestamp, NANOS_PER_SECOND,
};
use crate::utils::{fee_outcome, normalized_ask, transfer_msgs, whitelisted};
use vstd::prelude::*;

verus! {

/// What an operation does to a marketplace: the marketplace after it and
/// the response, or the refusal, which leaves the marketplace as it was.
pub type Outcome = Result<(StateView, ResponseView), ContractError>;

/// Whether the result `r` and the marketplace `post` are what the outcome
/// `o` prescribes for an operation on the marketplace `pre`.
pub open spec fn realizes(
    r: Result<Response, ContractError>,
    pre: StateView,
    post: StateView,
    o: Outcome,
) -> bool {
    match o {
        Ok((s, resp)) => post == s && (r matches Ok(x) && x@ == resp),
        Err(e) => post == pre && (r matches Err(x) && x == e),
    }
}

/// The outcome of an operation that is refused with `e`.
pub open spec fn refused(e: ContractError) -> Outcome {
    Err(e)
}

/// The outcome of an operation that leaves the marketplace `post` and
/// answers `response`.
pub open spec fn done(post: StateView, response: ResponseView) -> Outcome {
    Ok((post, response))
}

/// The shortest finalize duration, in seconds: ten minutes.
pub const MIN_EXPIRATION_SECONDS: u64 = 600;

/// The longest finalize duration, in seconds: fourteen days.
pub const MAX_EXPIRATION_SECONDS: u64 = 1_209_600;

/// Whether a finalize duration is accepted.
pub open spec fn valid_window(seconds: u64) -> bool {
    MIN_EXPIRATION_SECONDS <= seconds <= MAX_EXPIRATION_SECONDS
}

/// The time `seconds` after `now`.
pub open spec fn expiration(now: Timestamp, seconds: u64) -> Timestamp {
    Timestamp { nanos: (now.nanos + seconds * NANOS_PER_SECOND) as u64 }
}

/// The response with the attributes `attributes` and the instructions `messages`.
pub open spec fn reply(attributes: Seq<AttributeView>, messages: Seq<CosmosMsgView>) -> ResponseView {
    ResponseView { messages, attributes }
}

/// The holder of the listing `id`, where there is one.
pub open spec fn holder_of(m: Map<KeyView, ListingView>, id: Seq<char>) -> Seq<char> {
    choose|owner: Seq<char>| #[trigger] m.contains_key((owner, id))
}

/// The listing that a request creates.
pub open spec fn new_listing(
    creator: Seq<char>,
    for_sale: GenericBalanceView,
    ask: GenericBalanceView,
    msg: CreateListingMsgView,
) -> ListingView {
    ListingView {
        creator,
        id: msg.id,
        finalized_time: None,
        expiration_time: None,
        status: Status::BeingPrepared,
        for_sale,
        ask,
        claimant: None,
        whitelisted_buyer_one: msg.whitelist_buyer_one,
        whitelisted_buyer_two: msg.whitelist_buyer_two,
        whitelisted_buyer_three: msg.whitelist_buyer_three,
    }
}

/// Why `sender` may not change the listing `l`, if it may not: it is not
/// the listing's creator, or the listing is no longer being prepared, or has
/// a claimant. `sealed` says whether a finalize time counts as well.
pub open spec fn edit_refusal(l: ListingView, sender: Seq<char>, sealed: bool) -> Option<
    ContractError,
> {
    if sender != l.creator {
        Some(ContractError::Unauthorized)
    } else if sealed && l.finalized_time is Some {
        Some(ContractError::AlreadyFinalized)
    } else if l.status != Status::BeingPrepared {
        Some(ContractError::AlreadyFinalized)
    } else if l.claimant is Some {
        Some(ContractError::Unauthorized)
    } else {
        None
    }
}

/// `CreateBucket`: a deposit becomes a new bucket of `creator`.
pub open spec fn create_bucket_outcome(
    s: StateView,
    funds: BalanceView,
    creator: Seq<char>,
    bucket_id: Seq<char>,
) -> Outcome {
    if is_empty_deposit(funds) {
        Err(ContractError::EmptyDeposit)
    } else if s.buckets.contains_key((creator, bucket_id)) {
        Err(ContractError::IdAlreadyExists)
    } else {
        Ok(
            (
                StateView {
                    buckets: s.buckets.insert(
                        (creator, bucket_id),
                        BucketView { funds: as_ledger(funds), owner: creator },
                    ),
                    ..s
                },
                reply(
                    seq![attr("action"@, "create_bucket"@), attr("bucket_id"@, bucket_id)],
                    Seq::empty(),
                ),
            ),
        )
    }
}

/// `CreateBucket` with a non-fungible token as the deposit.
pub open spec fn create_bucket_cw721_outcome(
    s: StateView,
    user: Seq<char>,
    nft: NftView,
    bucket_id: Seq<char>,
) -> Outcome {
    if s.buckets.contains_key((user, bucket_id)) {
        Err(ContractError::IdAlreadyExists)
    } else {
        Ok(
            (
                StateView {
                    buckets: s.buckets.insert(
                        (user, bucket_id),
                        BucketView { funds: with_nft(empty_ledger(), nft), owner: user },
                    ),
                    ..s
                },
                reply(Seq::empty(), Seq::empty()),
            ),
        )
    }
}

/// `AddToBucket`: a deposit is merged into a bucket of `sender`.
pub open spec fn add_to_bucket_outcome(
    s: StateView,
    funds: BalanceView,
    sender: Seq<char>,
    bucket_id: Seq<char>,
) -> Outcome {
    let key = (sender, bucket_id);
    if is_empty_deposit(funds) {
        Err(ContractError::EmptyDeposit)
    } else if !s.buckets.contains_key(key) {
        Err(ContractError::NotFound { typ: Resource::Bucket })
    } else if sender != s.buckets[key].owner {
        Err(ContractError::Unauthorized)
    } else if same_holdings(s.buckets[key].funds, merged(s.buckets[key].funds, funds)) {
        Err(ContractError::NoChangeDetected)
    } else {
        Ok(
            (
                StateView {
                    buckets: s.buckets.insert(
                        key,
                        BucketView { funds: merged(s.buckets[key].funds, funds), ..s.buckets[key] },
                    ),
                    ..s
                },
                reply(
                    seq![attr("action"@, "add_funds_to_bucket"@), attr("bucket_id"@, bucket_id)],
                    Seq::empty(),
                ),
            ),
        )
    }
}

/// `AddToBucket` with a non-fungible token as the deposit.
pub open spec fn add_to_bucket_cw721_outcome(
    s: StateView,
    user: Seq<char>,
    nft: NftView,
    bucket_id: Seq<char>,
) -> Outcome {
    let key = (user, bucket_id);
    if !s.buckets.contains_key(key) {
        Err(ContractError::NotFound { typ: Resource::Bucket })
    } else if user != s.buckets[key].owner {
        Err(ContractError::Unauthorized)
    } else if same_holdings(s.buckets[key].funds, with_nft(s.buckets[key].funds, nft)) {
        Err(ContractError::NoChangeDetected)
    } else {
        Ok(
            (
                StateView {
                    buckets: s.buckets.insert(
                        key,
                        BucketView { funds: with_nft(s.buckets[key].funds, nft), ..s.buckets[key] },
                    ),
                    ..s
                },
                reply(
                    seq![
                        attr("action"@, "execute_add_to_bucket_cw721"@),
                        attr("bucket_id"@, bucket_id),
                    ],
                    Seq::empty(),
                ),
            ),
        )
    }
}

/// `WithdrawBucket`: a bucket of `user` is taken away and its funds sent to `user`.
pub open spec fn withdraw_bucket_outcome(s: StateView, user: Seq<char>, bucket_id: Seq<char>) -> Outcome {
    let key = (user, bucket_id);
    if !s.buckets.contains_key(key) {
        Err(ContractError::NotFound { typ: Resource::Bucket })
    } else if s.buckets[key].owner != user {
        Err(ContractError::Unauthorized)
    } else {
        match transfer_msgs(user, s.buckets[key].funds) {
            None => Err(ContractError::Std),
            Some(msgs) => Ok(
                (
                    StateView { buckets: s.buckets.remove(key), ..s },
                    reply(
                        seq![attr("action"@, "empty_bucket"@), attr("bucket_id"@, bucket_id)],
                        msgs,
                    ),
                ),
            ),
        }
    }
}

/// What is common to the three ways of creating a listing, once the
/// deposit is known to carry something: the id must be free and the ask
/// acceptable; then the listing is stored under its creator's key.
pub open spec fn store_new_listing(
    s: StateView,
    user: Seq<char>,
    for_sale: GenericBalanceView,
    msg: CreateListingMsgView,
    attributes: Seq<AttributeView>,
) -> Outcome {
    if id_taken(s.listings, msg.id) {
        Err(ContractError::IdAlreadyExists)
    } else {
        match normalized_ask(msg.ask) {
            Err(e) => Err(e),
            Ok(ask) => Ok(
                (
                    StateView {
                        listings: s.listings.insert(
                            (user, msg.id),
                            new_listing(user, for_sale, ask, msg),
                        ),
                        ..s
                    },
                    reply(attributes, Seq::empty()),
                ),
            ),
        }
    }
}

/// `CreateListing` with native coins as the deposit.
pub open spec fn create_listing_outcome(
    s: StateView,
    user: Seq<char>,
    funds: BalanceView,
    msg: CreateListingMsgView,
) -> Outcome {
    if is_empty_deposit(funds) {
        Err(ContractError::EmptyDeposit)
    } else {
        store_new_listing(
            s,
            user,
            as_ledger(funds),
            msg,
            seq![attr("action"@, "create_native_listing"@), attr("listing_id"@, msg.id)],
        )
    }
}

/// `CreateListing` with a fungible token as the deposit.
pub open spec fn create_listing_cw20_outcome(
    s: StateView,
    user: Seq<char>,
    funds: BalanceView,
    msg: CreateListingMsgView,
) -> Outcome {
    if is_empty_deposit(funds) {
        Err(ContractError::EmptyDeposit)
    } else {
        store_new_listing(
            s,
            user,
            as_ledger(funds),
            msg,
            seq![
                attr("action"@, "create_cw20_listing"@),
                attr("listing_id"@, msg.id),
                attr("creator"@, user),
            ],
        )
    }
}

/// `CreateListing` with a non-fungible token as the deposit.
pub open spec fn create_listing_cw721_outcome(
    s: StateView,
    user: Seq<char>,
    nft: NftView,
    msg: CreateListingMsgView,
) -> Outcome {
    store_new_listing(
        s,
        user,
        with_nft(empty_ledger(), nft),
        msg,
        seq![
            attr("action"@, "create_cw721_listing"@),
            attr("listing_id"@, msg.id),
            attr("creator"@, user),
        ],
    )
}

/// `ChangeAsk`: the creator gives a listing in preparation another ask.
pub open spec fn change_ask_outcome(
    s: StateView,
    sender: Seq<char>,
    listing_id: Seq<char>,
    new_ask: GenericBalanceView,
) -> Outcome {
    let key = (sender, listing_id);
    if !s.listings.contains_key(key) {
        Err(ContractError::NotFound { typ: Resource::Listing })
    } else {
        match edit_refusal(s.listings[key], sender, true) {
            Some(e) => Err(e),
            None => match normalized_ask(new_ask) {
                Err(e) => Err(e),
                Ok(ask) => Ok(
                    (
                        StateView {
                            listings: s.listings.insert(
                                key,
                                ListingView { ask, ..s.listings[key] },
                            ),
                            ..s
                        },
                        reply(
                            seq![
                                attr("attribute"@, "change_listing_ask"@),
                                attr("listing_id"@, listing_id),
                            ],
                            Seq::empty(),
                        ),
                    ),
                ),
            },
        }
    }
}

/// `AddFunds`: a deposit is merged into what a listing in preparation,
/// never finalized, sells.
pub open spec fn add_funds_to_sale_outcome(
    s: StateView,
    balance: BalanceView,
    sender: Seq<char>,
    listing_id: Seq<char>,
) -> Outcome {
    let key = (sender, listing_id);
    if is_empty_deposit(balance) {
        Err(ContractError::EmptyDeposit)
    } else if !s.listings.contains_key(key) {
        Err(ContractError::NotFound { typ: Resource::Listing })
    } else {
        match edit_refusal(s.listings[key], sender, true) {
            Some(e) => Err(e),
            None => if same_holdings(
                s.listings[key].for_sale,
                merged(s.listings[key].for_sale, balance),
            ) {
                Err(ContractError::NoChangeDetected)
            } else {
                Ok(
                    (
                        StateView {
                            listings: s.listings.insert(
                                key,
                                ListingView {
                                    for_sale: merged(s.listings[key].for_sale, balance),
                                    ..s.listings[key]
                                },
                            ),
                            ..s
                        },
                        reply(
                            seq![
                                attr("action"@, "add_funds_to_listing"@),
                                attr("listing"@, listing_id),
                            ],
                            Seq::empty(),
                        ),
                    ),
                )
            },
        }
    }
}

/// `AddFunds` with a non-fungible token as the deposit.
pub open spec fn add_to_sale_cw721_outcome(
    s: StateView,
    user: Seq<char>,
    nft: NftView,
    listing_id: Seq<char>,
) -> Outcome {
    let key = (user, listing_id);
    if !s.listings.contains_key(key) {
        Err(ContractError::NotFound { typ: Resource::Listing })
    } else {
        match edit_refusal(s.listings[key], user, true) {
            Some(e) => Err(e),
            None => if same_holdings(
                s.listings[key].for_sale,
                with_nft(s.listings[key].for_sale, nft),
            ) {
                Err(ContractError::NoChangeDetected)
            } else {
                Ok(
                    (
                        StateView {
                            listings: s.listings.insert(
                                key,
                                ListingView {
                                    for_sale: with_nft(s.listings[key].for_sale, nft),
                                    ..s.listings[key]
                                },
                            ),
                            ..s
                        },
                        reply(Seq::empty(), Seq::empty()),
                    ),
                )
            },
        }
    }
}

/// `RemoveListing`: the creator takes back a listing in preparation.
pub open spec fn remove_listing_outcome(
    s: StateView,
    sender: Seq<char>,
    listing_id: Seq<char>,
) -> Outcome {
    let key = (sender, listing_id);
    if !s.listings.contains_key(key) {
        Err(ContractError::NotFound { typ: Resource::Listing })
    } else {
        match edit_refusal(s.listings[key], sender, false) {
            Some(e) => Err(e),
            None => match transfer_msgs(s.listings[key].creator, s.listings[key].for_sale) {
                None => Err(ContractError::Std),
                Some(msgs) => Ok(
                    (
                        StateView { listings: s.listings.remove(key), ..s },
                        reply(seq![attr("action"@, "remove_listing"@)], msgs),
                    ),
                ),
            },
        }
    }
}

/// `Finalize`: the creator seals a listing and opens it to purchase for
/// `seconds` seconds from `now`.
pub open spec fn finalize_outcome(
    s: StateView,
    now: Timestamp,
    sender: Seq<char>,
    listing_id: Seq<char>,
    seconds: u64,
) -> Outcome {
    let key = (sender, listing_id);
    if !s.listings.contains_key(key) {
        Err(ContractError::NotFound { typ: Resource::Listing })
    } else {
        match edit_refusal(s.listings[key], sender, true) {
            Some(e) => Err(e),
            None => if !valid_window(seconds) {
                Err(ContractError::InvalidExpirationWindow)
            } else {
                Ok(
                    (
                        StateView {
                            listings: s.listings.insert(
                                key,
                                ListingView {
                                    finalized_time: Some(now),
                                    expiration_time: Some(expiration(now, seconds)),
                                    status: Status::FinalizedReady,
                                    ..s.listings[key]
                                },
                            ),
                            ..s
                        },
                        reply(
                            seq![
                                attr("action"@, "finalize"@),
                                attr("listing_id"@, listing_id),
                                attr(
                                    "expiration_seconds"@,
                                    timestamp_text(expiration(now, seconds).nanos),
                                ),
                            ],
                            Seq::empty(),
                        ),
                    ),
                )
            },
        }
    }
}

/// `RefundExpired`: the creator takes back a listing that expired unsold.
pub open spec fn refund_outcome(
    s: StateView,
    now: Timestamp,
    sender: Seq<char>,
    listing_id: Seq<char>,
) -> Outcome {
    let key = (sender, listing_id);
    if !s.listings.contains_key(key) {
        Err(ContractError::NotFound { typ: Resource::Listing })
    } else {
        let l = s.listings[key];
        if sender != l.creator {
            Err(ContractError::Unauthorized)
        } else if l.claimant is Some {
            Err(ContractError::Unauthorized)
        } else if l.status == Status::BeingPrepared {
            Err(ContractError::Unauthorized)
        } else if l.expiration_time is None {
            Err(ContractError::MissingExpiration)
        } else if now.nanos < l.expiration_time->0.nanos {
            Err(ContractError::NotYetExpired)
        } else {
            match transfer_msgs(l.creator, l.for_sale) {
                None => Err(ContractError::Std),
                Some(msgs) => Ok(
                    (
                        StateView { listings: s.listings.remove(key), ..s },
                        reply(seq![attr("action"@, "refund"@)], msgs),
                    ),
                ),
            }
        }
    }
}

/// Why the bucket `b` of `buyer` does not buy the listing `l` at the time
/// `now`, if it does not.
pub open spec fn purchase_refusal(
    l: ListingView,
    b: BucketView,
    now: Timestamp,
    buyer: Seq<char>,
) -> Option<ContractError> {
    if buyer != b.owner {
        Some(ContractError::Unauthorized)
    } else if !same_holdings(b.funds, l.ask) {
        Some(ContractError::FundsMismatch)
    } else if l.status != Status::FinalizedReady {
        Some(ContractError::NotPurchasable)
    } else if !whitelisted(buyer, l) {
        Some(ContractError::NotWhitelisted)
    } else if l.claimant is Some {
        Some(ContractError::AlreadyClaimed)
    } else if l.expiration_time is Some && now.nanos > l.expiration_time->0.nanos {
        Some(ContractError::Expired)
    } else {
        None
    }
}

/// `BuyListing`: the buyer's bucket is swapped for the listing. The listing
/// passes to the buyer's key, closed and claimed by the buyer; the bucket
/// passes to the key of the listing's holder, who becomes its owner.
pub open spec fn buy_listing_outcome(
    s: StateView,
    now: Timestamp,
    buyer: Seq<char>,
    listing_id: Seq<char>,
    bucket_id: Seq<char>,
) -> Outcome {
    let bucket_key = (buyer, bucket_id);
    if !s.buckets.contains_key(bucket_key) {
        Err(ContractError::LoadBucketError)
    } else if !id_taken(s.listings, listing_id) {
        Err(ContractError::NotFound { typ: Resource::Listing })
    } else {
        let seller = holder_of(s.listings, listing_id);
        let l = s.listings[(seller, listing_id)];
        let b = s.buckets[bucket_key];
        match purchase_refusal(l, b, now, buyer) {
            Some(e) => Err(e),
            None => Ok(
                (
                    StateView {
                        listings: s.listings.remove((seller, listing_id)).insert(
                            (buyer, listing_id),
                            ListingView {
                                creator: buyer,
                                claimant: Some(buyer),
                                status: Status::Closed,
                                ..l
                            },
                        ),
                        buckets: s.buckets.remove(bucket_key).insert(
                            (seller, bucket_id),
                            BucketView { owner: seller, ..b },
                        ),
                    },
                    reply(
                        seq![
                            attr("action"@, "buy_listing"@),
                            attr("bucket_used"@, bucket_id),
                            attr("listing_purchased:"@, listing_id),
                        ],
                        Seq::empty(),
                    ),
                ),
            ),
        }
    }
}

/// The instructions that settle the balance `b` with `claimant`: the fee
/// transfer, where a fee is taken, and then the transfer of what is left.
pub open spec fn settlement_msgs(claimant: Seq<char>, b: GenericBalanceView) -> Option<
    Seq<CosmosMsgView>,
> {
    match fee_outcome(b) {
        Some((fee_msg, rest)) => match transfer_msgs(claimant, rest) {
            Some(msgs) => Some(seq![fee_msg] + msgs),
            None => None,
        },
        None => transfer_msgs(claimant, b),
    }
}

/// `WithdrawPurchased`: the claimant takes what a closed listing sold.
pub open spec fn withdraw_purchased_outcome(
    s: StateView,
    withdrawer: Seq<char>,
    listing_id: Seq<char>,
) -> Outcome {
    if !id_taken(s.listings, listing_id) {
        Err(ContractError::NotFound { typ: Resource::Listing })
    } else {
        let holder = holder_of(s.listings, listing_id);
        let l = s.listings[(holder, listing_id)];
        if l.claimant != Some(withdrawer) {
            Err(ContractError::Unauthorized)
        } else if l.status != Status::Closed {
            Err(ContractError::Unauthorized)
        } else {
            match settlement_msgs(withdrawer, l.for_sale) {
                None => Err(ContractError::Std),
                Some(msgs) => Ok(
                    (
                        StateView { listings: s.listings.remove((holder, listing_id)), ..s },
                        reply(
                            seq![
                                attr("action"@, "withdraw_purchased"@),
                                attr("listing_id"@, listing_id),
                            ],
                            msgs,
                        ),
                    ),
                ),
            }
        }
    }
}

} // verus!
