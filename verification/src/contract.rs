use crate::addr::Addr;
use crate::balance::{merge_fits, unique_keys, Balance, BalanceView};
use crate::coin::{copy_entries, views, Coin, Cw20CoinVerified, Holding, Nft, NftView};
use crate::error::ContractError;
use crate::execute::{
    execute_add_funds_to_sale, execute_add_to_bucket, execute_add_to_bucket_cw721,
    execute_add_to_sale_cw721, execute_buy_listing, execute_change_ask, execute_create_bucket,
    execute_create_bucket_cw721, execute_create_listing, execute_create_listing_cw20,
    execute_create_listing_cw721, execute_finalize, execute_refund, execute_remove_listing,
    execute_withdraw_bucket, execute_withdraw_purchased,
};
use crate::invariants::{
    in_order, ledgers_in_order, theorem_execute_keeps_ledgers, theorem_execute_keeps_order,
};
use crate::model::{
    add_funds_to_sale_outcome, add_to_bucket_cw721_outcome, add_to_bucket_outcome,
    add_to_sale_cw721_outcome, buy_listing_outcome, change_ask_outcome,
    create_bucket_cw721_outcome, create_bucket_outcome, create_listing_cw20_outcome,
    create_listing_cw721_outcome, create_listing_outcome, finalize_outcome, realizes,
    refund_outcome, remove_listing_outcome, valid_window, withdraw_bucket_outcome,
    withdraw_purchased_outcome, Outcome, MAX_EXPIRATION_SECONDS, MIN_EXPIRATION_SECONDS,
};
use crate::msg::{
    Cw20ReceiveMsg, Cw20ReceiveMsgView, Cw721ReceiveMsg, Cw721ReceiveMsgView, ExecuteMsg,
    ExecuteMsgView, ReceiveMsg, ReceiveMsgView, ReceiveNftMsg, ReceiveNftMsgView,
};
use crate::response::Response;
use crate::state::{State, StateView, Timestamp, NANOS_PER_SECOND};
use crate::storage::RecordKey;
use vstd::prelude::*;

verus! {

/// Who sent a request, and the native coins that came with it.
#[derive(Debug, PartialEq, Eq)]
pub struct MessageInfo {
    pub sender: Addr,
    pub funds: Vec<Coin>,
}

pub struct MessageInfoView {
    pub sender: Seq<char>,
    pub funds: Seq<Holding>,
}

impl View for MessageInfo {
    type V = MessageInfoView;

    open spec fn view(&self) -> MessageInfoView {
        MessageInfoView { sender: self.sender@, funds: views(self.funds@) }
    }
}

/// The deposit that a token contract reports with a `Receive`.
pub open spec fn reported_deposit(token: Seq<char>, w: Cw20ReceiveMsgView) -> BalanceView {
    BalanceView::Cw20(Holding { key: token, amount: w.amount })
}

/// The token that a token contract reports with a `ReceiveNft`.
pub open spec fn reported_token(token: Seq<char>, w: Cw721ReceiveMsgView) -> NftView {
    NftView { contract_address: token, token_id: w.token_id }
}

/// What a deposit of a fungible token does: the operation that the
/// depositor asks for, with the depositor as its caller and the reported
/// amount of the token contract's token as its deposit.
pub open spec fn receive_outcome(s: StateView, token: Seq<char>, w: Cw20ReceiveMsgView) -> Outcome {
    let deposit = reported_deposit(token, w);
    match w.msg {
        ReceiveMsgView::CreateListingCw20 { create_msg } => create_listing_cw20_outcome(
            s,
            w.sender,
            deposit,
            create_msg,
        ),
        ReceiveMsgView::AddFundsToSaleCw20 { listing_id } => add_funds_to_sale_outcome(
            s,
            deposit,
            w.sender,
            listing_id,
        ),
        ReceiveMsgView::CreateBucketCw20 { bucket_id } => create_bucket_outcome(
            s,
            deposit,
            w.sender,
            bucket_id,
        ),
        ReceiveMsgView::AddToBucketCw20 { bucket_id } => add_to_bucket_outcome(
            s,
            deposit,
            w.sender,
            bucket_id,
        ),
    }
}

/// What a deposit of a non-fungible token does: the operation that the
/// depositor asks for, with the depositor as its caller and the reported
/// token as its deposit.
pub open spec fn receive_nft_outcome(
    s: StateView,
    token: Seq<char>,
    w: Cw721ReceiveMsgView,
) -> Outcome {
    let nft = reported_token(token, w);
    match w.msg {
        ReceiveNftMsgView::CreateListingCw721 { create_msg } => create_listing_cw721_outcome(
            s,
            w.sender,
            nft,
            create_msg,
        ),
        ReceiveNftMsgView::AddToListingCw721 { listing_id } => add_to_sale_cw721_outcome(
            s,
            w.sender,
            nft,
            listing_id,
        ),
        ReceiveNftMsgView::CreateBucketCw721 { bucket_id } => create_bucket_cw721_outcome(
            s,
            w.sender,
            nft,
            bucket_id,
        ),
        ReceiveNftMsgView::AddToBucketCw721 { bucket_id } => add_to_bucket_cw721_outcome(
            s,
            w.sender,
            nft,
            bucket_id,
        ),
    }
}

/// What a request does to the marketplace `s` at the time `now`: the
/// outcome of the operation that the request names, with the sender as its
/// caller and the coins of the request as its deposit.
pub open spec fn execute_outcome(
    s: StateView,
    now: Timestamp,
    info: MessageInfoView,
    msg: ExecuteMsgView,
) -> Outcome {
    let funds = BalanceView::Native(info.funds);
    match msg {
        ExecuteMsgView::Receive(w) => receive_outcome(s, info.sender, w),
        ExecuteMsgView::ReceiveNft(w) => receive_nft_outcome(s, info.sender, w),
        ExecuteMsgView::CreateListing { create_msg } => create_listing_outcome(
            s,
            info.sender,
            funds,
            create_msg,
        ),
        ExecuteMsgView::AddFundsToSaleNative { listing_id } => add_funds_to_sale_outcome(
            s,
            funds,
            info.sender,
            listing_id,
        ),
        ExecuteMsgView::ChangeAsk { listing_id, new_ask } => change_ask_outcome(
            s,
            info.sender,
            listing_id,
            new_ask,
        ),
        ExecuteMsgView::RemoveListing { listing_id } => remove_listing_outcome(
            s,
            info.sender,
            listing_id,
        ),
        ExecuteMsgView::Finalize { listing_id, seconds } => finalize_outcome(
            s,
            now,
            info.sender,
            listing_id,
            seconds,
        ),
        ExecuteMsgView::RefundExpired { listing_id } => refund_outcome(
            s,
            now,
            info.sender,
            listing_id,
        ),
        ExecuteMsgView::CreateBucket { bucket_id } => create_bucket_outcome(
            s,
            funds,
            info.sender,
            bucket_id,
        ),
        ExecuteMsgView::AddToBucket { bucket_id } => add_to_bucket_outcome(
            s,
            funds,
            info.sender,
            bucket_id,
        ),
        ExecuteMsgView::RemoveBucket { bucket_id } => withdraw_bucket_outcome(
            s,
            info.sender,
            bucket_id,
        ),
        ExecuteMsgView::BuyListing { listing_id, bucket_id } => buy_listing_outcome(
            s,
            now,
            info.sender,
            listing_id,
            bucket_id,
        ),
        ExecuteMsgView::WithdrawPurchased { listing_id } => withdraw_purchased_outcome(
            s,
            info.sender,
            listing_id,
        ),
    }
}

/// Whether `deposit` can be merged into what the listing `listing_id` of
/// `holder` sells without an amount beyond `u128`; true where there is no
/// such listing.
pub open spec fn sale_fits(
    s: StateView,
    holder: Seq<char>,
    listing_id: Seq<char>,
    deposit: BalanceView,
) -> bool {
    s.listings.contains_key((holder, listing_id)) ==> merge_fits(
        s.listings[(holder, listing_id)].for_sale,
        deposit,
    )
}

/// Whether `deposit` can be merged into the bucket `bucket_id` of `holder`
/// without an amount beyond `u128`; true where there is no such bucket.
pub open spec fn bucket_fits(
    s: StateView,
    holder: Seq<char>,
    bucket_id: Seq<char>,
    deposit: BalanceView,
) -> bool {
    s.buckets.contains_key((holder, bucket_id)) ==> merge_fits(
        s.buckets[(holder, bucket_id)].funds,
        deposit,
    )
}

/// Whether the machine can carry out what a reported deposit asks for: a
/// merge that it asks for stays within `u128`.
pub open spec fn receive_fits(s: StateView, token: Seq<char>, w: Cw20ReceiveMsgView) -> bool {
    match w.msg {
        ReceiveMsgView::AddFundsToSaleCw20 { listing_id } => sale_fits(
            s,
            w.sender,
            listing_id,
            reported_deposit(token, w),
        ),
        ReceiveMsgView::AddToBucketCw20 { bucket_id } => bucket_fits(
            s,
            w.sender,
            bucket_id,
            reported_deposit(token, w),
        ),
        _ => true,
    }
}

/// Whether the machine can carry the request out: a merge that the request
/// asks for stays within `u128`, and an expiration time that it asks for
/// within `u64`.
pub open spec fn execute_fits(
    s: StateView,
    now: Timestamp,
    info: MessageInfoView,
    msg: ExecuteMsgView,
) -> bool {
    match msg {
        ExecuteMsgView::Receive(w) => receive_fits(s, info.sender, w),
        ExecuteMsgView::AddFundsToSaleNative { listing_id } => sale_fits(
            s,
            info.sender,
            listing_id,
            BalanceView::Native(info.funds),
        ),
        ExecuteMsgView::AddToBucket { bucket_id } => bucket_fits(
            s,
            info.sender,
            bucket_id,
            BalanceView::Native(info.funds),
        ),
        ExecuteMsgView::Finalize { listing_id, seconds } => valid_window(seconds) ==> now.nanos
            + seconds * NANOS_PER_SECOND <= u64::MAX,
        _ => true,
    }
}

/// Whether `deposit` fits into what the listing `listing_id` of `holder` sells.
fn check_sale_fits(state: &State, holder: &Addr, listing_id: &str, deposit: &Balance) -> (r: bool)
    requires
        state.wf(),
    ensures
        r == sale_fits(state@, holder@, listing_id@, deposit@),
{
    match state.listings.may_load(holder, listing_id) {
        Some(l) => l.for_sale.can_add_tokens(deposit),
        None => true,
    }
}

/// Whether `deposit` fits into the bucket `bucket_id` of `holder`.
fn check_bucket_fits(state: &State, holder: &Addr, bucket_id: &str, deposit: &Balance) -> (r: bool)
    requires
        state.wf(),
    ensures
        r == bucket_fits(state@, holder@, bucket_id@, deposit@),
{
    match state.buckets.get(&RecordKey::new(holder, bucket_id)) {
        Some(b) => b.funds.can_add_tokens(deposit),
        None => true,
    }
}

/// Whether the machine can carry the request out; `execute` asks for this.
pub fn can_execute(state: &State, now: Timestamp, info: &MessageInfo, msg: &ExecuteMsg) -> (r: bool)
    requires
        state.wf(),
    ensures
        r == execute_fits(state@, now, info@, msg@),
{
    match msg {
        ExecuteMsg::Receive(w) => {
            let deposit = Balance::Cw20(
                Cw20CoinVerified { address: info.sender.clone(), amount: w.amount },
            );
            match &w.msg {
                ReceiveMsg::AddFundsToSaleCw20 { listing_id } => check_sale_fits(
                    state,
                    &w.sender,
                    listing_id.as_str(),
                    &deposit,
                ),
                ReceiveMsg::AddToBucketCw20 { bucket_id } => check_bucket_fits(
                    state,
                    &w.sender,
                    bucket_id.as_str(),
                    &deposit,
                ),
                _ => true,
            }
        },
        ExecuteMsg::AddFundsToSaleNative { listing_id } => {
            let deposit = Balance::Native(copy_entries(&info.funds));
            check_sale_fits(state, &info.sender, listing_id.as_str(), &deposit)
        },
        ExecuteMsg::AddToBucket { bucket_id } => {
            let deposit = Balance::Native(copy_entries(&info.funds));
            check_bucket_fits(state, &info.sender, bucket_id.as_str(), &deposit)
        },
        ExecuteMsg::Finalize { listing_id, seconds } => {
            if *seconds < MIN_EXPIRATION_SECONDS || *seconds > MAX_EXPIRATION_SECONDS {
                true
            } else {
                now.nanos <= u64::MAX - *seconds * NANOS_PER_SECOND
            }
        },
        _ => true,
    }
}

/// Carries out what a token contract's report of a deposit asks for.
pub fn execute_receive(state: &mut State, info: MessageInfo, wrapper: Cw20ReceiveMsg) -> (r: Result<
    Response,
    ContractError,
>)
    requires
        old(state).wf(),
        receive_fits(old(state)@, info.sender@, wrapper@),
    ensures
        final(state).wf(),
        realizes(r, old(state)@, final(state)@, receive_outcome(old(state)@, info.sender@, wrapper@)),
{
    let user_wallet = wrapper.sender;
    let balance = Balance::Cw20(
        Cw20CoinVerified { address: info.sender.clone(), amount: wrapper.amount },
    );
    match wrapper.msg {
        ReceiveMsg::CreateListingCw20 { create_msg } => execute_create_listing_cw20(
            state,
            &user_wallet,
            &info.sender,
            &balance,
            create_msg,
        ),
        ReceiveMsg::AddFundsToSaleCw20 { listing_id } => execute_add_funds_to_sale(
            state,
            balance,
            &user_wallet,
            listing_id,
        ),
        ReceiveMsg::CreateBucketCw20 { bucket_id } => execute_create_bucket(
            state,
            &balance,
            &user_wallet,
            &bucket_id,
        ),
        ReceiveMsg::AddToBucketCw20 { bucket_id } => execute_add_to_bucket(
            state,
            balance,
            &user_wallet,
            bucket_id,
        ),
    }
}

/// Carries out what a token contract's report of a deposited token asks for.
pub fn execute_receive_nft(state: &mut State, info: MessageInfo, wrapper: Cw721ReceiveMsg) -> (r:
    Result<Response, ContractError>)
    requires
        old(state).wf(),
    ensures
        final(state).wf(),
        realizes(
            r,
            old(state)@,
            final(state)@,
            receive_nft_outcome(old(state)@, info.sender@, wrapper@),
        ),
{
    let user_wallet = wrapper.sender;
    let nft = Nft { contract_address: info.sender, token_id: wrapper.token_id };
    match wrapper.msg {
        ReceiveNftMsg::CreateListingCw721 { create_msg } => execute_create_listing_cw721(
            state,
            &user_wallet,
            nft,
            create_msg,
        ),
        ReceiveNftMsg::AddToListingCw721 { listing_id } => execute_add_to_sale_cw721(
            state,
            &user_wallet,
            nft,
            listing_id,
        ),
        ReceiveNftMsg::CreateBucketCw721 { bucket_id } => execute_create_bucket_cw721(
            state,
            &user_wallet,
            nft,
            bucket_id.as_str(),
        ),
        ReceiveNftMsg::AddToBucketCw721 { bucket_id } => execute_add_to_bucket_cw721(
            state,
            &user_wallet,
            nft,
            bucket_id,
        ),
    }
}

/// Carries out a request: the operation that it names, with the sender as
/// its caller and the coins of the request as its deposit.
///
/// A marketplace in order is left in order, and so are its ledgers where
/// the coins of the request name no denomination twice.
pub fn execute(state: &mut State, now: Timestamp, info: MessageInfo, msg: ExecuteMsg) -> (r: Result<
    Response,
    ContractError,
>)
    requires
        old(state).wf(),
        execute_fits(old(state)@, now, info@, msg@),
    ensures
        final(state).wf(),
        realizes(r, old(state)@, final(state)@, execute_outcome(old(state)@, now, info@, msg@)),
        in_order(old(state)@) ==> in_order(final(state)@),
        ledgers_in_order(old(state)@) && unique_keys(info@.funds) ==> ledgers_in_order(
            final(state)@,
        ),
{
    proof {
        if in_order(state@) {
            theorem_execute_keeps_order(state@, now, info@, msg@);
        }
        if ledgers_in_order(state@) && unique_keys(info@.funds) {
            theorem_execute_keeps_ledgers(state@, now, info@, msg@);
        }
    }
    match msg {
        ExecuteMsg::Receive(receive_msg) => execute_receive(state, info, receive_msg),
        ExecuteMsg::ReceiveNft(receive_nft_msg) => execute_receive_nft(state, info, receive_nft_msg),
        ExecuteMsg::CreateListing { create_msg } => execute_create_listing(
            state,
            &info.sender,
            &Balance::Native(info.funds),
            create_msg,
        ),
        ExecuteMsg::AddFundsToSaleNative { listing_id } => execute_add_funds_to_sale(
            state,
            Balance::Native(info.funds),
            &info.sender,
            listing_id,
        ),
        ExecuteMsg::ChangeAsk { listing_id, new_ask } => execute_change_ask(
            state,
            &info.sender,
            listing_id,
            new_ask,
        ),
        ExecuteMsg::RemoveListing { listing_id } => execute_remove_listing(
            state,
            &info.sender,
            listing_id,
        ),
        ExecuteMsg::Finalize { listing_id, seconds } => execute_finalize(
            state,
            now,
            &info.sender,
            listing_id,
            seconds,
        ),
        ExecuteMsg::RefundExpired { listing_id } => execute_refund(
            state,
            now,
            &info.sender,
            listing_id,
        ),
        ExecuteMsg::CreateBucket { bucket_id } => execute_create_bucket(
            state,
            &Balance::Native(info.funds),
            &info.sender,
            &bucket_id,
        ),
        ExecuteMsg::AddToBucket { bucket_id } => execute_add_to_bucket(
            state,
            Balance::Native(info.funds),
            &info.sender,
            bucket_id,
        ),
        ExecuteMsg::RemoveBucket { bucket_id } => execute_withdraw_bucket(
            state,
            &info.sender,
            bucket_id.as_str(),
        ),
        ExecuteMsg::BuyListing { listing_id, bucket_id } => execute_buy_listing(
            state,
            now,
            &info.sender,
            listing_id,
            bucket_id.as_str(),
        ),
        ExecuteMsg::WithdrawPurchased { listing_id } => execute_withdraw_purchased(
            state,
            &info.sender,
            listing_id,
        ),
    }
}

} // verus!
