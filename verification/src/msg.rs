use crate::addr::{opt_addr_view, Addr};
use crate::balance::{GenericBalance, GenericBalanceView};
use vstd::prelude::*;

verus! {

/// What the marketplace is set up with.
#[derive(Debug, PartialEq, Eq)]
pub struct InstantiateMsg {
    pub admin: Option<String>,
}

/// The kind of asset that a denomination names.
#[derive(Clone, Copy, Debug, PartialEq, Eq, Structural)]
pub enum Marker {
    Cw20,
    Native,
    Nft,
}

/// A request for a new listing: its id, the assets asked for what is
/// deposited with the request, and up to three identities that may buy.
#[derive(Debug, PartialEq)]
pub struct CreateListingMsg {
    pub id: String,
    pub ask: GenericBalance,
    pub whitelist_buyer_one: Option<Addr>,
    pub whitelist_buyer_two: Option<Addr>,
    pub whitelist_buyer_three: Option<Addr>,
}

pub struct CreateListingMsgView {
    pub id: Seq<char>,
    pub ask: GenericBalanceView,
    pub whitelist_buyer_one: Option<Seq<char>>,
    pub whitelist_buyer_two: Option<Seq<char>>,
    pub whitelist_buyer_three: Option<Seq<char>>,
}

impl View for CreateListingMsg {
    type V = CreateListingMsgView;

    open spec fn view(&self) -> CreateListingMsgView {
        CreateListingMsgView {
            id: self.id@,
            ask: self.ask@,
            whitelist_buyer_one: opt_addr_view(self.whitelist_buyer_one),
            whitelist_buyer_two: opt_addr_view(self.whitelist_buyer_two),
            whitelist_buyer_three: opt_addr_view(self.whitelist_buyer_three),
        }
    }
}

/// What a deposit of a fungible token asks for.
#[derive(Debug, PartialEq)]
pub enum ReceiveMsg {
    CreateListingCw20 { create_msg: CreateListingMsg },
    AddFundsToSaleCw20 { listing_id: String },
    CreateBucketCw20 { bucket_id: String },
    AddToBucketCw20 { bucket_id: String },
}

/// What a deposit of a non-fungible token asks for.
#[derive(Debug, PartialEq)]
pub enum ReceiveNftMsg {
    CreateListingCw721 { create_msg: CreateListingMsg },
    AddToListingCw721 { listing_id: String },
    CreateBucketCw721 { bucket_id: String },
    AddToBucketCw721 { bucket_id: String },
}

/// A token contract's report of a deposit of its fungible token: who
/// deposited, how much, and what the depositor asks for.
#[derive(Debug, PartialEq)]
pub struct Cw20ReceiveMsg {
    pub sender: Addr,
    pub amount: u128,
    pub msg: ReceiveMsg,
}

/// A token contract's report of a deposit of one of its non-fungible
/// tokens: who deposited, which token, and what the depositor asks for.
#[derive(Debug, PartialEq)]
pub struct Cw721ReceiveMsg {
    pub sender: Addr,
    pub token_id: String,
    pub msg: ReceiveNftMsg,
}

/// A request that changes the marketplace.
///
/// The sender of a `Receive` or a `ReceiveNft` is the token contract.
#[derive(Debug, PartialEq)]
pub enum ExecuteMsg {
    Receive(Cw20ReceiveMsg),
    ReceiveNft(Cw721ReceiveMsg),
    CreateListing { create_msg: CreateListingMsg },
    AddFundsToSaleNative { listing_id: String },
    ChangeAsk { listing_id: String, new_ask: GenericBalance },
    RemoveListing { listing_id: String },
    Finalize { listing_id: String, seconds: u64 },
    RefundExpired { listing_id: String },
    CreateBucket { bucket_id: String },
    AddToBucket { bucket_id: String },
    RemoveBucket { bucket_id: String },
    BuyListing { listing_id: String, bucket_id: String },
    WithdrawPurchased { listing_id: String },
}

pub enum ReceiveMsgView {
    CreateListingCw20 { create_msg: CreateListingMsgView },
    AddFundsToSaleCw20 { listing_id: Seq<char> },
    CreateBucketCw20 { bucket_id: Seq<char> },
    AddToBucketCw20 { bucket_id: Seq<char> },
}

impl View for ReceiveMsg {
    type V = ReceiveMsgView;

    open spec fn view(&self) -> ReceiveMsgView {
        match self {
            ReceiveMsg::CreateListingCw20 { create_msg } => ReceiveMsgView::CreateListingCw20 {
                create_msg: create_msg@,
            },
            ReceiveMsg::AddFundsToSaleCw20 { listing_id } => ReceiveMsgView::AddFundsToSaleCw20 {
                listing_id: listing_id@,
            },
            ReceiveMsg::CreateBucketCw20 { bucket_id } => ReceiveMsgView::CreateBucketCw20 {
                bucket_id: bucket_id@,
            },
            ReceiveMsg::AddToBucketCw20 { bucket_id } => ReceiveMsgView::AddToBucketCw20 {
                bucket_id: bucket_id@,
            },
        }
    }
}

pub enum ReceiveNftMsgView {
    CreateListingCw721 { create_msg: CreateListingMsgView },
    AddToListingCw721 { listing_id: Seq<char> },
    CreateBucketCw721 { bucket_id: Seq<char> },
    AddToBucketCw721 { bucket_id: Seq<char> },
}

impl View for ReceiveNftMsg {
    type V = ReceiveNftMsgView;

    open spec fn view(&self) -> ReceiveNftMsgView {
        match self {
            ReceiveNftMsg::CreateListingCw721 { create_msg } => ReceiveNftMsgView::CreateListingCw721 {
                create_msg: create_msg@,
            },
            ReceiveNftMsg::AddToListingCw721 { listing_id } => ReceiveNftMsgView::AddToListingCw721 {
                listing_id: listing_id@,
            },
            ReceiveNftMsg::CreateBucketCw721 { bucket_id } => ReceiveNftMsgView::CreateBucketCw721 {
                bucket_id: bucket_id@,
            },
            ReceiveNftMsg::AddToBucketCw721 { bucket_id } => ReceiveNftMsgView::AddToBucketCw721 {
                bucket_id: bucket_id@,
            },
        }
    }
}

pub struct Cw20ReceiveMsgView {
    pub sender: Seq<char>,
    pub amount: nat,
    pub msg: ReceiveMsgView,
}

impl View for Cw20ReceiveMsg {
    type V = Cw20ReceiveMsgView;

    open spec fn view(&self) -> Cw20ReceiveMsgView {
        Cw20ReceiveMsgView { sender: self.sender@, amount: self.amount as nat, msg: self.msg@ }
    }
}

pub struct Cw721ReceiveMsgView {
    pub sender: Seq<char>,
    pub token_id: Seq<char>,
    pub msg: ReceiveNftMsgView,
}

impl View for Cw721ReceiveMsg {
    type V = Cw721ReceiveMsgView;

    open spec fn view(&self) -> Cw721ReceiveMsgView {
        Cw721ReceiveMsgView { sender: self.sender@, token_id: self.token_id@, msg: self.msg@ }
    }
}

pub enum ExecuteMsgView {
    Receive(Cw20ReceiveMsgView),
    ReceiveNft(Cw721ReceiveMsgView),
    CreateListing { create_msg: CreateListingMsgView },
    AddFundsToSaleNative { listing_id: Seq<char> },
    ChangeAsk { listing_id: Seq<char>, new_ask: GenericBalanceView },
    RemoveListing { listing_id: Seq<char> },
    Finalize { listing_id: Seq<char>, seconds: u64 },
    RefundExpired { listing_id: Seq<char> },
    CreateBucket { bucket_id: Seq<char> },
    AddToBucket { bucket_id: Seq<char> },
    RemoveBucket { bucket_id: Seq<char> },
    BuyListing { listing_id: Seq<char>, bucket_id: Seq<char> },
    WithdrawPurchased { listing_id: Seq<char> },
}

impl View for ExecuteMsg {
    type V = ExecuteMsgView;

    open spec fn view(&self) -> ExecuteMsgView {
        match self {
            ExecuteMsg::Receive(w) => ExecuteMsgView::Receive(w@),
            ExecuteMsg::ReceiveNft(w) => ExecuteMsgView::ReceiveNft(w@),
            ExecuteMsg::CreateListing { create_msg } => ExecuteMsgView::CreateListing {
                create_msg: create_msg@,
            },
            ExecuteMsg::AddFundsToSaleNative { listing_id } => ExecuteMsgView::AddFundsToSaleNative {
                listing_id: listing_id@,
            },
            ExecuteMsg::ChangeAsk { listing_id, new_ask } => ExecuteMsgView::ChangeAsk {
                listing_id: listing_id@,
                new_ask: new_ask@,
            },
            ExecuteMsg::RemoveListing { listing_id } => ExecuteMsgView::RemoveListing {
                listing_id: listing_id@,
            },
            ExecuteMsg::Finalize { listing_id, seconds } => ExecuteMsgView::Finalize {
                listing_id: listing_id@,
                seconds: *seconds,
            },
            ExecuteMsg::RefundExpired { listing_id } => ExecuteMsgView::RefundExpired {
                listing_id: listing_id@,
            },
            ExecuteMsg::CreateBucket { bucket_id } => ExecuteMsgView::CreateBucket {
                bucket_id: bucket_id@,
            },
            ExecuteMsg::AddToBucket { bucket_id } => ExecuteMsgView::AddToBucket {
                bucket_id: bucket_id@,
            },
            ExecuteMsg::RemoveBucket { bucket_id } => ExecuteMsgView::RemoveBucket {
                bucket_id: bucket_id@,
            },
            ExecuteMsg::BuyListing { listing_id, bucket_id } => ExecuteMsgView::BuyListing {
                listing_id: listing_id@,
                bucket_id: bucket_id@,
            },
            ExecuteMsg::WithdrawPurchased { listing_id } => ExecuteMsgView::WithdrawPurchased {
                listing_id: listing_id@,
            },
        }
    }
}

/// A request that only reads.
#[derive(Debug, PartialEq, Eq)]
pub enum QueryMsg {
    GetAdmin {  },
    GetListingInfo { listing_id: String },
    GetAllListings {  },
    GetListingsByOwner { owner: String },
    GetBuckets { bucket_owner: String },
    GetListingsForMarket { page_num: u8 },
    GetConfig {  },
}

} // verus!
