use crate::addr::Addr;
use crate::coin::{copy_entries, views, Coin, Holding};
use vstd::prelude::*;

verus! {

/// A key and a value that an operation reports with its result.
#[derive(Debug, PartialEq, Eq)]
pub struct Attribute {
    pub key: String,
    pub value: String,
}

pub struct AttributeView {
    pub key: Seq<char>,
    pub value: Seq<char>,
}

impl View for Attribute {
    type V = AttributeView;

    open spec fn view(&self) -> AttributeView {
        AttributeView { key: self.key@, value: self.value@ }
    }
}

/// An instruction that the environment carries out after the operation:
/// a bank transfer of native coins, or a call of a token contract.
#[derive(Debug, PartialEq, Eq)]
pub enum CosmosMsg {
    BankSend { to_address: String, amount: Vec<Coin> },
    WasmExecute { contract_addr: String, msg: Vec<u8>, funds: Vec<Coin> },
}

pub enum CosmosMsgView {
    BankSend { to_address: Seq<char>, amount: Seq<Holding> },
    WasmExecute { contract_addr: Seq<char>, msg: Seq<u8>, funds: Seq<Holding> },
}

impl View for CosmosMsg {
    type V = CosmosMsgView;

    open spec fn view(&self) -> CosmosMsgView {
        match self {
            CosmosMsg::BankSend { to_address, amount } => CosmosMsgView::BankSend {
                to_address: to_address@,
                amount: views(amount@),
            },
            CosmosMsg::WasmExecute { contract_addr, msg, funds } => CosmosMsgView::WasmExecute {
                contract_addr: contract_addr@,
                msg: msg@,
                funds: views(funds@),
            },
        }
    }
}

/// The bank transfer of `amount` to `to`.
pub open spec fn bank_send(to: Seq<char>, amount: Seq<Holding>) -> CosmosMsgView {
    CosmosMsgView::BankSend { to_address: to, amount }
}

/// The call of the contract `contract` with the payload `msg` and no funds.
pub open spec fn wasm_execute(contract: Seq<char>, msg: Seq<u8>) -> CosmosMsgView {
    CosmosMsgView::WasmExecute { contract_addr: contract, msg, funds: Seq::empty() }
}

impl CosmosMsg {
    /// The bank transfer of a copy of `amount` to `to`.
    pub fn send(to: &Addr, amount: &Vec<Coin>) -> (r: CosmosMsg)
        ensures
            r@ == bank_send(to@, views(amount@)),
    {
        CosmosMsg::BankSend { to_address: to.0.clone(), amount: copy_entries(amount) }
    }

    /// The call of the contract `contract` with the payload `msg` and no funds.
    pub fn execute(contract: &Addr, msg: Vec<u8>) -> (r: CosmosMsg)
        ensures
            r@ == wasm_execute(contract@, msg@),
    {
        let r = CosmosMsg::WasmExecute {
            contract_addr: contract.0.clone(),
            msg,
            funds: Vec::new(),
        };
        assert(r@->WasmExecute_funds =~= Seq::<Holding>::empty());
        r
    }
}

/// What an operation hands back on success: the instructions to carry out
/// and the attributes to report.
#[derive(Debug, PartialEq, Eq)]
pub struct Response {
    pub messages: Vec<CosmosMsg>,
    pub attributes: Vec<Attribute>,
}

pub struct ResponseView {
    pub messages: Seq<CosmosMsgView>,
    pub attributes: Seq<AttributeView>,
}

impl View for Response {
    type V = ResponseView;

    open spec fn view(&self) -> ResponseView {
        ResponseView { messages: views(self.messages@), attributes: views(self.attributes@) }
    }
}

/// The attribute with the key `key` and the value `value`.
pub open spec fn attr(key: Seq<char>, value: Seq<char>) -> AttributeView {
    AttributeView { key, value }
}

impl Response {
    /// The response with no instruction and no attribute.
    pub fn new() -> (r: Response)
        ensures
            r@.messages == Seq::<CosmosMsgView>::empty(),
            r@.attributes == Seq::<AttributeView>::empty(),
    {
        let r = Response { messages: Vec::new(), attributes: Vec::new() };
        assert(r@.messages =~= Seq::<CosmosMsgView>::empty());
        assert(r@.attributes =~= Seq::<AttributeView>::empty());
        r
    }

    /// The response with one more attribute at the end.
    pub fn add_attribute(self, key: &str, value: &str) -> (r: Response)
        ensures
            r@.messages == self@.messages,
            r@.attributes == self@.attributes.push(attr(key@, value@)),
    {
        let mut r = self;
        r.attributes.push(Attribute { key: key.to_owned(), value: value.to_owned() });
        assert(r@.attributes =~= self@.attributes.push(attr(key@, value@)));
        r
    }

    /// The response with one more instruction at the end.
    pub fn add_message(self, msg: CosmosMsg) -> (r: Response)
        ensures
            r@.messages == self@.messages.push(msg@),
            r@.attributes == self@.attributes,
    {
        let mut r = self;
        r.messages.push(msg);
        assert(r@.messages =~= self@.messages.push(msg@));
        r
    }

    /// The response with the instructions of `msgs` at the end, in order.
    pub fn add_messages(self, msgs: Vec<CosmosMsg>) -> (r: Response)
        ensures
            r@.messages == self@.messages + views(msgs@),
            r@.attributes == self@.attributes,
    {
        let mut r = self;
        let mut tail = msgs;
        r.messages.append(&mut tail);
        assert(r@.messages =~= self@.messages + views(msgs@));
        r
    }
}

} // verus!
