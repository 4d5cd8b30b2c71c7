use crate::addr::{opt_addr_view, Addr};
use crate::balance::{
    find_entry, first_index, has_key, lemma_first_index, unique_keys, GenericBalance,
    GenericBalanceView,
};
use crate::coin::{coin, coins, copy_entries, views, Coin, Cw20CoinVerified, Entry, Holding, Nft, NftView};
use crate::state::{Listing, ListingView};
use crate::encoding::{
    cw20_transfer_json, cw721_transfer_json, encode_cw20_transfer, encode_cw721_transfer,
};
use crate::error::ContractError;
use crate::response::{bank_send, wasm_execute, CosmosMsg, CosmosMsgView};
use vstd::prelude::*;

verus! {

/// The bank transfer that moves `native` to `to`: none where there is nothing to move.
pub open spec fn bank_part(to: Seq<char>, native: Seq<Holding>) -> Seq<CosmosMsgView> {
    if native.len() == 0 {
        Seq::empty()
    } else {
        seq![bank_send(to, native)]
    }
}

/// One call per fungible token, to the token's contract, with the payload
/// of the same place.
pub open spec fn cw20_calls(tokens: Seq<Holding>, payloads: Seq<Seq<u8>>) -> Seq<CosmosMsgView> {
    Seq::new(tokens.len(), |i: int| wasm_execute(tokens[i].key, payloads[i]))
}

/// One call per non-fungible token, to the token's contract, with the
/// payload of the same place.
pub open spec fn nft_calls(nfts: Seq<NftView>, payloads: Seq<Seq<u8>>) -> Seq<CosmosMsgView> {
    Seq::new(nfts.len(), |i: int| wasm_execute(nfts[i].contract_address, payloads[i]))
}

/// The instructions that move the ledger `b` to `to`, given the payloads of
/// the token calls: the bank transfer, then the fungible tokens, then the
/// non-fungible ones.
pub open spec fn transfer_plan(
    to: Seq<char>,
    b: GenericBalanceView,
    cw20_payloads: Seq<Seq<u8>>,
    nft_payloads: Seq<Seq<u8>>,
) -> Seq<CosmosMsgView> {
    bank_part(to, b.native) + cw20_calls(b.cw20, cw20_payloads) + nft_calls(b.nfts, nft_payloads)
}

/// What the encoder gives for the transfer of each fungible token to `to`.
pub open spec fn cw20_payloads(to: Seq<char>, tokens: Seq<Holding>) -> Seq<Option<Seq<u8>>> {
    Seq::new(tokens.len(), |i: int| cw20_transfer_json(to, tokens[i].amount as u128))
}

/// What the encoder gives for the transfer of each non-fungible token to `to`.
pub open spec fn nft_payloads(to: Seq<char>, nfts: Seq<NftView>) -> Seq<Option<Seq<u8>>> {
    Seq::new(nfts.len(), |i: int| cw721_transfer_json(to, nfts[i].token_id))
}

/// Whether the encoder gave bytes at every place.
pub open spec fn all_encoded(s: Seq<Option<Seq<u8>>>) -> bool {
    forall|i: int| 0 <= i < s.len() ==> (#[trigger] s[i]) is Some
}

/// The bytes of every place.
pub open spec fn encoded(s: Seq<Option<Seq<u8>>>) -> Seq<Seq<u8>> {
    Seq::new(s.len(), |i: int| s[i]->0)
}

/// The instructions that move the ledger `b` to `to`, or `None` where the
/// encoder refuses one of the token transfers.
pub open spec fn transfer_msgs(to: Seq<char>, b: GenericBalanceView) -> Option<
    Seq<CosmosMsgView>,
> {
    let c = cw20_payloads(to, b.cw20);
    let n = nft_payloads(to, b.nfts);
    if all_encoded(c) && all_encoded(n) {
        Some(transfer_plan(to, b, encoded(c), encoded(n)))
    } else {
        None
    }
}

/// A ledger without tokens is moved by its bank transfer alone, whatever
/// the encoder does.
pub proof fn lemma_native_transfer(to: Seq<char>, b: GenericBalanceView)
    requires
        b.cw20.len() == 0,
        b.nfts.len() == 0,
    ensures
        transfer_msgs(to, b) == Some(bank_part(to, b.native)),
{
    let c = cw20_payloads(to, b.cw20);
    let n = nft_payloads(to, b.nfts);
    assert(transfer_plan(to, b, encoded(c), encoded(n)) =~= bank_part(to, b.native));
}

/// Assembles the instructions that move `balance` to `to` from the payloads
/// of the token calls. `None` where a list of payloads has not one payload
/// per token.
pub fn transfer_messages(
    to: &Addr,
    balance: &GenericBalance,
    cw20_payloads: &Vec<Vec<u8>>,
    nft_payloads: &Vec<Vec<u8>>,
) -> (r: Option<Vec<CosmosMsg>>)
    ensures
        r is Some <==> (cw20_payloads.len() == balance.cw20.len() && nft_payloads.len()
            == balance.nfts.len()),
        r matches Some(msgs) ==> views(msgs@) == transfer_plan(
            to@,
            balance@,
            views(cw20_payloads@),
            views(nft_payloads@),
        ),
{
    if cw20_payloads.len() != balance.cw20.len() || nft_payloads.len() != balance.nfts.len() {
        return None;
    }
    let mut msgs: Vec<CosmosMsg> = Vec::new();
    if balance.native.len() > 0 {
        msgs.push(CosmosMsg::send(to, &balance.native));
    }
    let ghost bank = bank_part(to@, balance@.native);
    let ghost calls = cw20_calls(balance@.cw20, views(cw20_payloads@));
    assert(views(msgs@) =~= bank);
    let mut i: usize = 0;
    while i < balance.cw20.len()
        invariant
            i <= balance.cw20.len(),
            cw20_payloads.len() == balance.cw20.len(),
            bank == bank_part(to@, balance@.native),
            calls == cw20_calls(balance@.cw20, views(cw20_payloads@)),
            views(msgs@) == bank + calls.take(i as int),
        decreases balance.cw20.len() - i,
    {
        let ghost before = views(msgs@);
        let payload = cw20_payloads[i].clone();
        msgs.push(CosmosMsg::execute(&balance.cw20[i].address, payload));
        proof {
            assert(payload@ == cw20_payloads[i as int]@);
            assert(calls[i as int] == wasm_execute(
                balance@.cw20[i as int].key,
                views(cw20_payloads@)[i as int],
            ));
            assert(calls.take(i as int + 1) =~= calls.take(i as int).push(calls[i as int]));
            assert(views(msgs@) =~= before.push(calls[i as int]));
            assert(views(msgs@) =~= bank + calls.take(i as int + 1));
        }
        i += 1;
    }
    assert(calls.take(i as int) =~= calls);
    let ghost head = bank + calls;
    let ghost tail = nft_calls(balance@.nfts, views(nft_payloads@));
    let mut j: usize = 0;
    assert(views(msgs@) =~= head + tail.take(0));
    while j < balance.nfts.len()
        invariant
            j <= balance.nfts.len(),
            nft_payloads.len() == balance.nfts.len(),
            tail == nft_calls(balance@.nfts, views(nft_payloads@)),
            views(msgs@) == head + tail.take(j as int),
        decreases balance.nfts.len() - j,
    {
        let ghost before = views(msgs@);
        let payload = nft_payloads[j].clone();
        msgs.push(CosmosMsg::execute(&balance.nfts[j].contract_address, payload));
        proof {
            assert(payload@ == nft_payloads[j as int]@);
            assert(tail[j as int] == wasm_execute(
                balance@.nfts[j as int].contract_address,
                views(nft_payloads@)[j as int],
            ));
            assert(tail.take(j as int + 1) =~= tail.take(j as int).push(tail[j as int]));
            assert(views(msgs@) =~= before.push(tail[j as int]));
            assert(views(msgs@) =~= head + tail.take(j as int + 1));
        }
        j += 1;
    }
    assert(tail.take(j as int) =~= tail);
    Some(msgs)
}

/// Encodes the transfer of each fungible token to `to`.
fn encode_cw20_payloads(to: &Addr, tokens: &Vec<Cw20CoinVerified>) -> (r: Result<
    Vec<Vec<u8>>,
    ContractError,
>)
    ensures
        match r {
            Ok(v) => all_encoded(cw20_payloads(to@, views(tokens@))) && views(v@) == encoded(
                cw20_payloads(to@, views(tokens@)),
            ),
            Err(e) => e == ContractError::Std && !all_encoded(cw20_payloads(to@, views(tokens@))),
        },
{
    let ghost named = cw20_payloads(to@, views(tokens@));
    let mut out: Vec<Vec<u8>> = Vec::new();
    let mut i: usize = 0;
    while i < tokens.len()
        invariant
            i <= tokens.len(),
            named == cw20_payloads(to@, views(tokens@)),
            out.len() == i,
            forall|j: int| 0 <= j < i ==> #[trigger] named[j] == Some(out[j]@),
        decreases tokens.len() - i,
    {
        match encode_cw20_transfer(to.as_str(), tokens[i].amount) {
            Ok(bytes) => {
                assert(named[i as int] == Some(bytes@));
                out.push(bytes);
            },
            Err(_) => {
                assert(named[i as int] is None);
                return Err(ContractError::Std);
            },
        }
        i += 1;
    }
    assert(views(out@) =~= encoded(named));
    Ok(out)
}

/// Encodes the transfer of each non-fungible token to `to`.
fn encode_nft_payloads(to: &Addr, nfts: &Vec<Nft>) -> (r: Result<Vec<Vec<u8>>, ContractError>)
    ensures
        match r {
            Ok(v) => all_encoded(nft_payloads(to@, views(nfts@))) && views(v@) == encoded(
                nft_payloads(to@, views(nfts@)),
            ),
            Err(e) => e == ContractError::Std && !all_encoded(nft_payloads(to@, views(nfts@))),
        },
{
    let ghost named = nft_payloads(to@, views(nfts@));
    let mut out: Vec<Vec<u8>> = Vec::new();
    let mut i: usize = 0;
    while i < nfts.len()
        invariant
            i <= nfts.len(),
            named == nft_payloads(to@, views(nfts@)),
            out.len() == i,
            forall|j: int| 0 <= j < i ==> #[trigger] named[j] == Some(out[j]@),
        decreases nfts.len() - i,
    {
        match encode_cw721_transfer(to.as_str(), nfts[i].token_id.as_str()) {
            Ok(bytes) => {
                assert(named[i as int] == Some(bytes@));
                out.push(bytes);
            },
            Err(_) => {
                assert(named[i as int] is None);
                return Err(ContractError::Std);
            },
        }
        i += 1;
    }
    assert(views(out@) =~= encoded(named));
    Ok(out)
}

/// The instructions that move the whole of `balance` to `to`: one bank
/// transfer for the native coins where there are any, then one call per
/// fungible token, then one call per non-fungible token.
///
/// Fails with `Std`, and only then, where the encoder refuses one of the
/// token transfers.
pub fn send_tokens_cosmos(to: &Addr, balance: &GenericBalance) -> (r: Result<
    Vec<CosmosMsg>,
    ContractError,
>)
    ensures
        match r {
            Ok(msgs) => transfer_msgs(to@, balance@) == Some(views(msgs@)),
            Err(e) => e == ContractError::Std && transfer_msgs(to@, balance@) is None,
        },
{
    let cw20_payloads = match encode_cw20_payloads(to, &balance.cw20) {
        Ok(v) => v,
        Err(e) => {
            return Err(e);
        },
    };
    let nft_payloads = match encode_nft_payloads(to, &balance.nfts) {
        Ok(v) => v,
        Err(e) => {
            return Err(e);
        },
    };
    assert(views(cw20_payloads@).len() == balance.cw20.len());
    assert(views(nft_payloads@).len() == balance.nfts.len());
    match transfer_messages(to, balance, &cw20_payloads, &nft_payloads) {
        Some(msgs) => Ok(msgs),
        None => Err(ContractError::Std),
    }
}

/// The entries of `s` whose amount is not zero, in order.
pub open spec fn drop_zero_amounts(s: Seq<Holding>) -> Seq<Holding>
    decreases s.len(),
{
    if s.len() == 0 {
        s
    } else if s.last().amount == 0 {
        drop_zero_amounts(s.drop_last())
    } else {
        drop_zero_amounts(s.drop_last()).push(s.last())
    }
}

/// The entries of `s` whose key is not `k`, in order.
pub open spec fn without_key(s: Seq<Holding>, k: Seq<char>) -> Seq<Holding>
    decreases s.len(),
{
    if s.len() == 0 {
        s
    } else if s.last().key == k {
        without_key(s.drop_last(), k)
    } else {
        without_key(s.drop_last(), k).push(s.last())
    }
}

/// What becomes of a proposed ask: its native entries lose those with the
/// amount zero, and it is refused where two of the others name the same
/// denomination. The tokens are taken as they are.
pub open spec fn normalized_ask(ask: GenericBalanceView) -> Result<
    GenericBalanceView,
    ContractError,
> {
    let native = drop_zero_amounts(ask.native);
    if unique_keys(native) {
        Ok(GenericBalanceView { native, ..ask })
    } else {
        Err(ContractError::DuplicateAskDenom)
    }
}

/// The coins of `v` whose amount is not zero.
fn nonzero_coins(v: &Vec<Coin>) -> (r: Vec<Coin>)
    ensures
        views(r@) == drop_zero_amounts(views(v@)),
{
    let ghost s = views(v@);
    let mut out: Vec<Coin> = Vec::new();
    let mut i: usize = 0;
    assert(s.take(0) =~= Seq::<Holding>::empty());
    assert(views(out@) =~= drop_zero_amounts(s.take(0)));
    while i < v.len()
        invariant
            i <= v.len(),
            s == views(v@),
            views(out@) == drop_zero_amounts(s.take(i as int)),
        decreases v.len() - i,
    {
        let ghost before = views(out@);
        proof {
            assert(s.take(i as int + 1).drop_last() =~= s.take(i as int));
            assert(s.take(i as int + 1).last() == s[i as int]);
        }
        if v[i].amount != 0 {
            out.push(v[i].copy());
            assert(views(out@) =~= before.push(s[i as int]));
        }
        i += 1;
    }
    assert(s.take(i as int) =~= s);
    out
}

/// Whether no two coins of `v` have the same denomination.
fn distinct_denoms(v: &Vec<Coin>) -> (r: bool)
    ensures
        r == unique_keys(views(v@)),
{
    let ghost s = views(v@);
    let mut i: usize = 0;
    while i < v.len()
        invariant
            i <= v.len(),
            s == views(v@),
            forall|a: int, b: int|
                0 <= a < b < s.len() && a < i ==> (#[trigger] s[a]).key != (#[trigger] s[b]).key,
        decreases v.len() - i,
    {
        let mut j: usize = i + 1;
        while j < v.len()
            invariant
                i < j <= v.len(),
                s == views(v@),
                forall|b: int| i < b < j ==> s[i as int].key != (#[trigger] s[b]).key,
            decreases v.len() - j,
        {
            if v[i].denom == v[j].denom {
                assert(s[i as int].key == s[j as int].key);
                return false;
            }
            j += 1;
        }
        i += 1;
    }
    true
}

/// Prepares a proposed ask: the native coins with the amount zero are
/// taken out, and the ask is refused with `DuplicateAskDenom` where two of
/// the remaining coins have the same denomination.
pub fn normalize_ask_error_on_dup(ask: GenericBalance) -> (r: Result<
    GenericBalance,
    ContractError,
>)
    ensures
        match normalized_ask(ask@) {
            Ok(n) => r matches Ok(x) && x@ == n,
            Err(e) => r matches Err(x) && x == e,
        },
{
    let native = nonzero_coins(&ask.native);
    if !distinct_denoms(&native) {
        return Err(ContractError::DuplicateAskDenom);
    }
    Ok(GenericBalance { native, cw20: ask.cw20, nfts: ask.nfts })
}

/// Whether `buyer` may buy the listing: anyone may where no buyer is named,
/// and only the named ones where one is.
pub open spec fn whitelisted(buyer: Seq<char>, l: ListingView) -> bool {
    ||| (l.whitelisted_buyer_one is None && l.whitelisted_buyer_two is None
        && l.whitelisted_buyer_three is None)
    ||| l.whitelisted_buyer_one == Some(buyer)
    ||| l.whitelisted_buyer_two == Some(buyer)
    ||| l.whitelisted_buyer_three == Some(buyer)
}

/// Whether the optional identity is there and is `buyer`.
fn names(slot: &Option<Addr>, buyer: &Addr) -> (r: bool)
    ensures
        r == (opt_addr_view(*slot) == Some(buyer@)),
{
    match slot {
        Some(a) => a.same(buyer),
        None => false,
    }
}

/// Accepts `buyer` where the listing names no buyer or names this one, and
/// refuses it with `NotWhitelisted` otherwise.
pub fn check_buyer_whitelisted(buyer: &Addr, listing: &Listing) -> (r: Result<(), ContractError>)
    ensures
        r == (if whitelisted(buyer@, listing@) {
            Ok::<(), ContractError>(())
        } else {
            Err(ContractError::NotWhitelisted)
        }),
{
    let open = listing.whitelisted_buyer_one.is_none() && listing.whitelisted_buyer_two.is_none()
        && listing.whitelisted_buyer_three.is_none();
    if open || names(&listing.whitelisted_buyer_one, buyer) || names(
        &listing.whitelisted_buyer_two,
        buyer,
    ) || names(&listing.whitelisted_buyer_three, buyer) {
        Ok(())
    } else {
        Err(ContractError::NotWhitelisted)
    }
}

/// Whether the environment accepted every address of the list.
pub open spec fn all_accepted(s: Seq<Option<Addr>>) -> bool {
    forall|i: int| 0 <= i < s.len() ==> (#[trigger] s[i]) is Some
}

/// The buyers that a request names. `whitelisted_addrs` holds, for each
/// address of the request, the identity that the environment made of it,
/// or `None` where the environment refused the address.
///
/// No list and an empty list both mean that no buyer is named. A list with
/// a refused address fails with `InvalidAddressFormat`; any other list
/// comes back as it is.
pub fn get_whitelisted_addresses(whitelisted_addrs: Option<Vec<Option<Addr>>>) -> (r: Result<
    Option<Vec<Addr>>,
    ContractError,
>)
    ensures
        match whitelisted_addrs {
            None => r matches Ok(None),
            Some(list) => if list.len() == 0 {
                r matches Ok(None)
            } else if all_accepted(list@) {
                r matches Ok(Some(valid)) && valid.len() == list.len() && forall|i: int|
                    0 <= i < list.len() ==> opt_addr_view(#[trigger] list[i]) == Some(valid[i]@)
            } else {
                r matches Err(e) && e == ContractError::InvalidAddressFormat
            },
        },
{
    let list = match whitelisted_addrs {
        Some(list) => list,
        None => {
            return Ok(None);
        },
    };
    if list.len() == 0 {
        return Ok(None);
    }
    let mut valid: Vec<Addr> = Vec::new();
    let mut i: usize = 0;
    while i < list.len()
        invariant
            i <= list.len(),
            list.len() > 0,
            whitelisted_addrs == Some(list),
            valid.len() == i,
            forall|j: int| 0 <= j < i ==> opt_addr_view(#[trigger] list[j]) == Some(valid[j]@),
        decreases list.len() - i,
    {
        match &list[i] {
            Some(a) => {
                valid.push(a.clone());
            },
            None => {
                assert(list@[i as int] is None);
                return Err(ContractError::InvalidAddressFormat);
            },
        }
        i += 1;
    }
    assert(all_accepted(list@)) by {
        assert forall|j: int| 0 <= j < list@.len() implies (#[trigger] list@[j]) is Some by {
            assert(opt_addr_view(list[j]) == Some(valid[j]@));
        }
    }
    Ok(Some(valid))
}

/// The address that receives the protocol fee.
pub const COMMUNITY_POOL: &'static str = "juno1jv65s3grqf6v6jl3dp4t6c9t9rk99cd83d88wr";

/// The native denomination on which the protocol fee is taken.
pub const FEE_DENOM: &'static str = "ujunox";

/// The protocol fee on `amount`: a thousandth, rounded down.
pub open spec fn fee_of(amount: nat) -> nat {
    amount / 1000
}

/// The fee on a settling balance: the transfer of the fee to the community
/// pool and the balance that is left, or `None` where no fee is taken.
///
/// The fee is taken on the first native entry in the fee denomination. What
/// is left holds the other native entries in their order and then that
/// entry less the fee; the tokens are untouched.
pub open spec fn fee_outcome(b: GenericBalanceView) -> Option<
    (CosmosMsgView, GenericBalanceView),
> {
    if !has_key(b.native, FEE_DENOM@) {
        None
    } else {
        let amount = b.native[first_index(b.native, FEE_DENOM@)].amount;
        if fee_of(amount) == 0 {
            None
        } else {
            Some(
                (
                    bank_send(
                        COMMUNITY_POOL@,
                        seq![Holding { key: FEE_DENOM@, amount: fee_of(amount) }],
                    ),
                    GenericBalanceView {
                        native: without_key(b.native, FEE_DENOM@).push(
                            Holding { key: FEE_DENOM@, amount: (amount - fee_of(amount)) as nat },
                        ),
                        ..b
                    },
                ),
            )
        }
    }
}

/// The coins of `v` in another denomination than that of `probe`.
fn coins_without(v: &Vec<Coin>, probe: &Coin) -> (r: Vec<Coin>)
    ensures
        views(r@) == without_key(views(v@), probe@.key),
{
    let ghost s = views(v@);
    let mut out: Vec<Coin> = Vec::new();
    let mut i: usize = 0;
    assert(s.take(0) =~= Seq::<Holding>::empty());
    assert(views(out@) =~= without_key(s.take(0), probe@.key));
    while i < v.len()
        invariant
            i <= v.len(),
            s == views(v@),
            views(out@) == without_key(s.take(i as int), probe@.key),
        decreases v.len() - i,
    {
        let ghost before = views(out@);
        proof {
            assert(s.take(i as int + 1).drop_last() =~= s.take(i as int));
            assert(s.take(i as int + 1).last() == s[i as int]);
        }
        if v[i].denom != probe.denom {
            out.push(v[i].copy());
            assert(views(out@) =~= before.push(s[i as int]));
        }
        i += 1;
    }
    assert(s.take(i as int) =~= s);
    out
}

/// The protocol fee on a settling balance.
///
/// Where the balance holds a native entry in the fee denomination and a
/// thousandth of its amount, rounded down, is not zero, the result is the
/// transfer of that fee to the community pool and the balance less the fee.
/// Otherwise no fee is taken and the result is `None`.
pub fn calc_fee(balance: &GenericBalance) -> (r: Option<(CosmosMsg, GenericBalance)>)
    ensures
        match fee_outcome(balance@) {
            Some((msg, rest)) => r matches Some((m, b)) && m@ == msg && b@ == rest,
            None => r is None,
        },
{
    let probe = coin(0, FEE_DENOM);
    match find_entry(&balance.native, &probe) {
        None => None,
        Some(i) => {
            proof {
                lemma_first_index(views(balance.native@), FEE_DENOM@, i as int);
            }
            let amount: u128 = balance.native[i].amount;
            let fee: u128 = amount / 1000;
            if fee == 0 {
                None
            } else {
                let fee_msg = CosmosMsg::BankSend {
                    to_address: COMMUNITY_POOL.to_owned(),
                    amount: coins(fee, FEE_DENOM),
                };
                let mut native = coins_without(&balance.native, &probe);
                let ghost kept = views(native@);
                native.push(coin(amount - fee, FEE_DENOM));
                assert(views(native@) =~= kept.push(
                    Holding { key: FEE_DENOM@, amount: (amount - fee) as nat },
                ));
                let rest = GenericBalance {
                    native,
                    cw20: copy_entries(&balance.cw20),
                    nfts: copy_entries(&balance.nfts),
                };
                Some((fee_msg, rest))
            }
        },
    }
}

} // verus!
