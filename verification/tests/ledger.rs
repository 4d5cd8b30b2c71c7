use juno_vaults::addr::Addr;
use juno_vaults::balance::{genbal_from_nft, Balance, GenericBalance};
use juno_vaults::coin::{coin, coins, Coin, Cw20CoinVerified, Nft};
use juno_vaults::error::ContractError;
use juno_vaults::utils::normalize_ask_error_on_dup;

fn token(contract: &str, amount: u128) -> Cw20CoinVerified {
    Cw20CoinVerified { address: Addr::unchecked(contract), amount }
}

fn nft(contract: &str, id: &str) -> Nft {
    Nft { contract_address: Addr::unchecked(contract), token_id: id.to_string() }
}

fn native(list: Vec<Coin>) -> GenericBalance {
    GenericBalance { native: list, cw20: vec![], nfts: vec![] }
}

#[test]
fn coin_builders_give_one_entry() {
    assert_eq!(coin(5, "ujunox"), Coin { denom: "ujunox".to_string(), amount: 5 });
    assert_eq!(coins(5, "ujunox"), vec![Coin { denom: "ujunox".to_string(), amount: 5 }]);
}

#[test]
fn merging_nothing_changes_nothing() {
    let mut ledger = native(vec![coin(7, "a"), coin(9, "b")]);
    ledger.cw20.push(token("c20", 3));
    ledger.nfts.push(nft("c721", "1"));
    let before = ledger.clone();
    ledger.add_tokens(Balance::Native(vec![]));
    assert!(ledger.same(&before));
    assert_eq!(ledger.native, vec![coin(7, "a"), coin(9, "b")]);
}

#[test]
fn merge_adds_to_the_entry_with_the_key() {
    let mut ledger = native(vec![coin(7, "a"), coin(9, "b")]);
    ledger.add_tokens(Balance::Native(vec![coin(1, "b"), coin(4, "c"), coin(2, "b")]));
    assert_eq!(ledger.native, vec![coin(7, "a"), coin(12, "b"), coin(4, "c")]);
    ledger.add_tokens(Balance::Cw20(token("c20", 5)));
    ledger.add_tokens(Balance::Cw20(token("c20", 6)));
    ledger.add_tokens(Balance::Cw20(token("other", 1)));
    assert_eq!(ledger.cw20, vec![token("c20", 11), token("other", 1)]);
}

#[test]
fn order_of_merges_does_not_matter() {
    let start = native(vec![coin(1, "a")]);
    let first = Balance::Native(vec![coin(2, "b"), coin(3, "a")]);
    let second = Balance::Native(vec![coin(4, "c"), coin(5, "b")]);

    let mut one = start.clone();
    one.add_tokens(first.clone());
    one.add_tokens(second.clone());
    let mut other = start.clone();
    other.add_tokens(second);
    other.add_tokens(first);

    assert_eq!(one.native, vec![coin(4, "a"), coin(7, "b"), coin(4, "c")]);
    assert_eq!(other.native, vec![coin(4, "a"), coin(4, "c"), coin(7, "b")]);
    assert!(one == other);
    assert!(!one.same(&other));
}

#[test]
fn two_merges_are_one_merge_of_both_lists() {
    let mut stepwise = native(vec![coin(1, "a")]);
    stepwise.add_tokens(Balance::Native(vec![coin(2, "b")]));
    stepwise.add_tokens(Balance::Native(vec![coin(3, "a"), coin(4, "b")]));
    let mut at_once = native(vec![coin(1, "a")]);
    at_once.add_tokens(Balance::Native(vec![coin(2, "b"), coin(3, "a"), coin(4, "b")]));
    assert!(stepwise.same(&at_once));
    assert_eq!(at_once.native, vec![coin(4, "a"), coin(6, "b")]);
}

#[test]
fn can_add_tokens_tells_overflow() {
    let ledger = native(vec![coin(u128::MAX - 1, "a")]);
    assert!(ledger.can_add_tokens(&Balance::Native(vec![coin(1, "a")])));
    assert!(!ledger.can_add_tokens(&Balance::Native(vec![coin(2, "a")])));
    assert!(!ledger.can_add_tokens(&Balance::Native(vec![coin(1, "a"), coin(1, "a")])));
    assert!(ledger.can_add_tokens(&Balance::Native(vec![coin(u128::MAX, "b")])));
    assert!(ledger.can_add_tokens(&Balance::Cw20(token("a", u128::MAX))));
}

#[test]
fn a_token_is_held_once() {
    let mut ledger = genbal_from_nft(nft("c721", "1"));
    ledger.add_nft(nft("c721", "1"));
    assert_eq!(ledger.nfts, vec![nft("c721", "1")]);
    ledger.add_nft(nft("c721", "2"));
    ledger.add_nft(nft("other", "1"));
    assert_eq!(ledger.nfts, vec![nft("c721", "1"), nft("c721", "2"), nft("other", "1")]);
}

#[test]
fn order_of_tokens_does_not_matter() {
    let mut one = GenericBalance::new();
    one.add_nft(nft("c", "1"));
    one.add_nft(nft("c", "2"));
    let mut other = GenericBalance::new();
    other.add_nft(nft("c", "2"));
    other.add_nft(nft("c", "1"));
    assert!(one == other);
}

#[test]
fn ledgers_compare_without_regard_to_order() {
    let a = native(vec![coin(1, "a"), coin(2, "b")]);
    let b = native(vec![coin(2, "b"), coin(1, "a")]);
    let c = native(vec![coin(1, "a"), coin(3, "b")]);
    let d = native(vec![coin(1, "a"), coin(2, "b"), coin(0, "c")]);
    let e = native(vec![coin(1, "a"), coin(1, "a"), coin(2, "b")]);
    assert!(a == b);
    assert!(a != c);
    assert!(a != d);
    assert!(a != e);
    assert!(e != a);
    assert!(GenericBalance::new() == GenericBalance::new());
}

#[test]
fn ledgers_with_other_tokens_differ() {
    let mut a = native(vec![coin(1, "a")]);
    let mut b = native(vec![coin(1, "a")]);
    a.cw20.push(token("c20", 1));
    b.cw20.push(token("c20", 2));
    assert!(a != b);
    b.cw20[0].amount = 1;
    assert!(a == b);
    a.nfts.push(nft("c721", "1"));
    assert!(a != b);
    b.nfts.push(nft("c721", "1"));
    assert!(a == b);
}

#[test]
fn empty_deposits() {
    assert!(Balance::Native(vec![]).is_empty());
    assert!(Balance::Native(vec![coin(0, "a"), coin(0, "b")]).is_empty());
    assert!(!Balance::Native(vec![coin(0, "a"), coin(1, "b")]).is_empty());
    assert!(Balance::Cw20(token("c20", 0)).is_empty());
    assert!(!Balance::Cw20(token("c20", 1)).is_empty());
}

#[test]
fn a_deposit_becomes_a_ledger_as_it_came() {
    let from_native = Balance::Native(vec![coin(2, "b"), coin(0, "a")]).to_generic();
    assert_eq!(from_native.native, vec![coin(2, "b"), coin(0, "a")]);
    assert!(from_native.cw20.is_empty() && from_native.nfts.is_empty());
    let from_token = Balance::Cw20(token("c20", 4)).to_generic();
    assert_eq!(from_token.cw20, vec![token("c20", 4)]);
    assert!(from_token.native.is_empty() && from_token.nfts.is_empty());
}

#[test]
fn normalize_drops_zero_amounts_and_keeps_the_order() {
    let mut ask = native(vec![coin(0, "z"), coin(3, "b"), coin(0, "b"), coin(1, "a")]);
    ask.cw20.push(token("c20", 0));
    ask.cw20.push(token("c20", 0));
    ask.nfts.push(nft("c721", "1"));
    let got = normalize_ask_error_on_dup(ask).unwrap();
    assert_eq!(got.native, vec![coin(3, "b"), coin(1, "a")]);
    assert_eq!(got.cw20, vec![token("c20", 0), token("c20", 0)]);
    assert_eq!(got.nfts, vec![nft("c721", "1")]);
}

#[test]
fn normalize_refuses_a_denomination_named_twice() {
    let ask = native(vec![coin(3, "b"), coin(1, "a"), coin(4, "b")]);
    assert_eq!(normalize_ask_error_on_dup(ask).unwrap_err(), ContractError::DuplicateAskDenom);
    let empty = normalize_ask_error_on_dup(GenericBalance::new()).unwrap();
    assert!(empty.native.is_empty());
}
