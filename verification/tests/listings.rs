use juno_vaults::addr::Addr;
use juno_vaults::balance::{Balance, GenericBalance};
use juno_vaults::coin::{coin, coins, Cw20CoinVerified, Nft};
use juno_vaults::error::{ContractError, Resource};
use juno_vaults::execute::{
    execute_add_funds_to_sale, execute_add_to_sale_cw721, execute_change_ask,
    execute_create_listing, execute_create_listing_cw20, execute_create_listing_cw721,
    execute_finalize, execute_refund, execute_remove_listing,
};
use juno_vaults::msg::CreateListingMsg;
use juno_vaults::response::{Attribute, CosmosMsg, Response};
use juno_vaults::state::{Listing, State, Status, Timestamp};

const SECOND: u64 = 1_000_000_000;

fn at(seconds: u64) -> Timestamp {
    Timestamp::from_nanos(seconds * SECOND)
}

fn attribute(key: &str, value: &str) -> Attribute {
    Attribute { key: key.to_string(), value: value.to_string() }
}

fn native(amount: u128, denom: &str) -> GenericBalance {
    GenericBalance { native: coins(amount, denom), cw20: vec![], nfts: vec![] }
}

fn request(id: &str, ask: GenericBalance) -> CreateListingMsg {
    CreateListingMsg {
        id: id.to_string(),
        ask,
        whitelist_buyer_one: None,
        whitelist_buyer_two: None,
        whitelist_buyer_three: None,
    }
}

fn not_found() -> ContractError {
    ContractError::NotFound { typ: Resource::Listing }
}

fn with_listing(owner: &str, id: &str) -> State {
    let mut state = State::new();
    execute_create_listing(
        &mut state,
        &Addr::unchecked(owner),
        &Balance::Native(coins(100, "xcoin")),
        request(id, native(50, "ycoin")),
    )
    .unwrap();
    state
}

#[test]
fn create_listing_stores_a_listing_in_preparation() {
    let mut state = State::new();
    let alice = Addr::unchecked("alice");
    let mut msg = request(
        "L1",
        GenericBalance { native: vec![coin(0, "zero"), coin(50, "ycoin")], cw20: vec![], nfts: vec![] },
    );
    msg.whitelist_buyer_two = Some(Addr::unchecked("bob"));
    let res =
        execute_create_listing(&mut state, &alice, &Balance::Native(coins(100, "xcoin")), msg)
            .unwrap();
    assert_eq!(
        res,
        Response {
            messages: vec![],
            attributes: vec![
                attribute("action", "create_native_listing"),
                attribute("listing_id", "L1")
            ],
        }
    );
    assert_eq!(
        state.listings.may_load(&alice, "L1"),
        Some(Listing {
            creator: Addr::unchecked("alice"),
            id: "L1".to_string(),
            finalized_time: None,
            expiration_time: None,
            status: Status::BeingPrepared,
            for_sale: native(100, "xcoin"),
            ask: native(50, "ycoin"),
            claimant: None,
            whitelisted_buyer_one: None,
            whitelisted_buyer_two: Some(Addr::unchecked("bob")),
            whitelisted_buyer_three: None,
        })
    );
}

#[test]
fn create_listing_refusals() {
    let mut state = with_listing("alice", "L1");
    let bob = Addr::unchecked("bob");
    let alice = Addr::unchecked("alice");
    assert_eq!(
        execute_create_listing(
            &mut state,
            &bob,
            &Balance::Native(coins(0, "xcoin")),
            request("L2", native(1, "y"))
        ),
        Err(ContractError::EmptyDeposit)
    );
    assert_eq!(
        execute_create_listing(
            &mut state,
            &bob,
            &Balance::Native(coins(0, "xcoin")),
            request("L1", native(1, "y"))
        ),
        Err(ContractError::EmptyDeposit)
    );
    assert_eq!(
        execute_create_listing(
            &mut state,
            &bob,
            &Balance::Native(coins(1, "xcoin")),
            request("L1", native(1, "y"))
        ),
        Err(ContractError::IdAlreadyExists)
    );
    assert_eq!(
        execute_create_listing(
            &mut state,
            &alice,
            &Balance::Native(coins(1, "xcoin")),
            request("L1", native(1, "y"))
        ),
        Err(ContractError::IdAlreadyExists)
    );
    let twice = GenericBalance { native: vec![coin(1, "y"), coin(2, "y")], cw20: vec![], nfts: vec![] };
    assert_eq!(
        execute_create_listing(
            &mut state,
            &bob,
            &Balance::Native(coins(1, "xcoin")),
            request("L2", twice)
        ),
        Err(ContractError::DuplicateAskDenom)
    );
    assert_eq!(state.listings.item_by_id("L2"), None);
}

#[test]
fn an_id_is_free_again_after_its_listing_is_removed() {
    let mut state = with_listing("alice", "L1");
    let alice = Addr::unchecked("alice");
    let bob = Addr::unchecked("bob");
    assert_eq!(
        execute_create_listing(
            &mut state,
            &bob,
            &Balance::Native(coins(1, "xcoin")),
            request("L1", native(1, "y"))
        ),
        Err(ContractError::IdAlreadyExists)
    );
    execute_remove_listing(&mut state, &alice, "L1".to_string()).unwrap();
    execute_create_listing(
        &mut state,
        &bob,
        &Balance::Native(coins(1, "xcoin")),
        request("L1", native(1, "y")),
    )
    .unwrap();
    assert_eq!(state.listings.item_by_id("L1").unwrap().0, bob);
}

#[test]
fn create_listing_from_a_fungible_token() {
    let mut state = State::new();
    let alice = Addr::unchecked("alice");
    let token = Addr::unchecked("token");
    let deposit = Balance::Cw20(Cw20CoinVerified { address: token.clone(), amount: 7 });
    let res = execute_create_listing_cw20(
        &mut state,
        &alice,
        &token,
        &deposit,
        request("L1", native(50, "ycoin")),
    )
    .unwrap();
    assert_eq!(
        res.attributes,
        vec![
            attribute("action", "create_cw20_listing"),
            attribute("listing_id", "L1"),
            attribute("creator", "alice"),
        ]
    );
    let stored = state.listings.may_load(&alice, "L1").unwrap();
    assert_eq!(stored.for_sale.cw20, vec![Cw20CoinVerified { address: token.clone(), amount: 7 }]);
    assert!(stored.for_sale.native.is_empty());

    let nothing = Balance::Cw20(Cw20CoinVerified { address: token.clone(), amount: 0 });
    assert_eq!(
        execute_create_listing_cw20(
            &mut state,
            &alice,
            &token,
            &nothing,
            request("L2", native(50, "ycoin"))
        ),
        Err(ContractError::EmptyDeposit)
    );
    assert_eq!(
        execute_create_listing_cw20(
            &mut state,
            &alice,
            &token,
            &deposit,
            request("L1", native(50, "ycoin"))
        ),
        Err(ContractError::IdAlreadyExists)
    );
}

#[test]
fn create_listing_from_a_non_fungible_token() {
    let mut state = State::new();
    let alice = Addr::unchecked("alice");
    let art = Nft { contract_address: Addr::unchecked("art"), token_id: "7".to_string() };
    let res =
        execute_create_listing_cw721(&mut state, &alice, art.clone(), request("L1", native(5, "y")))
            .unwrap();
    assert_eq!(
        res.attributes,
        vec![
            attribute("action", "create_cw721_listing"),
            attribute("listing_id", "L1"),
            attribute("creator", "alice"),
        ]
    );
    assert_eq!(state.listings.may_load(&alice, "L1").unwrap().for_sale.nfts, vec![art.clone()]);
    assert_eq!(
        execute_create_listing_cw721(&mut state, &alice, art, request("L1", native(5, "y"))),
        Err(ContractError::IdAlreadyExists)
    );
}

#[test]
fn change_ask_replaces_the_ask() {
    let mut state = with_listing("alice", "L1");
    let alice = Addr::unchecked("alice");
    let new_ask =
        GenericBalance { native: vec![coin(0, "a"), coin(9, "b")], cw20: vec![], nfts: vec![] };
    let res = execute_change_ask(&mut state, &alice, "L1".to_string(), new_ask).unwrap();
    assert_eq!(
        res.attributes,
        vec![attribute("attribute", "change_listing_ask"), attribute("listing_id", "L1")]
    );
    let stored = state.listings.may_load(&alice, "L1").unwrap();
    assert_eq!(stored.ask.native, vec![coin(9, "b")]);
    assert_eq!(stored.for_sale.native, vec![coin(100, "xcoin")]);
}

#[test]
fn change_ask_refusals() {
    let mut state = with_listing("alice", "L1");
    let alice = Addr::unchecked("alice");
    let bob = Addr::unchecked("bob");
    assert_eq!(
        execute_change_ask(&mut state, &bob, "L1".to_string(), native(1, "y")),
        Err(not_found())
    );
    assert_eq!(
        execute_change_ask(&mut state, &alice, "L2".to_string(), native(1, "y")),
        Err(not_found())
    );
    let twice = GenericBalance { native: vec![coin(1, "y"), coin(2, "y")], cw20: vec![], nfts: vec![] };
    assert_eq!(
        execute_change_ask(&mut state, &alice, "L1".to_string(), twice),
        Err(ContractError::DuplicateAskDenom)
    );
    execute_finalize(&mut state, at(1000), &alice, "L1".to_string(), 600).unwrap();
    assert_eq!(
        execute_change_ask(&mut state, &alice, "L1".to_string(), native(1, "y")),
        Err(ContractError::AlreadyFinalized)
    );
    assert_eq!(state.listings.may_load(&alice, "L1").unwrap().ask, native(50, "ycoin"));
}

#[test]
fn a_record_of_another_creator_is_not_the_callers() {
    let mut state = State::new();
    let alice = Addr::unchecked("alice");
    let mut stray = with_listing("bob", "L1").listings.may_load(&Addr::unchecked("bob"), "L1").unwrap();
    stray.creator = Addr::unchecked("bob");
    state.listings.save(&alice, "L1", stray).unwrap();
    assert_eq!(
        execute_change_ask(&mut state, &alice, "L1".to_string(), native(1, "y")),
        Err(ContractError::Unauthorized)
    );
    assert_eq!(
        execute_remove_listing(&mut state, &alice, "L1".to_string()),
        Err(ContractError::Unauthorized)
    );
    assert_eq!(
        execute_finalize(&mut state, at(1), &alice, "L1".to_string(), 600),
        Err(ContractError::Unauthorized)
    );
    assert_eq!(
        execute_refund(&mut state, at(1), &alice, "L1".to_string()),
        Err(ContractError::Unauthorized)
    );
    assert_eq!(
        execute_add_funds_to_sale(
            &mut state,
            Balance::Native(coins(1, "xcoin")),
            &alice,
            "L1".to_string()
        ),
        Err(ContractError::Unauthorized)
    );
}

#[test]
fn add_funds_merges_into_the_sale() {
    let mut state = with_listing("alice", "L1");
    let alice = Addr::unchecked("alice");
    let res = execute_add_funds_to_sale(
        &mut state,
        Balance::Native(vec![coin(5, "xcoin"), coin(6, "zcoin")]),
        &alice,
        "L1".to_string(),
    )
    .unwrap();
    assert_eq!(
        res.attributes,
        vec![attribute("action", "add_funds_to_listing"), attribute("listing", "L1")]
    );
    execute_add_funds_to_sale(
        &mut state,
        Balance::Cw20(Cw20CoinVerified { address: Addr::unchecked("token"), amount: 3 }),
        &alice,
        "L1".to_string(),
    )
    .unwrap();
    let stored = state.listings.may_load(&alice, "L1").unwrap();
    assert_eq!(stored.for_sale.native, vec![coin(105, "xcoin"), coin(6, "zcoin")]);
    assert_eq!(
        stored.for_sale.cw20,
        vec![Cw20CoinVerified { address: Addr::unchecked("token"), amount: 3 }]
    );
}

#[test]
fn add_funds_refusals() {
    let mut state = with_listing("alice", "L1");
    let alice = Addr::unchecked("alice");
    assert_eq!(
        execute_add_funds_to_sale(
            &mut state,
            Balance::Native(coins(0, "xcoin")),
            &alice,
            "L9".to_string()
        ),
        Err(ContractError::EmptyDeposit)
    );
    assert_eq!(
        execute_add_funds_to_sale(
            &mut state,
            Balance::Native(coins(1, "xcoin")),
            &alice,
            "L9".to_string()
        ),
        Err(not_found())
    );
    assert_eq!(
        execute_add_funds_to_sale(
            &mut state,
            Balance::Native(vec![coin(0, "xcoin"), coin(1, "ycoin"), coin(0, "xcoin")]),
            &Addr::unchecked("bob"),
            "L1".to_string()
        ),
        Err(not_found())
    );
    execute_finalize(&mut state, at(1000), &alice, "L1".to_string(), 600).unwrap();
    assert_eq!(
        execute_add_funds_to_sale(
            &mut state,
            Balance::Native(coins(1, "xcoin")),
            &alice,
            "L1".to_string()
        ),
        Err(ContractError::AlreadyFinalized)
    );
    assert_eq!(
        execute_add_to_sale_cw721(
            &mut state,
            &alice,
            Nft { contract_address: Addr::unchecked("art"), token_id: "1".to_string() },
            "L1".to_string()
        ),
        Err(ContractError::AlreadyFinalized)
    );
    assert_eq!(
        state.listings.may_load(&alice, "L1").unwrap().for_sale.native,
        vec![coin(100, "xcoin")]
    );
}

#[test]
fn a_token_is_added_to_the_sale_once() {
    let mut state = with_listing("alice", "L1");
    let alice = Addr::unchecked("alice");
    let art = Nft { contract_address: Addr::unchecked("art"), token_id: "7".to_string() };
    assert_eq!(
        execute_add_to_sale_cw721(&mut state, &alice, art.clone(), "L1".to_string()),
        Ok(Response { messages: vec![], attributes: vec![] })
    );
    assert_eq!(
        execute_add_to_sale_cw721(&mut state, &alice, art.clone(), "L1".to_string()),
        Err(ContractError::NoChangeDetected)
    );
    assert_eq!(
        execute_add_to_sale_cw721(&mut state, &alice, art.clone(), "L2".to_string()),
        Err(not_found())
    );
    assert_eq!(state.listings.may_load(&alice, "L1").unwrap().for_sale.nfts, vec![art]);
}

#[test]
fn remove_listing_sends_the_sale_back() {
    let mut state = with_listing("alice", "L1");
    let alice = Addr::unchecked("alice");
    assert_eq!(
        execute_remove_listing(&mut state, &Addr::unchecked("bob"), "L1".to_string()),
        Err(not_found())
    );
    let res = execute_remove_listing(&mut state, &alice, "L1".to_string()).unwrap();
    assert_eq!(
        res,
        Response {
            messages: vec![CosmosMsg::BankSend {
                to_address: "alice".to_string(),
                amount: vec![coin(100, "xcoin")]
            }],
            attributes: vec![attribute("action", "remove_listing")],
        }
    );
    assert_eq!(state.listings.item_by_id("L1"), None);
    assert_eq!(execute_remove_listing(&mut state, &alice, "L1".to_string()), Err(not_found()));
}

#[test]
fn a_finalized_listing_cannot_be_removed() {
    let mut state = with_listing("alice", "L1");
    let alice = Addr::unchecked("alice");
    execute_finalize(&mut state, at(1000), &alice, "L1".to_string(), 600).unwrap();
    assert_eq!(
        execute_remove_listing(&mut state, &alice, "L1".to_string()),
        Err(ContractError::AlreadyFinalized)
    );
    assert!(state.listings.may_load(&alice, "L1").is_some());
}

#[test]
fn finalize_sets_the_times_and_the_status() {
    let mut state = with_listing("alice", "L1");
    let alice = Addr::unchecked("alice");
    let now = Timestamp::from_nanos(1000 * SECOND + 5);
    let res = execute_finalize(&mut state, now, &alice, "L1".to_string(), 3600).unwrap();
    assert_eq!(
        res,
        Response {
            messages: vec![],
            attributes: vec![
                attribute("action", "finalize"),
                attribute("listing_id", "L1"),
                attribute("expiration_seconds", "4600.000000005"),
            ],
        }
    );
    let stored = state.listings.may_load(&alice, "L1").unwrap();
    assert_eq!(stored.status, Status::FinalizedReady);
    assert_eq!(stored.finalized_time, Some(now));
    assert_eq!(stored.expiration_time, Some(Timestamp::from_nanos(4600 * SECOND + 5)));
    assert_eq!(stored.claimant, None);
    assert_eq!(stored.for_sale.native, vec![coin(100, "xcoin")]);
}

#[test]
fn finalize_duration_boundaries() {
    let alice = Addr::unchecked("alice");
    for (seconds, accepted) in [(599u64, false), (600, true), (1_209_600, true), (1_209_601, false)]
    {
        let mut state = with_listing("alice", "L1");
        let res = execute_finalize(&mut state, at(1000), &alice, "L1".to_string(), seconds);
        let stored = state.listings.may_load(&alice, "L1").unwrap();
        if accepted {
            assert!(res.is_ok());
            assert_eq!(stored.status, Status::FinalizedReady);
            assert_eq!(stored.expiration_time, Some(at(1000 + seconds)));
        } else {
            assert_eq!(res, Err(ContractError::InvalidExpirationWindow));
            assert_eq!(stored.status, Status::BeingPrepared);
            assert_eq!(stored.expiration_time, None);
        }
    }
    let mut state = with_listing("alice", "L1");
    assert_eq!(
        execute_finalize(&mut state, at(1000), &alice, "L1".to_string(), 0),
        Err(ContractError::InvalidExpirationWindow)
    );
    assert_eq!(
        execute_finalize(&mut state, at(1000), &alice, "L1".to_string(), u64::MAX),
        Err(ContractError::InvalidExpirationWindow)
    );
}

#[test]
fn finalize_refusals() {
    let mut state = with_listing("alice", "L1");
    let alice = Addr::unchecked("alice");
    assert_eq!(
        execute_finalize(&mut state, at(1000), &Addr::unchecked("bob"), "L1".to_string(), 600),
        Err(not_found())
    );
    assert_eq!(
        execute_finalize(&mut state, at(1000), &alice, "L2".to_string(), 600),
        Err(not_found())
    );
    execute_finalize(&mut state, at(1000), &alice, "L1".to_string(), 600).unwrap();
    assert_eq!(
        execute_finalize(&mut state, at(2000), &alice, "L1".to_string(), 700),
        Err(ContractError::AlreadyFinalized)
    );
    assert_eq!(
        execute_finalize(&mut state, at(2000), &alice, "L1".to_string(), 1),
        Err(ContractError::AlreadyFinalized)
    );
    assert_eq!(state.listings.may_load(&alice, "L1").unwrap().expiration_time, Some(at(1600)));
}

#[test]
fn refund_waits_for_the_expiration() {
    let mut state = with_listing("alice", "L1");
    let alice = Addr::unchecked("alice");
    assert_eq!(
        execute_refund(&mut state, at(5000), &alice, "L1".to_string()),
        Err(ContractError::Unauthorized)
    );
    execute_finalize(&mut state, at(1000), &alice, "L1".to_string(), 600).unwrap();
    assert_eq!(
        execute_refund(&mut state, at(1599), &alice, "L1".to_string()),
        Err(ContractError::NotYetExpired)
    );
    assert_eq!(
        execute_refund(&mut state, Timestamp::from_nanos(1600 * SECOND - 1), &alice, "L1".to_string()),
        Err(ContractError::NotYetExpired)
    );
    assert_eq!(
        execute_refund(&mut state, at(1700), &Addr::unchecked("bob"), "L1".to_string()),
        Err(not_found())
    );
    assert!(state.listings.may_load(&alice, "L1").is_some());
    let res = execute_refund(&mut state, at(1600), &alice, "L1".to_string()).unwrap();
    assert_eq!(
        res,
        Response {
            messages: vec![CosmosMsg::BankSend {
                to_address: "alice".to_string(),
                amount: vec![coin(100, "xcoin")]
            }],
            attributes: vec![attribute("action", "refund")],
        }
    );
    assert_eq!(state.listings.item_by_id("L1"), None);
    assert_eq!(execute_refund(&mut state, at(1700), &alice, "L1".to_string()), Err(not_found()));
}

#[test]
fn refund_of_a_listing_without_expiration() {
    let mut state = State::new();
    let alice = Addr::unchecked("alice");
    let mut odd = with_listing("alice", "L1").listings.may_load(&alice, "L1").unwrap();
    odd.status = Status::FinalizedReady;
    state.listings.save(&alice, "L1", odd).unwrap();
    assert_eq!(
        execute_refund(&mut state, at(5000), &alice, "L1".to_string()),
        Err(ContractError::MissingExpiration)
    );
}
