use juno_vaults::addr::Addr;
use juno_vaults::balance::GenericBalance;
use juno_vaults::coin::{coin, coins, Cw20CoinVerified, Nft};
use juno_vaults::contract::{can_execute, execute, execute_receive, execute_receive_nft, MessageInfo};
use juno_vaults::error::{ContractError, Resource};
use juno_vaults::msg::{
    CreateListingMsg, Cw20ReceiveMsg, Cw721ReceiveMsg, ExecuteMsg, ReceiveMsg, ReceiveNftMsg,
};
use juno_vaults::query::{
    get_all_listings, get_buckets, get_listing_info, get_listings_by_owner,
    get_listings_for_market, BucketEntry, MARKET_PAGE_SIZE,
};
use juno_vaults::response::CosmosMsg;
use juno_vaults::state::{Bucket, State, Status, Timestamp};
use juno_vaults::storage::RecordKey;

const SECOND: u64 = 1_000_000_000;

fn at(seconds: u64) -> Timestamp {
    Timestamp::from_nanos(seconds * SECOND)
}

fn from(sender: &str, funds: Vec<juno_vaults::coin::Coin>) -> MessageInfo {
    MessageInfo { sender: Addr::unchecked(sender), funds }
}

fn native(amount: u128, denom: &str) -> GenericBalance {
    GenericBalance { native: coins(amount, denom), cw20: vec![], nfts: vec![] }
}

fn create(id: &str, ask: GenericBalance) -> CreateListingMsg {
    CreateListingMsg {
        id: id.to_string(),
        ask,
        whitelist_buyer_one: None,
        whitelist_buyer_two: None,
        whitelist_buyer_three: None,
    }
}

fn run(state: &mut State, now: u64, info: MessageInfo, msg: ExecuteMsg) -> Result<Vec<CosmosMsg>, ContractError> {
    assert!(can_execute(state, at(now), &info, &msg));
    execute(state, at(now), info, msg).map(|r| r.messages)
}

#[test]
fn requests_run_the_whole_trade() {
    let mut state = State::new();
    run(
        &mut state,
        1000,
        from("seller", coins(100, "xcoin")),
        ExecuteMsg::CreateListing { create_msg: create("L1", native(50, "ycoin")) },
    )
    .unwrap();
    run(
        &mut state,
        1000,
        from("seller", coins(5, "xcoin")),
        ExecuteMsg::AddFundsToSaleNative { listing_id: "L1".to_string() },
    )
    .unwrap();
    run(
        &mut state,
        1000,
        from("seller", vec![]),
        ExecuteMsg::ChangeAsk { listing_id: "L1".to_string(), new_ask: native(60, "ycoin") },
    )
    .unwrap();
    run(
        &mut state,
        1000,
        from("seller", vec![]),
        ExecuteMsg::Finalize { listing_id: "L1".to_string(), seconds: 600 },
    )
    .unwrap();
    run(
        &mut state,
        1001,
        from("buyer", coins(50, "ycoin")),
        ExecuteMsg::CreateBucket { bucket_id: "B1".to_string() },
    )
    .unwrap();
    assert_eq!(
        run(
            &mut state,
            1002,
            from("buyer", vec![]),
            ExecuteMsg::BuyListing { listing_id: "L1".to_string(), bucket_id: "B1".to_string() },
        ),
        Err(ContractError::FundsMismatch)
    );
    run(
        &mut state,
        1002,
        from("buyer", coins(10, "ycoin")),
        ExecuteMsg::AddToBucket { bucket_id: "B1".to_string() },
    )
    .unwrap();
    run(
        &mut state,
        1003,
        from("buyer", vec![]),
        ExecuteMsg::BuyListing { listing_id: "L1".to_string(), bucket_id: "B1".to_string() },
    )
    .unwrap();
    assert_eq!(
        run(
            &mut state,
            1004,
            from("buyer", vec![]),
            ExecuteMsg::WithdrawPurchased { listing_id: "L1".to_string() },
        ),
        Ok(vec![CosmosMsg::BankSend {
            to_address: "buyer".to_string(),
            amount: vec![coin(105, "xcoin")]
        }])
    );
    assert_eq!(
        run(
            &mut state,
            1005,
            from("seller", vec![]),
            ExecuteMsg::RemoveBucket { bucket_id: "B1".to_string() },
        ),
        Ok(vec![CosmosMsg::BankSend {
            to_address: "seller".to_string(),
            amount: vec![coin(60, "ycoin")]
        }])
    );
    assert!(get_all_listings(&state).is_empty());
}

#[test]
fn requests_remove_and_refund() {
    let mut state = State::new();
    for id in ["L1", "L2"] {
        run(
            &mut state,
            1000,
            from("seller", coins(100, "xcoin")),
            ExecuteMsg::CreateListing { create_msg: create(id, native(50, "ycoin")) },
        )
        .unwrap();
    }
    assert_eq!(
        run(
            &mut state,
            1000,
            from("seller", vec![]),
            ExecuteMsg::RemoveListing { listing_id: "L1".to_string() },
        ),
        Ok(vec![CosmosMsg::BankSend {
            to_address: "seller".to_string(),
            amount: vec![coin(100, "xcoin")]
        }])
    );
    run(
        &mut state,
        1000,
        from("seller", vec![]),
        ExecuteMsg::Finalize { listing_id: "L2".to_string(), seconds: 600 },
    )
    .unwrap();
    assert_eq!(
        run(
            &mut state,
            1599,
            from("seller", vec![]),
            ExecuteMsg::RefundExpired { listing_id: "L2".to_string() },
        ),
        Err(ContractError::NotYetExpired)
    );
    assert!(run(
        &mut state,
        1600,
        from("seller", vec![]),
        ExecuteMsg::RefundExpired { listing_id: "L2".to_string() },
    )
    .is_ok());
    assert_eq!(
        run(
            &mut state,
            1000,
            from("seller", vec![]),
            ExecuteMsg::CreateListing { create_msg: create("L3", native(50, "ycoin")) },
        ),
        Err(ContractError::EmptyDeposit)
    );
}

#[test]
fn a_token_contract_reports_deposits() {
    let mut state = State::new();
    let token = || from("token", vec![]);
    let report = |amount: u128, msg: ReceiveMsg| Cw20ReceiveMsg {
        sender: Addr::unchecked("alice"),
        amount,
        msg,
    };
    execute_receive(
        &mut state,
        token(),
        report(7, ReceiveMsg::CreateListingCw20 { create_msg: create("L1", native(1, "y")) }),
    )
    .unwrap();
    execute_receive(
        &mut state,
        token(),
        report(3, ReceiveMsg::AddFundsToSaleCw20 { listing_id: "L1".to_string() }),
    )
    .unwrap();
    execute_receive(
        &mut state,
        token(),
        report(4, ReceiveMsg::CreateBucketCw20 { bucket_id: "B1".to_string() }),
    )
    .unwrap();
    assert!(run(
        &mut state,
        1,
        token(),
        ExecuteMsg::Receive(report(5, ReceiveMsg::AddToBucketCw20 { bucket_id: "B1".to_string() }))
    )
    .is_ok());
    assert_eq!(
        execute_receive(
            &mut state,
            token(),
            report(0, ReceiveMsg::AddToBucketCw20 { bucket_id: "B1".to_string() }),
        ),
        Err(ContractError::EmptyDeposit)
    );
    let alice = Addr::unchecked("alice");
    assert_eq!(
        state.listings.may_load(&alice, "L1").unwrap().for_sale.cw20,
        vec![Cw20CoinVerified { address: Addr::unchecked("token"), amount: 10 }]
    );
    assert_eq!(
        state.buckets.get(&RecordKey::new(&alice, "B1")).unwrap().funds.cw20,
        vec![Cw20CoinVerified { address: Addr::unchecked("token"), amount: 9 }]
    );
    // the depositor holds the records, not the token contract
    assert_eq!(state.listings.may_load(&Addr::unchecked("token"), "L1"), None);
}

#[test]
fn a_token_contract_reports_deposited_tokens() {
    let mut state = State::new();
    let art = || from("art", vec![]);
    let report = |token_id: &str, msg: ReceiveNftMsg| Cw721ReceiveMsg {
        sender: Addr::unchecked("alice"),
        token_id: token_id.to_string(),
        msg,
    };
    let held = |id: &str| Nft { contract_address: Addr::unchecked("art"), token_id: id.to_string() };
    execute_receive_nft(
        &mut state,
        art(),
        report("1", ReceiveNftMsg::CreateListingCw721 { create_msg: create("L1", native(1, "y")) }),
    )
    .unwrap();
    execute_receive_nft(
        &mut state,
        art(),
        report("2", ReceiveNftMsg::AddToListingCw721 { listing_id: "L1".to_string() }),
    )
    .unwrap();
    execute_receive_nft(
        &mut state,
        art(),
        report("3", ReceiveNftMsg::CreateBucketCw721 { bucket_id: "B1".to_string() }),
    )
    .unwrap();
    assert!(run(
        &mut state,
        1,
        art(),
        ExecuteMsg::ReceiveNft(report(
            "4",
            ReceiveNftMsg::AddToBucketCw721 { bucket_id: "B1".to_string() }
        ))
    )
    .is_ok());
    assert_eq!(
        execute_receive_nft(
            &mut state,
            art(),
            report("4", ReceiveNftMsg::AddToBucketCw721 { bucket_id: "B1".to_string() }),
        ),
        Err(ContractError::NoChangeDetected)
    );
    assert_eq!(
        execute_receive_nft(
            &mut state,
            art(),
            report("4", ReceiveNftMsg::AddToBucketCw721 { bucket_id: "B9".to_string() }),
        ),
        Err(ContractError::NotFound { typ: Resource::Bucket })
    );
    let alice = Addr::unchecked("alice");
    assert_eq!(state.listings.may_load(&alice, "L1").unwrap().for_sale.nfts, vec![held("1"), held("2")]);
    assert_eq!(
        state.buckets.get(&RecordKey::new(&alice, "B1")).unwrap().funds.nfts,
        vec![held("3"), held("4")]
    );
}

#[test]
fn requests_beyond_the_machine_are_told_apart() {
    let mut state = State::new();
    run(
        &mut state,
        1,
        from("alice", coins(u128::MAX, "xcoin")),
        ExecuteMsg::CreateListing { create_msg: create("L1", native(1, "y")) },
    )
    .unwrap();
    run(
        &mut state,
        1,
        from("alice", coins(u128::MAX - 1, "xcoin")),
        ExecuteMsg::CreateBucket { bucket_id: "B1".to_string() },
    )
    .unwrap();
    let add_sale = ExecuteMsg::AddFundsToSaleNative { listing_id: "L1".to_string() };
    let add_bucket = ExecuteMsg::AddToBucket { bucket_id: "B1".to_string() };
    assert!(!can_execute(&state, at(1), &from("alice", coins(1, "xcoin")), &add_sale));
    assert!(can_execute(&state, at(1), &from("alice", coins(1, "other")), &add_sale));
    assert!(can_execute(&state, at(1), &from("bob", coins(1, "xcoin")), &add_sale));
    assert!(can_execute(&state, at(1), &from("alice", coins(1, "xcoin")), &add_bucket));
    assert!(!can_execute(&state, at(1), &from("alice", coins(2, "xcoin")), &add_bucket));
    let late = Timestamp::from_nanos(u64::MAX - 600 * SECOND);
    let finalize = |seconds: u64| ExecuteMsg::Finalize { listing_id: "L1".to_string(), seconds };
    assert!(can_execute(&state, late, &from("alice", vec![]), &finalize(600)));
    assert!(!can_execute(&state, late, &from("alice", vec![]), &finalize(601)));
    assert!(can_execute(&state, late, &from("alice", vec![]), &finalize(599)));
    assert!(can_execute(&state, late, &from("alice", vec![]), &finalize(u64::MAX)));
    let token_report = ExecuteMsg::Receive(Cw20ReceiveMsg {
        sender: Addr::unchecked("alice"),
        amount: 5,
        msg: ReceiveMsg::AddFundsToSaleCw20 { listing_id: "L1".to_string() },
    });
    assert!(can_execute(&state, at(1), &from("token", vec![]), &token_report));
}

#[test]
fn listings_are_reported() {
    let mut state = State::new();
    for (who, id) in [("alice", "L1"), ("bob", "L2"), ("alice", "L3")] {
        run(
            &mut state,
            1000,
            from(who, coins(100, "xcoin")),
            ExecuteMsg::CreateListing { create_msg: create(id, native(50, "ycoin")) },
        )
        .unwrap();
    }
    run(
        &mut state,
        1000,
        from("alice", vec![]),
        ExecuteMsg::Finalize { listing_id: "L3".to_string(), seconds: 600 },
    )
    .unwrap();
    let ids = |list: Vec<juno_vaults::state::Listing>| -> Vec<String> {
        let mut ids: Vec<String> = list.into_iter().map(|l| l.id).collect();
        ids.sort();
        ids
    };
    assert_eq!(ids(get_all_listings(&state)), vec!["L1", "L2", "L3"]);
    assert_eq!(ids(get_listings_by_owner(&state, &Addr::unchecked("alice"))), vec!["L1", "L3"]);
    assert_eq!(ids(get_listings_by_owner(&state, &Addr::unchecked("bob"))), vec!["L2"]);
    assert!(get_listings_by_owner(&state, &Addr::unchecked("carl")).is_empty());
    assert_eq!(ids(get_listings_for_market(&state, 0)), vec!["L3"]);
    assert!(get_listings_for_market(&state, 1).is_empty());
    let info = get_listing_info(&state, "L3").unwrap();
    assert_eq!(info.creator, Addr::unchecked("alice"));
    assert_eq!(info.status, Status::FinalizedReady);
    assert_eq!(get_listing_info(&state, "L9"), None);
}

#[test]
fn the_market_comes_in_pages() {
    let mut state = State::new();
    let total = 2 * MARKET_PAGE_SIZE + 3;
    for i in 0..total {
        let id = format!("L{i}");
        run(
            &mut state,
            1000,
            from("alice", coins(1, "xcoin")),
            ExecuteMsg::CreateListing { create_msg: create(&id, native(50, "ycoin")) },
        )
        .unwrap();
        run(
            &mut state,
            1000,
            from("alice", vec![]),
            ExecuteMsg::Finalize { listing_id: id, seconds: 600 },
        )
        .unwrap();
    }
    let pages: Vec<Vec<juno_vaults::state::Listing>> =
        (0..4).map(|p| get_listings_for_market(&state, p)).collect();
    assert_eq!(pages[0].len(), MARKET_PAGE_SIZE);
    assert_eq!(pages[1].len(), MARKET_PAGE_SIZE);
    assert_eq!(pages[2].len(), 3);
    assert_eq!(pages[3].len(), 0);
    assert!(get_listings_for_market(&state, 255).is_empty());
    let mut seen: Vec<String> = pages.into_iter().flatten().map(|l| l.id).collect();
    seen.sort();
    seen.dedup();
    assert_eq!(seen.len(), total);
}

#[test]
fn buckets_are_reported() {
    let mut state = State::new();
    for (who, id, amount) in [("alice", "B1", 1u128), ("bob", "B1", 2), ("alice", "B2", 3)] {
        run(
            &mut state,
            1000,
            from(who, coins(amount, "xcoin")),
            ExecuteMsg::CreateBucket { bucket_id: id.to_string() },
        )
        .unwrap();
    }
    let mut got = get_buckets(&state, &Addr::unchecked("alice"));
    got.sort_by(|a, b| a.id.cmp(&b.id));
    assert_eq!(
        got,
        vec![
            BucketEntry {
                id: "B1".to_string(),
                bucket: Bucket { funds: native(1, "xcoin"), owner: Addr::unchecked("alice") }
            },
            BucketEntry {
                id: "B2".to_string(),
                bucket: Bucket { funds: native(3, "xcoin"), owner: Addr::unchecked("alice") }
            },
        ]
    );
    assert!(get_buckets(&state, &Addr::unchecked("carl")).is_empty());
    assert_eq!(state.buckets.len(), 3);
    assert_eq!(state.listings.len(), 0);
    assert!(state.buckets.entry(3).is_none());
    assert!(state.buckets.entry(0).is_some());
}
