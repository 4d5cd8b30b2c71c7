use juno_vaults::addr::Addr;
use juno_vaults::balance::GenericBalance;
use juno_vaults::coin::coin;
use juno_vaults::error::ContractError;
use juno_vaults::state::{Bucket, Listing, ListingStore, State, Status, Timestamp};
use juno_vaults::storage::{RecordKey, Table};

fn record(creator: &str, id: &str, amount: u128) -> Listing {
    Listing {
        creator: Addr::unchecked(creator),
        id: id.to_string(),
        finalized_time: None,
        expiration_time: None,
        status: Status::BeingPrepared,
        for_sale: GenericBalance { native: vec![coin(amount, "a")], cw20: vec![], nfts: vec![] },
        ask: GenericBalance::new(),
        claimant: None,
        whitelisted_buyer_one: None,
        whitelisted_buyer_two: None,
        whitelisted_buyer_three: None,
    }
}

#[test]
fn table_holds_one_value_per_key() {
    let mut table: Table<RecordKey, Bucket> = Table::new();
    let alice = Addr::unchecked("alice");
    let bob = Addr::unchecked("bob");
    let bucket = |owner: &Addr, amount: u128| Bucket {
        funds: GenericBalance { native: vec![coin(amount, "a")], cw20: vec![], nfts: vec![] },
        owner: owner.clone(),
    };
    assert!(!table.has(&RecordKey::new(&alice, "1")));
    table.set(RecordKey::new(&alice, "1"), bucket(&alice, 1));
    table.set(RecordKey::new(&bob, "1"), bucket(&bob, 2));
    table.set(RecordKey::new(&alice, "2"), bucket(&alice, 3));
    table.set(RecordKey::new(&alice, "1"), bucket(&alice, 4));
    assert!(table.has(&RecordKey::new(&alice, "1")));
    assert_eq!(table.get(&RecordKey::new(&alice, "1")), Some(&bucket(&alice, 4)));
    assert_eq!(table.get(&RecordKey::new(&bob, "1")), Some(&bucket(&bob, 2)));
    assert_eq!(table.get(&RecordKey::new(&bob, "2")), None);
    assert_eq!(table.remove(&RecordKey::new(&alice, "1")), Some(bucket(&alice, 4)));
    assert_eq!(table.remove(&RecordKey::new(&alice, "1")), None);
    assert_eq!(table.get(&RecordKey::new(&alice, "2")), Some(&bucket(&alice, 3)));
    assert_eq!(table.get(&RecordKey::new(&bob, "1")), Some(&bucket(&bob, 2)));
}

#[test]
fn listings_are_found_by_key_and_by_id() {
    let mut store = ListingStore::new();
    let alice = Addr::unchecked("alice");
    let bob = Addr::unchecked("bob");
    assert_eq!(store.save(&alice, "one", record("alice", "one", 1)), Ok(()));
    assert_eq!(store.save(&bob, "two", record("bob", "two", 2)), Ok(()));
    assert_eq!(store.may_load(&alice, "one"), Some(record("alice", "one", 1)));
    assert_eq!(store.may_load(&bob, "one"), None);
    assert_eq!(store.item_by_id("two"), Some((Addr::unchecked("bob"), record("bob", "two", 2))));
    assert_eq!(store.item_by_id("three"), None);
}

#[test]
fn an_id_belongs_to_one_holder() {
    let mut store = ListingStore::new();
    let alice = Addr::unchecked("alice");
    let bob = Addr::unchecked("bob");
    store.save(&alice, "one", record("alice", "one", 1)).unwrap();
    assert_eq!(
        store.save(&bob, "one", record("bob", "one", 2)),
        Err(ContractError::IdAlreadyExists)
    );
    assert_eq!(store.may_load(&bob, "one"), None);
    assert_eq!(store.item_by_id("one"), Some((Addr::unchecked("alice"), record("alice", "one", 1))));
    assert_eq!(store.save(&alice, "one", record("alice", "one", 3)), Ok(()));
    assert_eq!(store.may_load(&alice, "one"), Some(record("alice", "one", 3)));
    store.remove(&alice, "one");
    assert_eq!(store.item_by_id("one"), None);
    assert_eq!(store.save(&bob, "one", record("bob", "one", 2)), Ok(()));
    assert_eq!(store.item_by_id("one"), Some((Addr::unchecked("bob"), record("bob", "one", 2))));
    store.remove(&alice, "one");
    assert_eq!(store.may_load(&bob, "one"), Some(record("bob", "one", 2)));
}

#[test]
fn replace_wants_the_record_that_is_stored() {
    let mut store = ListingStore::new();
    let alice = Addr::unchecked("alice");
    let stored = record("alice", "one", 1);
    assert_eq!(
        store.replace(&alice, "one", Some(record("alice", "one", 1)), Some(&stored)),
        Err(ContractError::ConcurrentModification)
    );
    assert_eq!(store.replace(&alice, "one", Some(record("alice", "one", 1)), None), Ok(()));
    assert_eq!(
        store.replace(&alice, "one", Some(record("alice", "one", 2)), None),
        Err(ContractError::ConcurrentModification)
    );
    assert_eq!(
        store.replace(&alice, "one", Some(record("alice", "one", 2)), Some(&record("alice", "one", 5))),
        Err(ContractError::ConcurrentModification)
    );
    assert_eq!(store.may_load(&alice, "one"), Some(record("alice", "one", 1)));
    assert_eq!(store.replace(&alice, "one", Some(record("alice", "one", 2)), Some(&stored)), Ok(()));
    assert_eq!(store.may_load(&alice, "one"), Some(record("alice", "one", 2)));
    assert_eq!(
        store.replace(&alice, "one", None, Some(&stored)),
        Err(ContractError::ConcurrentModification)
    );
    assert_eq!(store.replace(&alice, "one", None, Some(&record("alice", "one", 2))), Ok(()));
    assert_eq!(store.may_load(&alice, "one"), None);
    assert_eq!(store.replace(&alice, "one", None, None), Ok(()));
}

#[test]
fn replace_compares_ledgers_entry_by_entry() {
    let mut store = ListingStore::new();
    let alice = Addr::unchecked("alice");
    let mut stored = record("alice", "one", 1);
    stored.for_sale.native.push(coin(2, "b"));
    store.save(&alice, "one", stored.clone()).unwrap();
    let mut reordered = stored.clone();
    reordered.for_sale.native.reverse();
    assert!(reordered == stored);
    assert!(!reordered.same(&stored));
    assert_eq!(
        store.replace(&alice, "one", None, Some(&reordered)),
        Err(ContractError::ConcurrentModification)
    );
    assert_eq!(store.replace(&alice, "one", None, Some(&stored)), Ok(()));
}

#[test]
fn replace_keeps_ids_unique() {
    let mut store = ListingStore::new();
    let alice = Addr::unchecked("alice");
    let bob = Addr::unchecked("bob");
    store.save(&alice, "one", record("alice", "one", 1)).unwrap();
    assert_eq!(
        store.replace(&bob, "one", Some(record("bob", "one", 2)), None),
        Err(ContractError::IdAlreadyExists)
    );
    assert_eq!(store.item_by_id("one"), Some((Addr::unchecked("alice"), record("alice", "one", 1))));
}

#[test]
fn a_new_marketplace_is_empty() {
    let state = State::new();
    assert_eq!(state.listings.item_by_id("one"), None);
    assert!(!state.buckets.has(&RecordKey::new(&Addr::unchecked("alice"), "one")));
}

#[test]
fn times_add_seconds() {
    let t = Timestamp::from_nanos(5);
    assert_eq!(t.plus_seconds(0), Timestamp { nanos: 5 });
    assert_eq!(t.plus_seconds(600), Timestamp { nanos: 600_000_000_005 });
    assert_eq!(
        Timestamp::from_nanos(u64::MAX - 1_209_600_000_000_000).plus_seconds(1_209_600),
        Timestamp { nanos: u64::MAX }
    );
}
