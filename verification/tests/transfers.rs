use juno_vaults::addr::Addr;
use juno_vaults::balance::GenericBalance;
use juno_vaults::coin::{coin, Cw20CoinVerified, Nft};
use juno_vaults::error::ContractError;
use juno_vaults::response::{Attribute, CosmosMsg, Response};
use juno_vaults::utils::{
    calc_fee, get_whitelisted_addresses, send_tokens_cosmos, transfer_messages, COMMUNITY_POOL,
};

fn bank(to: &str, amount: Vec<juno_vaults::coin::Coin>) -> CosmosMsg {
    CosmosMsg::BankSend { to_address: to.to_string(), amount }
}

fn call(contract: &str, json: &str) -> CosmosMsg {
    CosmosMsg::WasmExecute {
        contract_addr: contract.to_string(),
        msg: json.as_bytes().to_vec(),
        funds: vec![],
    }
}

fn mixed_ledger() -> GenericBalance {
    GenericBalance {
        native: vec![coin(5, "a"), coin(6, "b")],
        cw20: vec![
            Cw20CoinVerified { address: Addr::unchecked("token1"), amount: 10 },
            Cw20CoinVerified { address: Addr::unchecked("token2"), amount: 0 },
        ],
        nfts: vec![Nft { contract_address: Addr::unchecked("art"), token_id: "7".to_string() }],
    }
}

#[test]
fn transfers_come_as_bank_then_tokens_then_nfts() {
    let msgs = send_tokens_cosmos(&Addr::unchecked("alice"), &mixed_ledger()).unwrap();
    assert_eq!(
        msgs,
        vec![
            bank("alice", vec![coin(5, "a"), coin(6, "b")]),
            call("token1", r#"{"transfer":{"recipient":"alice","amount":"10"}}"#),
            call("token2", r#"{"transfer":{"recipient":"alice","amount":"0"}}"#),
            call("art", r#"{"transfer_nft":{"recipient":"alice","token_id":"7"}}"#),
        ]
    );
}

#[test]
fn no_bank_transfer_without_native_coins() {
    let mut ledger = mixed_ledger();
    ledger.native.clear();
    let msgs = send_tokens_cosmos(&Addr::unchecked("bob"), &ledger).unwrap();
    assert_eq!(msgs.len(), 3);
    assert_eq!(msgs[0], call("token1", r#"{"transfer":{"recipient":"bob","amount":"10"}}"#));
    assert_eq!(send_tokens_cosmos(&Addr::unchecked("bob"), &GenericBalance::new()), Ok(vec![]));
}

#[test]
fn messages_are_assembled_from_given_payloads() {
    let ledger = mixed_ledger();
    let to = Addr::unchecked("alice");
    let got = transfer_messages(&to, &ledger, &vec![vec![1], vec![2, 2]], &vec![vec![3]]).unwrap();
    assert_eq!(
        got,
        vec![
            bank("alice", vec![coin(5, "a"), coin(6, "b")]),
            CosmosMsg::WasmExecute {
                contract_addr: "token1".to_string(),
                msg: vec![1],
                funds: vec![]
            },
            CosmosMsg::WasmExecute {
                contract_addr: "token2".to_string(),
                msg: vec![2, 2],
                funds: vec![]
            },
            CosmosMsg::WasmExecute { contract_addr: "art".to_string(), msg: vec![3], funds: vec![] },
        ]
    );
    assert_eq!(transfer_messages(&to, &ledger, &vec![vec![1]], &vec![vec![3]]), None);
    assert_eq!(transfer_messages(&to, &ledger, &vec![vec![1], vec![2]], &vec![]), None);
}

#[test]
fn fee_is_a_thousandth_rounded_down() {
    let ledger = GenericBalance { native: vec![coin(1000, "ujunox")], cw20: vec![], nfts: vec![] };
    let (fee_msg, rest) = calc_fee(&ledger).unwrap();
    assert_eq!(fee_msg, bank(COMMUNITY_POOL, vec![coin(1, "ujunox")]));
    assert_eq!(rest.native, vec![coin(999, "ujunox")]);

    let ledger = GenericBalance { native: vec![coin(2999, "ujunox")], cw20: vec![], nfts: vec![] };
    let (fee_msg, rest) = calc_fee(&ledger).unwrap();
    assert_eq!(fee_msg, bank(COMMUNITY_POOL, vec![coin(2, "ujunox")]));
    assert_eq!(rest.native, vec![coin(2997, "ujunox")]);

    let ledger =
        GenericBalance { native: vec![coin(u128::MAX, "ujunox")], cw20: vec![], nfts: vec![] };
    let (fee_msg, rest) = calc_fee(&ledger).unwrap();
    assert_eq!(fee_msg, bank(COMMUNITY_POOL, vec![coin(u128::MAX / 1000, "ujunox")]));
    assert_eq!(rest.native, vec![coin(u128::MAX - u128::MAX / 1000, "ujunox")]);
}

#[test]
fn no_fee_on_dust_or_other_denominations() {
    let dust = GenericBalance { native: vec![coin(999, "ujunox")], cw20: vec![], nfts: vec![] };
    assert_eq!(calc_fee(&dust), None);
    let zero = GenericBalance { native: vec![coin(0, "ujunox")], cw20: vec![], nfts: vec![] };
    assert_eq!(calc_fee(&zero), None);
    let other = GenericBalance { native: vec![coin(5000, "uatom")], cw20: vec![], nfts: vec![] };
    assert_eq!(calc_fee(&other), None);
    assert_eq!(calc_fee(&GenericBalance::new()), None);
    let token_only = GenericBalance {
        native: vec![],
        cw20: vec![Cw20CoinVerified { address: Addr::unchecked("ujunox"), amount: 5000 }],
        nfts: vec![],
    };
    assert_eq!(calc_fee(&token_only), None);
}

#[test]
fn fee_leaves_the_rest_of_the_balance() {
    let mut ledger = mixed_ledger();
    ledger.native = vec![coin(5, "a"), coin(5000, "ujunox"), coin(6, "b")];
    let (fee_msg, rest) = calc_fee(&ledger).unwrap();
    assert_eq!(fee_msg, bank(COMMUNITY_POOL, vec![coin(5, "ujunox")]));
    assert_eq!(rest.native, vec![coin(5, "a"), coin(6, "b"), coin(4995, "ujunox")]);
    assert_eq!(rest.cw20, ledger.cw20);
    assert_eq!(rest.nfts, ledger.nfts);
}

#[test]
fn community_pool_address() {
    assert_eq!(COMMUNITY_POOL, "juno1jv65s3grqf6v6jl3dp4t6c9t9rk99cd83d88wr");
}

#[test]
fn named_buyers_of_a_request() {
    assert_eq!(get_whitelisted_addresses(None), Ok(None));
    assert_eq!(get_whitelisted_addresses(Some(vec![])), Ok(None));
    assert_eq!(
        get_whitelisted_addresses(Some(vec![
            Some(Addr::unchecked("a")),
            Some(Addr::unchecked("b"))
        ])),
        Ok(Some(vec![Addr::unchecked("a"), Addr::unchecked("b")]))
    );
    assert_eq!(
        get_whitelisted_addresses(Some(vec![Some(Addr::unchecked("a")), None])),
        Err(ContractError::InvalidAddressFormat)
    );
}

#[test]
fn responses_are_built_in_order() {
    let res = Response::new()
        .add_attribute("k1", "v1")
        .add_message(bank("a", vec![]))
        .add_attribute("k2", "v2")
        .add_messages(vec![bank("b", vec![]), bank("c", vec![])]);
    assert_eq!(
        res.attributes,
        vec![
            Attribute { key: "k1".to_string(), value: "v1".to_string() },
            Attribute { key: "k2".to_string(), value: "v2".to_string() },
        ]
    );
    assert_eq!(res.messages, vec![bank("a", vec![]), bank("b", vec![]), bank("c", vec![])]);
    assert_eq!(
        CosmosMsg::send(&Addr::unchecked("a"), &vec![coin(1, "x")]),
        bank("a", vec![coin(1, "x")])
    );
    assert_eq!(
        CosmosMsg::execute(&Addr::unchecked("c"), vec![9]),
        CosmosMsg::WasmExecute { contract_addr: "c".to_string(), msg: vec![9], funds: vec![] }
    );
}

#[test]
fn fee_and_rest_sum_to_the_balance() {
    for amount in [1000u128, 1001, 1999, 2000, 123_456_789, u128::MAX] {
        let ledger = GenericBalance {
            native: vec![coin(3, "a"), coin(amount, "ujunox")],
            cw20: vec![],
            nfts: vec![],
        };
        let (fee_msg, rest) = calc_fee(&ledger).unwrap();
        let fee = match fee_msg {
            CosmosMsg::BankSend { to_address, amount } => {
                assert_eq!(to_address, COMMUNITY_POOL);
                assert_eq!(amount.len(), 1);
                assert_eq!(amount[0].denom, "ujunox");
                amount[0].amount
            }
            other => panic!("not a bank transfer: {other:?}"),
        };
        assert_eq!(fee, amount / 1000);
        assert_eq!(rest.native, vec![coin(3, "a"), coin(amount - fee, "ujunox")]);
    }
}
