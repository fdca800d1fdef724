use terraswap_mock::codec::encode_ping;
use terraswap_mock::dispatch::{
    execute, instantiate, mock_balance_info, mock_pair_info, mock_pool_info, mock_token_info,
    query,
};
use terraswap_mock::fixture::{get_liq_token_addr, set_liq_token_addr, FixtureConfig};
use terraswap_mock::ledger::Ledger;
use terraswap_mock::msgs::{
    AssetInfo, Cw20ReceiveMsg, MockError, MockExecuteMsg, MockInstantiateMsg, MockQueryMsg,
    PingMsg, QueryAnswer,
};

fn receive(payload_envelope: String) -> MockExecuteMsg {
    MockExecuteMsg::Receive(Cw20ReceiveMsg {
        sender: "sender0000".to_string(),
        amount: 1,
        msg: payload_envelope,
    })
}

#[test]
fn instantiate_returns_empty_response() {
    let resp = instantiate(MockInstantiateMsg {});
    assert_eq!(resp.attributes.len(), 0);
    assert_eq!(resp.messages.len(), 0);
    assert!(resp.data.is_none());
}

#[test]
fn receive_answers_pong_with_payload() {
    let mut l = Ledger::new();
    let r = execute(&mut l, "caller".to_string(), receive(encode_ping(&PingMsg { payload: "ping me".to_string() })), false);
    let resp = r.unwrap_or_else(|_| panic!("receive failed"));
    assert_eq!(resp.data, Some("ping me".to_string()));
    assert_eq!(resp.attributes.len(), 1);
    assert_eq!(resp.attributes[0].key, "action".to_string());
    assert_eq!(resp.attributes[0].value, "pong".to_string());
    assert_eq!(resp.messages.len(), 0);
}

#[test]
fn receive_with_escaped_payload_round_trips() {
    let mut l = Ledger::new();
    let r = execute(&mut l, "caller".to_string(), receive(encode_ping(&PingMsg { payload: "a\"b\\c".to_string() })), false);
    let resp = r.unwrap_or_else(|_| panic!("receive failed"));
    assert_eq!(resp.data, Some("a\"b\\c".to_string()));
}

#[test]
fn receive_malformed_payload_is_decode_error() {
    let mut l = Ledger::new();
    let r = execute(&mut l, "caller".to_string(), receive("{\"payload\":3}".to_string()), false);
    assert!(matches!(r, Err(MockError::DecodeError)));
}

#[test]
fn transfers_accumulate() {
    let mut l = Ledger::new();
    let r1 = execute(
        &mut l,
        "alice".to_string(),
        MockExecuteMsg::Transfer { recipient: "bob".to_string(), amount: 5 },
        true,
    );
    assert!(r1.is_ok());
    let r2 = execute(
        &mut l,
        "alice".to_string(),
        MockExecuteMsg::Transfer { recipient: "bob".to_string(), amount: 7 },
        true,
    );
    assert!(r2.is_ok());
    assert_eq!(l.balance_of(&"bob".to_string()), 12);
}

#[test]
fn transfer_attributes_name_the_parties_and_amount() {
    let mut l = Ledger::new();
    let r = execute(
        &mut l,
        "alice".to_string(),
        MockExecuteMsg::Transfer { recipient: "bob".to_string(), amount: 12345 },
        true,
    );
    let resp = r.unwrap_or_else(|_| panic!("transfer failed"));
    assert_eq!(resp.attributes.len(), 4);
    assert_eq!(resp.attributes[0].key, "action".to_string());
    assert_eq!(resp.attributes[0].value, "transfer".to_string());
    assert_eq!(resp.attributes[1].key, "from".to_string());
    assert_eq!(resp.attributes[1].value, "alice".to_string());
    assert_eq!(resp.attributes[2].key, "to".to_string());
    assert_eq!(resp.attributes[2].value, "bob".to_string());
    assert_eq!(resp.attributes[3].key, "amount".to_string());
    assert_eq!(resp.attributes[3].value, "12345".to_string());
}

#[test]
fn transfer_to_invalid_address_fails_and_leaves_ledger() {
    let mut l = Ledger::new();
    execute(
        &mut l,
        "alice".to_string(),
        MockExecuteMsg::Transfer { recipient: "bob".to_string(), amount: 5 },
        true,
    )
    .unwrap_or_else(|_| panic!("transfer failed"));
    let before = l.balance_of(&"bob".to_string());
    let r = execute(
        &mut l,
        "alice".to_string(),
        MockExecuteMsg::Transfer { recipient: "NOT AN ADDRESS".to_string(), amount: 9 },
        false,
    );
    assert!(matches!(r, Err(MockError::InvalidAddress)));
    assert_eq!(l.balance_of(&"bob".to_string()), before);
    assert_eq!(l.balance_of(&"NOT AN ADDRESS".to_string()), 0);
}

#[test]
fn mint_and_burn_change_no_balance() {
    let mut l = Ledger::new();
    execute(
        &mut l,
        "alice".to_string(),
        MockExecuteMsg::Transfer { recipient: "bob".to_string(), amount: 5 },
        true,
    )
    .unwrap_or_else(|_| panic!("transfer failed"));
    let r1 = execute(
        &mut l,
        "alice".to_string(),
        MockExecuteMsg::Mint { recipient: "bob".to_string(), amount: 1000 },
        true,
    );
    let resp1 = r1.unwrap_or_else(|_| panic!("mint failed"));
    assert_eq!(resp1.attributes.len(), 0);
    assert_eq!(resp1.messages.len(), 0);
    assert!(resp1.data.is_none());
    let r2 = execute(&mut l, "alice".to_string(), MockExecuteMsg::Burn { amount: 1000 }, true);
    let resp2 = r2.unwrap_or_else(|_| panic!("burn failed"));
    assert_eq!(resp2.attributes.len(), 0);
    assert_eq!(l.balance_of(&"bob".to_string()), 5);
    assert_eq!(l.balance_of(&"alice".to_string()), 0);
}

#[test]
fn send_attaches_the_envelope() {
    let mut l = Ledger::new();
    let r = execute(
        &mut l,
        "alice".to_string(),
        MockExecuteMsg::Send {
            contract: "receiver0000".to_string(),
            amount: 44,
            msg: "{\"payload\":\"fwd\"}".to_string(),
        },
        false,
    );
    let resp = r.unwrap_or_else(|_| panic!("send failed"));
    assert_eq!(resp.messages.len(), 1);
    assert_eq!(resp.messages[0].contract, "receiver0000".to_string());
    assert_eq!(resp.messages[0].envelope.sender, "alice".to_string());
    assert_eq!(resp.messages[0].envelope.amount, 44);
    assert_eq!(resp.messages[0].envelope.msg, "{\"payload\":\"fwd\"}".to_string());
    assert_eq!(resp.attributes.len(), 0);
    assert_eq!(l.balance_of(&"alice".to_string()), 0);
}

#[test]
fn balance_query_is_always_ten() {
    let mut l = Ledger::new();
    let cfg = FixtureConfig::new();
    execute(
        &mut l,
        "alice".to_string(),
        MockExecuteMsg::Transfer { recipient: "bob".to_string(), amount: 5000 },
        true,
    )
    .unwrap_or_else(|_| panic!("transfer failed"));
    for addr in ["bob", "alice", "nobody"] {
        let a = query(&l, &cfg, MockQueryMsg::Balance { address: addr.to_string() });
        match a {
            QueryAnswer::Balance(b) => assert_eq!(b.balance, 10),
            _ => panic!("wrong answer variant"),
        }
    }
    assert_eq!(mock_balance_info().balance, 10);
}

#[test]
fn liquidity_token_setter_feeds_pair_query() {
    let mut cfg = FixtureConfig::new();
    assert_eq!(get_liq_token_addr(&cfg), "string".to_string());
    let stored = set_liq_token_addr(&mut cfg, "addr1".to_string());
    assert_eq!(stored, "addr1".to_string());
    assert_eq!(get_liq_token_addr(&cfg), "addr1".to_string());
    let l = Ledger::new();
    match query(&l, &cfg, MockQueryMsg::Pair {}) {
        QueryAnswer::Pair(p) => {
            assert_eq!(p.liquidity_token, "addr1".to_string());
            assert_eq!(p.contract_addr, "pair0000".to_string());
            for info in &p.asset_infos {
                match info {
                    AssetInfo::NativeToken { denom } => assert_eq!(denom, "uusd"),
                    AssetInfo::Token { .. } => panic!("expected a native token"),
                }
            }
        }
        _ => panic!("wrong answer variant"),
    }
}

#[test]
fn pool_query_is_constant_whatever_happened_before() {
    let mut l = Ledger::new();
    let cfg = FixtureConfig::new();
    execute(
        &mut l,
        "alice".to_string(),
        MockExecuteMsg::Transfer { recipient: "bob".to_string(), amount: 123 },
        true,
    )
    .unwrap_or_else(|_| panic!("transfer failed"));
    execute(
        &mut l,
        "alice".to_string(),
        MockExecuteMsg::Mint { recipient: "bob".to_string(), amount: 9 },
        true,
    )
    .unwrap_or_else(|_| panic!("mint failed"));
    execute(&mut l, "alice".to_string(), MockExecuteMsg::Burn { amount: 9 }, true)
        .unwrap_or_else(|_| panic!("burn failed"));
    match query(&l, &cfg, MockQueryMsg::Pool {}) {
        QueryAnswer::Pool(p) => {
            assert_eq!(p.total_share, 1000);
            assert_eq!(p.assets[0].amount, 10000);
            assert_eq!(p.assets[1].amount, 10000);
            match &p.assets[0].info {
                AssetInfo::NativeToken { denom } => assert_eq!(denom, "token"),
                AssetInfo::Token { .. } => panic!("expected a native token"),
            }
            match &p.assets[1].info {
                AssetInfo::NativeToken { denom } => assert_eq!(denom, "uusd"),
                AssetInfo::Token { .. } => panic!("expected a native token"),
            }
        }
        _ => panic!("wrong answer variant"),
    }
    let pool = mock_pool_info();
    assert_eq!(pool.total_share, 1000);
}

#[test]
fn token_info_is_fixed() {
    let l = Ledger::new();
    let cfg = FixtureConfig::new();
    match query(&l, &cfg, MockQueryMsg::TokenInfo {}) {
        QueryAnswer::TokenInfo(t) => {
            assert_eq!(t.name, "MyToken".to_string());
            assert_eq!(t.symbol, "TOKEN".to_string());
            assert_eq!(t.decimals, 6);
            assert_eq!(t.total_supply, 100_000_000_000_000u128);
        }
        _ => panic!("wrong answer variant"),
    }
    let t = mock_token_info();
    assert_eq!(t.symbol, "TOKEN".to_string());
    let p = mock_pair_info(&FixtureConfig::new());
    assert_eq!(p.liquidity_token, "string".to_string());
}
