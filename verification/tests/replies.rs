use rfinex::exchanges::rfinex::reply::{
    account_from_json, accounts_from_json, decode_accounts, decode_depth, decode_markets,
    decode_order, decode_order_id, depth_from_json, level_from_json, market_from_json,
    markets_from_json, order_from_json, order_id_from_json,
};
use rfinex::exchanges::rfinex::Rfinex;
use rfinex::json::{parse, Json, Number};
use rfinex::traits::exchange::{Exchange, ExchangeError, Method, Request};

fn text(s: &str) -> Json {
    Json::Text(s.to_string())
}

fn object(members: Vec<(&str, Json)>) -> Json {
    Json::Object(members.into_iter().map(|(name, value)| (name.to_string(), value)).collect())
}

fn pairs(levels: &[(&str, &str)]) -> Vec<(String, String)> {
    levels.iter().map(|(p, v)| (p.to_string(), v.to_string())).collect()
}

#[test]
fn depth_is_decoded_from_its_body() {
    let depth = decode_depth(r#"{"body":{"ask":[["1.0","2.0"]],"bid":[]}}"#).unwrap();
    assert_eq!(depth.asks, pairs(&[("1.0", "2.0")]));
    assert_eq!(depth.bids, pairs(&[]));
    let price: f64 = depth.asks[0].0.parse().unwrap();
    let volume: f64 = depth.asks[0].1.parse().unwrap();
    assert_eq!((price, volume), (1.0, 2.0));
}

#[test]
fn depth_keeps_the_order_of_its_levels() {
    let body = r#"{"body":{"bid":[["9","1"],["8.5","2"],["8","3"]],"ask":[["10","1"],["11","0.5"]]}}"#;
    let depth = decode_depth(body).unwrap();
    assert_eq!(depth.asks, pairs(&[("10", "1"), ("11", "0.5")]));
    assert_eq!(depth.bids, pairs(&[("9", "1"), ("8.5", "2"), ("8", "3")]));
}

#[test]
fn depth_may_be_empty_on_both_sides() {
    let depth = decode_depth(r#"{"body":{"ask":[],"bid":[]}}"#).unwrap();
    assert!(depth.asks.is_empty());
    assert!(depth.bids.is_empty());
}

#[test]
fn depth_without_body_is_a_decode_error() {
    assert_eq!(decode_depth(r#"{"ask":[],"bid":[]}"#).unwrap_err(), ExchangeError::Decode);
    assert_eq!(decode_depth(r#"{}"#).unwrap_err(), ExchangeError::Decode);
    assert_eq!(decode_depth(r#"[]"#).unwrap_err(), ExchangeError::Decode);
    assert_eq!(decode_depth(r#"{"body":null}"#).unwrap_err(), ExchangeError::Decode);
}

#[test]
fn depth_with_a_price_that_is_no_number_is_a_decode_error() {
    let body = r#"{"body":{"ask":[["1.0","2.0"],["abc","2.0"]],"bid":[]}}"#;
    assert_eq!(decode_depth(body).unwrap_err(), ExchangeError::Decode);
    let body = r#"{"body":{"ask":[],"bid":[["1.0",""]]}}"#;
    assert_eq!(decode_depth(body).unwrap_err(), ExchangeError::Decode);
}

#[test]
fn depth_with_a_price_that_is_no_string_is_a_decode_error() {
    let body = r#"{"body":{"ask":[[1.0,"2.0"]],"bid":[]}}"#;
    assert_eq!(decode_depth(body).unwrap_err(), ExchangeError::Decode);
}

#[test]
fn depth_with_a_short_level_is_a_decode_error() {
    let body = r#"{"body":{"ask":[["1.0"]],"bid":[]}}"#;
    assert_eq!(decode_depth(body).unwrap_err(), ExchangeError::Decode);
    let body = r#"{"body":{"ask":["1.0"],"bid":[]}}"#;
    assert_eq!(decode_depth(body).unwrap_err(), ExchangeError::Decode);
}

#[test]
fn depth_with_a_missing_side_is_a_decode_error() {
    assert_eq!(decode_depth(r#"{"body":{"ask":[]}}"#).unwrap_err(), ExchangeError::Decode);
    assert_eq!(decode_depth(r#"{"body":{"bid":[]}}"#).unwrap_err(), ExchangeError::Decode);
    assert_eq!(
        decode_depth(r#"{"body":{"ask":{},"bid":[]}}"#).unwrap_err(),
        ExchangeError::Decode
    );
}

#[test]
fn text_that_is_no_json_is_a_decode_error() {
    for body in ["", "not json", "{", r#"{"body":}"#, r#"{"body":{}} trailing"#] {
        assert_eq!(decode_depth(body).unwrap_err(), ExchangeError::Decode);
        assert_eq!(decode_order(body).unwrap_err(), ExchangeError::Decode);
        assert_eq!(decode_order_id(body).unwrap_err(), ExchangeError::Decode);
        assert_eq!(decode_accounts(body).unwrap_err(), ExchangeError::Decode);
        assert_eq!(decode_markets(body).unwrap_err(), ExchangeError::Decode);
        assert_eq!(parse(body).unwrap_err(), ExchangeError::Decode);
    }
}

#[test]
fn level_takes_price_and_volume_from_the_front() {
    let level = Json::Array(vec![text("1.5"), text("2"), text("extra")]);
    assert_eq!(level_from_json(&level), Some(("1.5".to_string(), "2".to_string())));
    assert_eq!(level_from_json(&Json::Array(vec![text("1.5")])), None);
    assert_eq!(level_from_json(&Json::Array(vec![text("1.5"), Json::Null])), None);
    assert_eq!(level_from_json(&text("1.5")), None);
}

#[test]
fn depth_is_read_from_a_value() {
    let reply = object(vec![(
        "body",
        object(vec![
            ("ask", Json::Array(vec![Json::Array(vec![text("1.0"), text("2.0")])])),
            ("bid", Json::Array(vec![])),
        ]),
    )]);
    let depth = depth_from_json(&reply).unwrap();
    assert_eq!(depth.asks, pairs(&[("1.0", "2.0")]));
    assert!(depth.bids.is_empty());
    assert_eq!(depth_from_json(&Json::Null).unwrap_err(), ExchangeError::Decode);
}

#[test]
fn order_is_decoded_from_its_body() {
    let body = r#"{"body":{"id":"7","state":"wait","price":1.5,"origin_volume":2}}"#;
    let order = decode_order(body).unwrap();
    assert_eq!(order.id, "7");
    assert_eq!(order.state, "wait");
    assert_eq!(order.price, "1.5");
    assert_eq!(order.origin_volume, "2");
    assert_eq!(order.price.parse::<f64>().unwrap(), 1.5);
    assert_eq!(order.origin_volume.parse::<f64>().unwrap(), 2.0);
}

#[test]
fn order_numbers_keep_their_value() {
    let body = r#"{"body":{"id":"7","state":"done","price":-3,"origin_volume":1e-7}}"#;
    let order = decode_order(body).unwrap();
    assert_eq!(order.price.parse::<f64>().unwrap(), -3.0);
    assert_eq!(order.origin_volume.parse::<f64>().unwrap(), 1e-7);
    let body = r#"{"body":{"id":"7","state":"done","price":18446744073709551615,"origin_volume":123456789012345678901234567890}}"#;
    let order = decode_order(body).unwrap();
    assert_eq!(order.price, "18446744073709551615");
    assert_eq!(order.price.parse::<f64>().unwrap(), 18446744073709551615u64 as f64);
    assert_eq!(order.origin_volume.parse::<f64>().unwrap(), 123456789012345678901234567890.0);
}

#[test]
fn order_with_a_price_that_is_a_string_is_a_decode_error() {
    let body = r#"{"body":{"id":"7","state":"wait","price":"1.5","origin_volume":2}}"#;
    assert_eq!(decode_order(body).unwrap_err(), ExchangeError::Decode);
}

#[test]
fn order_with_a_missing_member_is_a_decode_error() {
    for body in [
        r#"{"body":{"state":"wait","price":1.5,"origin_volume":2}}"#,
        r#"{"body":{"id":"7","price":1.5,"origin_volume":2}}"#,
        r#"{"body":{"id":"7","state":"wait","origin_volume":2}}"#,
        r#"{"body":{"id":"7","state":"wait","price":1.5}}"#,
        r#"{"body":{"id":7,"state":"wait","price":1.5,"origin_volume":2}}"#,
        r#"{"id":"7","state":"wait","price":1.5,"origin_volume":2}"#,
    ] {
        assert_eq!(decode_order(body).unwrap_err(), ExchangeError::Decode);
    }
}

#[test]
fn order_is_read_from_a_value() {
    let reply = object(vec![(
        "body",
        object(vec![
            ("id", text("7")),
            ("state", text("wait")),
            ("price", Json::Number(Number::Unsigned(15))),
            ("origin_volume", Json::Number(Number::Signed(-2))),
        ]),
    )]);
    let order = order_from_json(&reply).unwrap();
    assert_eq!(order.price, "15");
    assert_eq!(order.origin_volume, "-2");
}

#[test]
fn order_with_a_number_that_states_no_amount_is_refused() {
    let reply = object(vec![(
        "body",
        object(vec![
            ("id", text("7")),
            ("state", text("wait")),
            ("price", Json::Number(Number::Real("1.5".to_string()))),
            ("origin_volume", Json::Number(Number::Real("much".to_string()))),
        ]),
    )]);
    assert_eq!(order_from_json(&reply).unwrap_err(), ExchangeError::Decode);
}

#[test]
fn order_id_is_the_number_in_decimal() {
    assert_eq!(decode_order_id(r#"{"body":{"id":12345}}"#).unwrap(), "12345");
    assert_eq!(decode_order_id(r#"{"body":{"id":0}}"#).unwrap(), "0");
    assert_eq!(
        decode_order_id(r#"{"body":{"id":18446744073709551615}}"#).unwrap(),
        "18446744073709551615"
    );
}

#[test]
fn order_id_that_is_no_unsigned_integer_is_a_decode_error() {
    for body in [
        r#"{"body":{"id":"12345"}}"#,
        r#"{"body":{"id":-1}}"#,
        r#"{"body":{"id":1.5}}"#,
        r#"{"body":{"id":1.0}}"#,
        r#"{"body":{"id":18446744073709551616}}"#,
        r#"{"body":{"id":null}}"#,
        r#"{"body":{}}"#,
        r#"{"id":12345}"#,
    ] {
        assert_eq!(decode_order_id(body).unwrap_err(), ExchangeError::Decode);
    }
}

#[test]
fn order_id_is_read_from_a_value() {
    let reply = object(vec![("body", object(vec![("id", Json::Number(Number::Unsigned(9)))]))]);
    assert_eq!(order_id_from_json(&reply).unwrap(), "9");
    let reply = object(vec![("body", object(vec![("id", Json::Number(Number::Signed(9)))]))]);
    assert_eq!(order_id_from_json(&reply).unwrap_err(), ExchangeError::Decode);
}

#[test]
fn accounts_are_filed_by_asset() {
    let body = r#"{"body":[{"currency":"btc","balance":"1.5","locked":"0.5"},{"currency":"usdt","balance":"100","locked":"0"}]}"#;
    let accounts = decode_accounts(body).unwrap();
    assert_eq!(accounts.len(), 2);
    let btc = accounts.get("btc").unwrap();
    assert_eq!((btc.asset.as_str(), btc.free.as_str(), btc.locked.as_str()), ("btc", "1.5", "0.5"));
    let usdt = accounts.get("usdt").unwrap();
    assert_eq!((usdt.free.as_str(), usdt.locked.as_str()), ("100", "0"));
    assert!(accounts.get("eth").is_none());
}

#[test]
fn last_account_of_an_asset_wins() {
    let body = r#"{"body":[{"currency":"btc","balance":"1","locked":"0"},{"currency":"btc","balance":"2","locked":"3"}]}"#;
    let accounts = decode_accounts(body).unwrap();
    assert_eq!(accounts.len(), 1);
    let btc = accounts.get("btc").unwrap();
    assert_eq!((btc.free.as_str(), btc.locked.as_str()), ("2", "3"));
    assert_eq!(accounts.entries().len(), 1);
}

#[test]
fn last_account_wins_among_others() {
    let body = r#"{"body":[{"currency":"a","balance":"1","locked":"0"},{"currency":"b","balance":"2","locked":"0"},{"currency":"a","balance":"3","locked":"0"},{"currency":"c","balance":"4","locked":"0"},{"currency":"b","balance":"5","locked":"0"}]}"#;
    let accounts = decode_accounts(body).unwrap();
    assert_eq!(accounts.len(), 3);
    assert_eq!(accounts.get("a").unwrap().free, "3");
    assert_eq!(accounts.get("b").unwrap().free, "5");
    assert_eq!(accounts.get("c").unwrap().free, "4");
}

#[test]
fn no_accounts_give_an_empty_mapping() {
    let accounts = decode_accounts(r#"{"body":[]}"#).unwrap();
    assert_eq!(accounts.len(), 0);
    assert!(accounts.get("btc").is_none());
}

#[test]
fn accounts_with_a_bad_entry_are_a_decode_error() {
    for body in [
        r#"{"body":[{"currency":"btc","balance":"1","locked":"x"}]}"#,
        r#"{"body":[{"currency":"btc","balance":1,"locked":"0"}]}"#,
        r#"{"body":[{"currency":"btc","locked":"0"}]}"#,
        r#"{"body":[{"balance":"1","locked":"0"}]}"#,
        r#"{"body":[{"currency":"btc","balance":"1","locked":"0"},7]}"#,
        r#"{"body":{"currency":"btc","balance":"1","locked":"0"}}"#,
        r#"{"nobody":[]}"#,
    ] {
        assert_eq!(decode_accounts(body).unwrap_err(), ExchangeError::Decode);
    }
}

#[test]
fn accounts_are_read_from_a_value() {
    let entry = object(vec![("currency", text("btc")), ("balance", text("1")), ("locked", text("0"))]);
    let account = account_from_json(&entry).unwrap();
    assert_eq!(account.asset, "btc");
    let reply = object(vec![("body", Json::Array(vec![entry]))]);
    assert_eq!(accounts_from_json(&reply).unwrap().len(), 1);
    assert!(account_from_json(&Json::Null).is_none());
}

#[test]
fn markets_are_decoded_in_their_order() {
    let body = r#"{"body":[{"id":"btcusdt","base_unit":"btc","quote_unit":"usdt"},{"id":"ethbtc","base_unit":"eth","quote_unit":"btc"},{"id":"btccnst","base_unit":"btc","quote_unit":"cnst"}]}"#;
    let markets = decode_markets(body).unwrap();
    let seen: Vec<(&str, &str, &str)> = markets
        .iter()
        .map(|m| (m.id.as_str(), m.base_unit.as_str(), m.quote_unit.as_str()))
        .collect();
    assert_eq!(
        seen,
        vec![("btcusdt", "btc", "usdt"), ("ethbtc", "eth", "btc"), ("btccnst", "btc", "cnst")]
    );
}

#[test]
fn markets_with_a_bad_entry_are_a_decode_error() {
    for body in [
        r#"{"body":[{"id":"btcusdt","base_unit":"btc"}]}"#,
        r#"{"body":[{"id":1,"base_unit":"btc","quote_unit":"usdt"}]}"#,
        r#"{"body":[{"id":"btcusdt","base_unit":"btc","quote_unit":"usdt"},null]}"#,
        r#"{"body":"markets"}"#,
        r#"{}"#,
    ] {
        assert_eq!(decode_markets(body).unwrap_err(), ExchangeError::Decode);
    }
}

#[test]
fn markets_are_read_from_a_value() {
    let entry = object(vec![("id", text("btcusdt")), ("base_unit", text("btc")), ("quote_unit", text("usdt"))]);
    assert_eq!(market_from_json(&entry).unwrap().quote_unit, "usdt");
    let reply = object(vec![("body", Json::Array(vec![entry]))]);
    assert_eq!(markets_from_json(&reply).unwrap().len(), 1);
    assert!(market_from_json(&text("btcusdt")).is_none());
}

#[test]
fn get_markets_end_to_end_with_a_stub_transport() {
    let fixed = r#"{"body":[{"id":"btcusdt","base_unit":"btc","quote_unit":"usdt"},{"id":"ethusdt","base_unit":"eth","quote_unit":"usdt"}]}"#;
    let transport = |request: &Request| -> Result<String, ExchangeError> {
        assert_eq!(request.method, Method::Get);
        assert_eq!(request.url, "https://rfinex.vip/api/v2/markets?");
        Ok(fixed.to_string())
    };
    let exchange = Rfinex::new("rfinex.vip", "v2", "access", "secret");
    let request = exchange.get_markets_request();
    let body = transport(&request).unwrap();
    let markets = exchange.get_markets_reply(&body).unwrap();
    assert_eq!(markets.len(), 2);
    assert_eq!(markets[0].id, "btcusdt");
    assert_eq!(markets[0].base_unit, "btc");
    assert_eq!(markets[0].quote_unit, "usdt");
    assert_eq!(markets[1].id, "ethusdt");
    assert_eq!(markets[1].base_unit, "eth");
    assert_eq!(markets[1].quote_unit, "usdt");
}

#[test]
fn replies_of_the_trait_are_decoded_like_the_bodies() {
    let exchange = Rfinex::new("rfinex.vip", "v2", "access", "secret");
    let depth = exchange.get_depth_reply(r#"{"body":{"ask":[],"bid":[["1","2"]]}}"#).unwrap();
    assert_eq!(depth.bids, pairs(&[("1", "2")]));
    assert_eq!(exchange.create_order_reply(r#"{"body":{"id":5}}"#).unwrap(), "5");
    let order = exchange
        .get_order_reply(r#"{"body":{"id":"5","state":"done","price":1,"origin_volume":2}}"#)
        .unwrap();
    assert_eq!(order.state, "done");
    let accounts = exchange
        .get_accounts_reply(r#"{"body":[{"currency":"btc","balance":"1","locked":"0"}]}"#)
        .unwrap();
    assert_eq!(accounts.len(), 1);
    assert_eq!(exchange.get_depth_reply("{}").unwrap_err(), ExchangeError::Decode);
}
