use rfinex::json::{parse, Json, Number};
use rfinex::report::get_markets_with_different_quotes;
use rfinex::traits::accounts::Accounts;
use rfinex::traits::exchange::{Account, ExchangeError, Market};

fn account(asset: &str, free: &str, locked: &str) -> Account {
    Account { asset: asset.to_string(), free: free.to_string(), locked: locked.to_string() }
}

fn market(id: &str, base: &str, quote: &str) -> Market {
    Market { id: id.to_string(), base_unit: base.to_string(), quote_unit: quote.to_string() }
}

fn ids<'a>(group: &[&'a Market]) -> Vec<&'a str> {
    group.iter().map(|m| m.id.as_str()).collect()
}

#[test]
fn errors_describe_themselves() {
    assert_eq!(ExchangeError::Network.message(), "unable to request to exchange");
    assert_eq!(ExchangeError::Decode.message(), "unable to parse json content");
}

#[test]
fn json_text_is_parsed_into_a_value() {
    let value = parse(r#" {"a":[1,-2,1.5,"x",true,null],"b":{}} "#).unwrap();
    let a = value.get("a").unwrap().as_array().unwrap();
    assert_eq!(a.len(), 6);
    assert_eq!(a[0].as_u64(), Some(1));
    assert!(matches!(a[0], Json::Number(Number::Unsigned(1))));
    assert!(matches!(a[1], Json::Number(Number::Signed(-2))));
    assert!(matches!(&a[2], Json::Number(Number::Real(text)) if text == "1.5"));
    assert_eq!(a[1].as_u64(), None);
    assert_eq!(a[2].as_u64(), None);
    assert_eq!(a[3].as_str(), Some("x"));
    assert!(matches!(a[4], Json::Bool(true)));
    assert!(matches!(a[5], Json::Null));
    assert!(matches!(value.get("b"), Some(Json::Object(members)) if members.is_empty()));
    assert!(value.get("c").is_none());
}

#[test]
fn json_accessors_refuse_other_kinds() {
    let s = Json::Text("x".to_string());
    assert!(s.get("x").is_none());
    assert!(s.as_array().is_none());
    assert!(s.as_number().is_none());
    assert!(s.as_u64().is_none());
    assert!(Json::Null.as_str().is_none());
    assert!(Json::Array(vec![]).get("0").is_none());
}

#[test]
fn json_member_is_found_by_its_whole_name() {
    let value = parse(r#"{"body":1,"bod":2,"body2":3}"#).unwrap();
    assert_eq!(value.get("body").unwrap().as_u64(), Some(1));
    assert_eq!(value.get("bod").unwrap().as_u64(), Some(2));
    assert!(value.get("bo").is_none());
    assert!(value.get("Body").is_none());
}

#[test]
fn json_repeated_member_keeps_the_last_value() {
    let value = parse(r#"{"a":1,"a":2}"#).unwrap();
    assert_eq!(value.get("a").unwrap().as_u64(), Some(2));
}

#[test]
fn accounts_start_empty() {
    let accounts = Accounts::new();
    assert_eq!(accounts.len(), 0);
    assert!(accounts.get("btc").is_none());
    assert!(accounts.entries().is_empty());
}

#[test]
fn accounts_insert_overwrites() {
    let accounts = Accounts::new()
        .insert(account("btc", "1", "0"))
        .insert(account("eth", "2", "0"))
        .insert(account("btc", "3", "4"));
    assert_eq!(accounts.len(), 2);
    let btc = accounts.get("btc").unwrap();
    assert_eq!((btc.free.as_str(), btc.locked.as_str()), ("3", "4"));
    assert_eq!(accounts.get("eth").unwrap().free, "2");
    let assets: Vec<&str> = accounts.entries().iter().map(|a| a.asset.as_str()).collect();
    assert_eq!(assets, vec!["btc", "eth"]);
}

#[test]
fn report_lists_bases_with_several_wanted_quotes() {
    let markets = vec![
        market("btcusdt", "btc", "usdt"),
        market("ethusdt", "eth", "usdt"),
        market("btccnst", "btc", "cnst"),
        market("ltcusdt", "ltc", "usdt"),
        market("ltcbtc", "ltc", "btc"),
    ];
    let groups = get_markets_with_different_quotes(&markets, &["usdt", "cnst"]);
    assert_eq!(groups.len(), 1);
    assert_eq!(groups[0].0, "btc");
    assert_eq!(ids(&groups[0].1), vec!["btcusdt", "btccnst"]);
}

#[test]
fn report_keeps_the_order_of_first_mention() {
    let markets = vec![
        market("ethusdt", "eth", "usdt"),
        market("btcusdt", "btc", "usdt"),
        market("btccnst", "btc", "cnst"),
        market("ethcnst", "eth", "cnst"),
        market("ethusdt2", "eth", "usdt"),
    ];
    let groups = get_markets_with_different_quotes(&markets, &["usdt", "cnst"]);
    assert_eq!(groups.len(), 2);
    assert_eq!(groups[0].0, "eth");
    assert_eq!(ids(&groups[0].1), vec!["ethusdt", "ethcnst", "ethusdt2"]);
    assert_eq!(groups[1].0, "btc");
    assert_eq!(ids(&groups[1].1), vec!["btcusdt", "btccnst"]);
}

#[test]
fn report_of_nothing_is_empty() {
    assert!(get_markets_with_different_quotes(&vec![], &["usdt"]).is_empty());
    let markets = vec![market("btcusdt", "btc", "usdt"), market("btccnst", "btc", "cnst")];
    assert!(get_markets_with_different_quotes(&markets, &[]).is_empty());
    assert!(get_markets_with_different_quotes(&markets, &["usdt"]).is_empty());
}
