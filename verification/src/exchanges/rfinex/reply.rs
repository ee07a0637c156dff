//! Replies of the Rfinex exchange.
//!
//! Every reply is a JSON object whose member `body` holds the answer.  A
//! reply that is not of the shape that its operation expects is refused as
//! a whole: no decoder fills a gap with a default.

use crate::amount::{is_amount, is_amount_text, lemma_decimal_is_amount};
use crate::json::{json_value, number_text, parse, Json, JsonView, Number};
use crate::text::{decimal_digits, i64_to_decimal, u64_to_decimal};
use crate::traits::accounts::{accounts_map, Accounts};
use crate::traits::exchange::{
    Account, AccountView, Depth, DepthView, ExchangeError, Levels, Market, MarketView, Order,
    OrderView,
};
use vstd::prelude::*;

verus! {

/// The text of a string that states an amount.
pub open spec fn amount_of(value: JsonView) -> Option<Seq<char>> {
    match value.text() {
        Some(text) => if is_amount(text) {
            Some(text)
        } else {
            None
        },
        None => None,
    }
}

/// The text of the string member `name`.
pub open spec fn text_member(object: JsonView, name: Seq<char>) -> Option<Seq<char>> {
    match object.member(name) {
        Some(value) => value.text(),
        None => None,
    }
}

/// The text of the string member `name`, which must state an amount.
pub open spec fn amount_member(object: JsonView, name: Seq<char>) -> Option<Seq<char>> {
    match object.member(name) {
        Some(value) => amount_of(value),
        None => None,
    }
}

/// The decimal text of the number member `name`.  An integer is written
/// out in digits; the text of any other number must state an amount.
pub open spec fn number_member(object: JsonView, name: Seq<char>) -> Option<Seq<char>> {
    match object.member(name) {
        Some(value) => match value.number() {
            Some(number) => if is_amount(number_text(number)) {
                Some(number_text(number))
            } else {
                None
            },
            None => None,
        },
        None => None,
    }
}

/// What `read` makes of each of `items`, in their order; nothing if `read`
/// refuses one of them.
pub open spec fn each<T>(items: Seq<JsonView>, read: spec_fn(JsonView) -> Option<T>) -> Option<
    Seq<T>,
> {
    if forall|i: int| 0 <= i < items.len() ==> read(#[trigger] items[i]) is Some {
        Some(Seq::new(items.len(), |i: int| read(items[i]).unwrap()))
    } else {
        None
    }
}

/// One level of an order book: an array that begins with price and volume,
/// both strings that state an amount.
pub open spec fn level_of(item: JsonView) -> Option<(Seq<char>, Seq<char>)> {
    match item.items() {
        Some(pair) => if pair.len() >= 2 {
            match (amount_of(pair[0]), amount_of(pair[1])) {
                (Some(price), Some(volume)) => Some((price, volume)),
                _ => None,
            }
        } else {
            None
        },
        None => None,
    }
}

/// The levels that an array lists.
pub open spec fn levels_of(items: Seq<JsonView>) -> Option<Levels> {
    each(items, |item: JsonView| level_of(item))
}

/// One side of the order book: the member `side` of `body`, an array of
/// levels.
pub open spec fn side_of(body: JsonView, side: Seq<char>) -> Option<Levels> {
    match body.member(side) {
        Some(list) => match list.items() {
            Some(items) => levels_of(items),
            None => None,
        },
        None => None,
    }
}

/// What a reply to a depth request holds: `body.ask` and `body.bid`.
pub open spec fn depth_of(reply: JsonView) -> Option<DepthView> {
    match reply.member("body"@) {
        Some(body) => match (side_of(body, "ask"@), side_of(body, "bid"@)) {
            (Some(asks), Some(bids)) => Some(DepthView { asks, bids }),
            _ => None,
        },
        None => None,
    }
}

/// What a reply to an order query holds: `body.id` and `body.state`,
/// strings, and `body.price` and `body.origin_volume`, numbers.
pub open spec fn order_of(reply: JsonView) -> Option<OrderView> {
    match reply.member("body"@) {
        Some(body) => match (
            text_member(body, "id"@),
            text_member(body, "state"@),
            number_member(body, "price"@),
            number_member(body, "origin_volume"@),
        ) {
            (Some(id), Some(state), Some(price), Some(origin_volume)) => Some(
                OrderView { id, state, price, origin_volume },
            ),
            _ => None,
        },
        None => None,
    }
}

/// What a reply to a new order holds: `body.id`, an integer that is not
/// negative, written in decimal.
pub open spec fn order_id_of(reply: JsonView) -> Option<Seq<char>> {
    match reply.member("body"@) {
        Some(body) => match body.member("id"@) {
            Some(id) => match id.unsigned() {
                Some(n) => Some(decimal_digits(n as nat)),
                None => None,
            },
            None => None,
        },
        None => None,
    }
}

/// One account: the strings `currency`, `balance` and `locked`, the last
/// two stating amounts.
pub open spec fn account_of(item: JsonView) -> Option<AccountView> {
    match (
        text_member(item, "currency"@),
        amount_member(item, "balance"@),
        amount_member(item, "locked"@),
    ) {
        (Some(asset), Some(free), Some(locked)) => Some(AccountView { asset, free, locked }),
        _ => None,
    }
}

/// The accounts that an array lists.
pub open spec fn account_list_of(items: Seq<JsonView>) -> Option<Seq<AccountView>> {
    each(items, |item: JsonView| account_of(item))
}

/// The accounts that a reply lists in its `body`, in their order.
pub open spec fn account_entries_of(reply: JsonView) -> Option<Seq<AccountView>> {
    match reply.member("body"@) {
        Some(body) => match body.items() {
            Some(items) => account_list_of(items),
            None => None,
        },
        None => None,
    }
}

/// What a reply to an accounts request holds: its accounts by asset, the
/// last one listed for an asset being the one that counts.
pub open spec fn accounts_of(reply: JsonView) -> Option<Map<Seq<char>, AccountView>> {
    match account_entries_of(reply) {
        Some(entries) => Some(accounts_map(entries)),
        None => None,
    }
}

/// One market: the strings `id`, `base_unit` and `quote_unit`.
pub open spec fn market_of(item: JsonView) -> Option<MarketView> {
    match (
        text_member(item, "id"@),
        text_member(item, "base_unit"@),
        text_member(item, "quote_unit"@),
    ) {
        (Some(id), Some(base_unit), Some(quote_unit)) => Some(
            MarketView { id, base_unit, quote_unit },
        ),
        _ => None,
    }
}

/// The markets that an array lists.
pub open spec fn market_list_of(items: Seq<JsonView>) -> Option<Seq<MarketView>> {
    each(items, |item: JsonView| market_of(item))
}

/// What a reply to a markets request holds: the markets that its `body`
/// lists, in their order.
pub open spec fn markets_of(reply: JsonView) -> Option<Seq<MarketView>> {
    match reply.member("body"@) {
        Some(body) => match body.items() {
            Some(items) => market_list_of(items),
            None => None,
        },
        None => None,
    }
}

/// What the body text of a reply to a depth request holds; nothing if the
/// text is no JSON.
pub open spec fn decoded_depth(body: Seq<char>) -> Option<DepthView> {
    match json_value(body) {
        Some(reply) => depth_of(reply),
        None => None,
    }
}

/// What the body text of a reply to an order query holds.
pub open spec fn decoded_order(body: Seq<char>) -> Option<OrderView> {
    match json_value(body) {
        Some(reply) => order_of(reply),
        None => None,
    }
}

/// What the body text of a reply to a new order holds.
pub open spec fn decoded_order_id(body: Seq<char>) -> Option<Seq<char>> {
    match json_value(body) {
        Some(reply) => order_id_of(reply),
        None => None,
    }
}

/// What the body text of a reply to an accounts request holds.
pub open spec fn decoded_accounts(body: Seq<char>) -> Option<Map<Seq<char>, AccountView>> {
    match json_value(body) {
        Some(reply) => accounts_of(reply),
        None => None,
    }
}

/// What the body text of a reply to a markets request holds.
pub open spec fn decoded_markets(body: Seq<char>) -> Option<Seq<MarketView>> {
    match json_value(body) {
        Some(reply) => markets_of(reply),
        None => None,
    }
}

/// A reply without a member `body` holds nothing, whatever was asked.
pub proof fn lemma_reply_needs_body(reply: JsonView)
    requires
        reply.member("body"@) is None,
    ensures
        depth_of(reply) is None,
        order_of(reply) is None,
        order_id_of(reply) is None,
        accounts_of(reply) is None,
        markets_of(reply) is None,
{
}

/// A text that is no JSON holds nothing, whatever was asked.
pub proof fn lemma_reply_needs_json(body: Seq<char>)
    requires
        json_value(body) is None,
    ensures
        decoded_depth(body) is None,
        decoded_order(body) is None,
        decoded_order_id(body) is None,
        decoded_accounts(body) is None,
        decoded_markets(body) is None,
{
}

/// A level whose price or volume is no string, or a string that states no
/// amount, is no level.
pub proof fn lemma_level_needs_amounts(item: JsonView)
    requires
        item.items() matches Some(pair) && pair.len() >= 2 && (amount_of(pair[0]) is None
            || amount_of(pair[1]) is None),
    ensures
        level_of(item) is None,
{
}

/// One entry that is no level spoils the whole order book, on either side:
/// there are no partial results.
pub proof fn lemma_depth_needs_every_level(reply: JsonView, side: Seq<char>, i: int)
    requires
        side == "ask"@ || side == "bid"@,
        reply.member("body"@) matches Some(body) && body.member(side) matches Some(list)
            && list.items() matches Some(items) && 0 <= i < items.len() && level_of(items[i])
            is None,
    ensures
        depth_of(reply) is None,
{
}

/// What is read from a list keeps the order of the list and leaves nothing
/// out.
pub proof fn lemma_each_in_order<T>(items: Seq<JsonView>, read: spec_fn(JsonView) -> Option<T>)
    requires
        each(items, read) is Some,
    ensures
        each(items, read).unwrap().len() == items.len(),
        forall|i: int|
            0 <= i < items.len() ==> read(items[i]) == Some(#[trigger] each(items, read).unwrap()[i]),
{
}

/// The markets come in the order in which the reply lists them.
pub proof fn lemma_markets_in_order(reply: JsonView)
    requires
        markets_of(reply) is Some,
    ensures
        reply.member("body"@) matches Some(body) && body.items() matches Some(items) && markets_of(
            reply,
        ).unwrap().len() == items.len() && forall|i: int|
            0 <= i < items.len() ==> market_of(items[i]) == Some(
                #[trigger] markets_of(reply).unwrap()[i],
            ),
{
    let items = reply.member("body"@).unwrap().items().unwrap();
    lemma_each_in_order(items, |item: JsonView| market_of(item));
}

/// Every price and volume of a decoded order book states an amount.
pub proof fn lemma_depth_well_formed(reply: JsonView)
    requires
        depth_of(reply) is Some,
    ensures
        depth_of(reply).unwrap().well_formed(),
{
    let body = reply.member("body"@).unwrap();
    lemma_each_in_order(
        body.member("ask"@).unwrap().items().unwrap(),
        |item: JsonView| level_of(item),
    );
    lemma_each_in_order(
        body.member("bid"@).unwrap().items().unwrap(),
        |item: JsonView| level_of(item),
    );
}

/// Price and volume of a decoded order state an amount.
pub proof fn lemma_order_well_formed(reply: JsonView)
    requires
        order_of(reply) is Some,
    ensures
        order_of(reply).unwrap().well_formed(),
{
}

/// Both balances of every decoded account state an amount, and the account
/// is filed under its own asset.
pub proof fn lemma_accounts_well_formed(reply: JsonView, asset: Seq<char>)
    requires
        accounts_of(reply) matches Some(accounts) && accounts.contains_key(asset),
    ensures
        accounts_of(reply).unwrap()[asset].well_formed(),
        accounts_of(reply).unwrap()[asset].asset == asset,
{
    let items = reply.member("body"@).unwrap().items().unwrap();
    let entries = account_entries_of(reply).unwrap();
    lemma_each_in_order(items, |item: JsonView| account_of(item));
    assert forall|i: int| 0 <= i < entries.len() implies (#[trigger] entries[i]).well_formed() by {
        assert(account_of(items[i]) == Some(entries[i]));
    }
    crate::traits::accounts::lemma_map_holds_entries(entries, asset);
}

fn amount_text(value: &Json) -> (found: Option<&str>)
    ensures
        match found {
            Some(text) => amount_of(value@) == Some(text@),
            None => amount_of(value@) is None,
        },
{
    match value.as_str() {
        Some(text) => if is_amount_text(text) {
            Some(text)
        } else {
            None
        },
        None => None,
    }
}

fn text_field<'a>(object: &'a Json, name: &str) -> (found: Option<&'a str>)
    ensures
        match found {
            Some(text) => text_member(object@, name@) == Some(text@),
            None => text_member(object@, name@) is None,
        },
{
    match object.get(name) {
        Some(value) => value.as_str(),
        None => None,
    }
}

fn amount_field<'a>(object: &'a Json, name: &str) -> (found: Option<&'a str>)
    ensures
        match found {
            Some(text) => amount_member(object@, name@) == Some(text@),
            None => amount_member(object@, name@) is None,
        },
{
    match object.get(name) {
        Some(value) => amount_text(value),
        None => None,
    }
}

fn number_field(object: &Json, name: &str) -> (found: Option<String>)
    ensures
        match found {
            Some(text) => number_member(object@, name@) == Some(text@),
            None => number_member(object@, name@) is None,
        },
{
    let number = match object.get(name) {
        Some(value) => match value.as_number() {
            Some(number) => number,
            None => {
                return None;
            },
        },
        None => {
            return None;
        },
    };
    match number {
        Number::Unsigned(n) => {
            proof {
                lemma_decimal_is_amount(*n as int);
            }
            Some(u64_to_decimal(*n))
        },
        Number::Signed(n) => {
            proof {
                lemma_decimal_is_amount(*n as int);
            }
            Some(i64_to_decimal(*n))
        },
        Number::Real(text) => if is_amount_text(text.as_str()) {
            Some(text.clone())
        } else {
            None
        },
    }
}

/// Reads one level of an order book.
pub fn level_from_json(item: &Json) -> (level: Option<(String, String)>)
    ensures
        level.deep_view() == level_of(item@),
{
    match item.as_array() {
        Some(pair) => {
            if pair.len() < 2 {
                return None;
            }
            match (amount_text(&pair[0]), amount_text(&pair[1])) {
                (Some(price), Some(volume)) => Some((price.to_owned(), volume.to_owned())),
                _ => None,
            }
        },
        None => None,
    }
}

fn levels_from_json(items: &Vec<Json>) -> (levels: Option<Vec<(String, String)>>)
    ensures
        levels.deep_view() == levels_of(items.deep_view()),
{
    let ghost listed = items.deep_view();
    let mut levels: Vec<(String, String)> = Vec::new();
    let mut i: usize = 0;
    while i < items.len()
        invariant
            i <= items.len(),
            listed == items.deep_view(),
            levels.len() == i,
            forall|k: int| 0 <= k < i ==> level_of(#[trigger] listed[k]) == Some(levels.deep_view()[k]),
        decreases items.len() - i,
    {
        match level_from_json(&items[i]) {
            Some(level) => {
                let ghost read = levels.deep_view();
                levels.push(level);
                assert(levels.deep_view() =~= read.push(level.deep_view()));
            },
            None => {
                assert(level_of(listed[i as int]) is None);
                return None;
            },
        }
        i = i + 1;
    }
    assert(levels.deep_view() =~= levels_of(listed).unwrap());
    Some(levels)
}

fn side_from_json(body: &Json, side: &str) -> (levels: Option<Vec<(String, String)>>)
    ensures
        levels.deep_view() == side_of(body@, side@),
{
    match body.get(side) {
        Some(list) => match list.as_array() {
            Some(items) => levels_from_json(items),
            None => None,
        },
        None => None,
    }
}

/// Reads the reply to a depth request.
pub fn depth_from_json(reply: &Json) -> (decoded: Result<Depth, ExchangeError>)
    ensures
        match decoded {
            Ok(depth) => depth_of(reply@) == Some(depth@),
            Err(e) => e == ExchangeError::Decode && depth_of(reply@) is None,
        },
{
    let body = match reply.get("body") {
        Some(body) => body,
        None => {
            return Err(ExchangeError::Decode);
        },
    };
    match (side_from_json(body, "ask"), side_from_json(body, "bid")) {
        (Some(asks), Some(bids)) => Ok(Depth { asks, bids }),
        _ => Err(ExchangeError::Decode),
    }
}

/// Decodes the body of the reply to a depth request.
pub fn decode_depth(body: &str) -> (decoded: Result<Depth, ExchangeError>)
    ensures
        match decoded {
            Ok(depth) => decoded_depth(body@) == Some(depth@),
            Err(e) => e == ExchangeError::Decode && decoded_depth(body@) is None,
        },
{
    match parse(body) {
        Ok(reply) => depth_from_json(&reply),
        Err(e) => Err(e),
    }
}

/// Reads the reply to an order query.
pub fn order_from_json(reply: &Json) -> (decoded: Result<Order, ExchangeError>)
    ensures
        match decoded {
            Ok(order) => order_of(reply@) == Some(order@),
            Err(e) => e == ExchangeError::Decode && order_of(reply@) is None,
        },
{
    let body = match reply.get("body") {
        Some(body) => body,
        None => {
            return Err(ExchangeError::Decode);
        },
    };
    match (
        text_field(body, "id"),
        text_field(body, "state"),
        number_field(body, "price"),
        number_field(body, "origin_volume"),
    ) {
        (Some(id), Some(state), Some(price), Some(origin_volume)) => Ok(
            Order { id: id.to_owned(), state: state.to_owned(), price, origin_volume },
        ),
        _ => Err(ExchangeError::Decode),
    }
}

/// Decodes the body of the reply to an order query.
pub fn decode_order(body: &str) -> (decoded: Result<Order, ExchangeError>)
    ensures
        match decoded {
            Ok(order) => decoded_order(body@) == Some(order@),
            Err(e) => e == ExchangeError::Decode && decoded_order(body@) is None,
        },
{
    match parse(body) {
        Ok(reply) => order_from_json(&reply),
        Err(e) => Err(e),
    }
}

/// Reads the reply to a new order: the identifier that the exchange gave it.
pub fn order_id_from_json(reply: &Json) -> (decoded: Result<String, ExchangeError>)
    ensures
        match decoded {
            Ok(id) => order_id_of(reply@) == Some(id@),
            Err(e) => e == ExchangeError::Decode && order_id_of(reply@) is None,
        },
{
    let id = match reply.get("body") {
        Some(body) => match body.get("id") {
            Some(id) => id.as_u64(),
            None => None,
        },
        None => None,
    };
    match id {
        Some(n) => Ok(u64_to_decimal(n)),
        None => Err(ExchangeError::Decode),
    }
}

/// Decodes the body of the reply to a new order.
pub fn decode_order_id(body: &str) -> (decoded: Result<String, ExchangeError>)
    ensures
        match decoded {
            Ok(id) => decoded_order_id(body@) == Some(id@),
            Err(e) => e == ExchangeError::Decode && decoded_order_id(body@) is None,
        },
{
    match parse(body) {
        Ok(reply) => order_id_from_json(&reply),
        Err(e) => Err(e),
    }
}

/// Reads one account.
pub fn account_from_json(item: &Json) -> (account: Option<Account>)
    ensures
        match account {
            Some(account) => account_of(item@) == Some(account@),
            None => account_of(item@) is None,
        },
{
    match (
        text_field(item, "currency"),
        amount_field(item, "balance"),
        amount_field(item, "locked"),
    ) {
        (Some(asset), Some(free), Some(locked)) => Some(
            Account { asset: asset.to_owned(), free: free.to_owned(), locked: locked.to_owned() },
        ),
        _ => None,
    }
}

fn accounts_from_items(items: &Vec<Json>) -> (accounts: Option<Accounts>)
    ensures
        match accounts {
            Some(accounts) => account_list_of(items.deep_view()) matches Some(entries)
                && accounts@ == accounts_map(entries),
            None => account_list_of(items.deep_view()) is None,
        },
{
    let ghost listed = items.deep_view();
    let ghost mut entries: Seq<AccountView> = Seq::empty();
    let mut accounts = Accounts::new();
    let mut i: usize = 0;
    while i < items.len()
        invariant
            i <= items.len(),
            listed == items.deep_view(),
            entries.len() == i,
            forall|k: int| 0 <= k < i ==> account_of(#[trigger] listed[k]) == Some(entries[k]),
            accounts@ == accounts_map(entries),
        decreases items.len() - i,
    {
        match account_from_json(&items[i]) {
            Some(account) => {
                proof {
                    let ghost read = entries;
                    entries = entries.push(account@);
                    assert(entries.drop_last() =~= read);
                }
                accounts = accounts.insert(account);
            },
            None => {
                assert(account_of(listed[i as int]) is None);
                return None;
            },
        }
        i = i + 1;
    }
    assert(entries =~= account_list_of(listed).unwrap());
    Some(accounts)
}

/// Reads the reply to an accounts request.  Where the reply lists an asset
/// more than once, the last account listed for it is kept.
pub fn accounts_from_json(reply: &Json) -> (decoded: Result<Accounts, ExchangeError>)
    ensures
        match decoded {
            Ok(accounts) => accounts_of(reply@) == Some(accounts@),
            Err(e) => e == ExchangeError::Decode && accounts_of(reply@) is None,
        },
{
    let accounts = match reply.get("body") {
        Some(body) => match body.as_array() {
            Some(items) => accounts_from_items(items),
            None => None,
        },
        None => None,
    };
    match accounts {
        Some(accounts) => Ok(accounts),
        None => Err(ExchangeError::Decode),
    }
}

/// Decodes the body of the reply to an accounts request.
pub fn decode_accounts(body: &str) -> (decoded: Result<Accounts, ExchangeError>)
    ensures
        match decoded {
            Ok(accounts) => decoded_accounts(body@) == Some(accounts@),
            Err(e) => e == ExchangeError::Decode && decoded_accounts(body@) is None,
        },
{
    match parse(body) {
        Ok(reply) => accounts_from_json(&reply),
        Err(e) => Err(e),
    }
}

/// Reads one market.
pub fn market_from_json(item: &Json) -> (market: Option<Market>)
    ensures
        match market {
            Some(market) => market_of(item@) == Some(market@),
            None => market_of(item@) is None,
        },
{
    match (text_field(item, "id"), text_field(item, "base_unit"), text_field(item, "quote_unit")) {
        (Some(id), Some(base_unit), Some(quote_unit)) => Some(
            Market {
                id: id.to_owned(),
                base_unit: base_unit.to_owned(),
                quote_unit: quote_unit.to_owned(),
            },
        ),
        _ => None,
    }
}

fn markets_from_items(items: &Vec<Json>) -> (markets: Option<Vec<Market>>)
    ensures
        markets.deep_view() == market_list_of(items.deep_view()),
{
    let ghost listed = items.deep_view();
    let mut markets: Vec<Market> = Vec::new();
    let mut i: usize = 0;
    while i < items.len()
        invariant
            i <= items.len(),
            listed == items.deep_view(),
            markets.len() == i,
            forall|k: int|
                0 <= k < i ==> market_of(#[trigger] listed[k]) == Some(markets.deep_view()[k]),
        decreases items.len() - i,
    {
        match market_from_json(&items[i]) {
            Some(market) => {
                let ghost read = markets.deep_view();
                let ghost added = market@;
                markets.push(market);
                assert(markets.deep_view() =~= read.push(added));
            },
            None => {
                assert(market_of(listed[i as int]) is None);
                return None;
            },
        }
        i = i + 1;
    }
    assert(markets.deep_view() =~= market_list_of(listed).unwrap());
    Some(markets)
}

/// Reads the reply to a markets request.
pub fn markets_from_json(reply: &Json) -> (decoded: Result<Vec<Market>, ExchangeError>)
    ensures
        match decoded {
            Ok(markets) => markets_of(reply@) == Some(markets.deep_view()),
            Err(e) => e == ExchangeError::Decode && markets_of(reply@) is None,
        },
{
    let markets = match reply.get("body") {
        Some(body) => match body.as_array() {
            Some(items) => markets_from_items(items),
            None => None,
        },
        None => None,
    };
    match markets {
        Some(markets) => Ok(markets),
        None => Err(ExchangeError::Decode),
    }
}

/// Decodes the body of the reply to a markets request.
pub fn decode_markets(body: &str) -> (decoded: Result<Vec<Market>, ExchangeError>)
    ensures
        match decoded {
            Ok(markets) => decoded_markets(body@) == Some(markets.deep_view()),
            Err(e) => e == ExchangeError::Decode && decoded_markets(body@) is None,
        },
{
    match parse(body) {
        Ok(reply) => markets_from_json(&reply),
        Err(e) => Err(e),
    }
}

} // verus!
