//! The values that pass between a caller and an exchange.
//!
//! Amounts (prices, volumes, balances) are kept as the decimal text in which
//! the exchange states them, so that no digit is lost on the way.

use crate::amount::is_amount;
use crate::traits::accounts::Accounts;
use vstd::prelude::*;

verus! {

/// Why an operation failed.
#[derive(Clone, Copy, Debug, PartialEq, Eq, Structural)]
pub enum ExchangeError {
    /// The request did not reach the exchange, or no reply came back.
    Network,
    /// The reply was not JSON, or not of the expected shape.
    Decode,
}

impl ExchangeError {
    /// A short description of the failure.
    pub fn message(&self) -> (text: &'static str)
        ensures
            text@ == match *self {
                ExchangeError::Network => "unable to request to exchange"@,
                ExchangeError::Decode => "unable to parse json content"@,
            },
    {
        match self {
            ExchangeError::Network => "unable to request to exchange",
            ExchangeError::Decode => "unable to parse json content",
        }
    }
}

/// The HTTP method of a request.
#[derive(Clone, Copy, Debug, PartialEq, Eq, Structural)]
pub enum Method {
    Get,
    Post,
}

/// A request that is ready to be sent.  Its body is always empty: every
/// parameter travels in the query string of `url`, the access key of a
/// private request among them.
pub struct Request {
    pub method: Method,
    pub url: String,
}

/// A [`Request`] as contracts see it.
pub struct RequestView {
    pub method: Method,
    pub url: Seq<char>,
}

impl View for Request {
    type V = RequestView;

    open spec fn view(&self) -> RequestView {
        RequestView { method: self.method, url: self.url@ }
    }
}

/// A tradable pair.
#[derive(Debug)]
pub struct Market {
    pub id: String,
    pub base_unit: String,
    pub quote_unit: String,
}

/// A [`Market`] as contracts see it.
pub struct MarketView {
    pub id: Seq<char>,
    pub base_unit: Seq<char>,
    pub quote_unit: Seq<char>,
}

impl View for Market {
    type V = MarketView;

    open spec fn view(&self) -> MarketView {
        MarketView { id: self.id@, base_unit: self.base_unit@, quote_unit: self.quote_unit@ }
    }
}

impl DeepView for Market {
    type V = MarketView;

    open spec fn deep_view(&self) -> MarketView {
        self.view()
    }
}

/// One side of an order book as contracts see it: price and volume of each
/// level.
pub type Levels = Seq<(Seq<char>, Seq<char>)>;

/// Whether every price and volume among `levels` states an amount.
pub open spec fn levels_well_formed(levels: Levels) -> bool {
    forall|i: int|
        0 <= i < levels.len() ==> is_amount((#[trigger] levels[i]).0) && is_amount(levels[i].1)
}

/// A snapshot of an order book: the levels of each side as (price, volume),
/// in the order in which the exchange lists them.
#[derive(Debug)]
pub struct Depth {
    pub asks: Vec<(String, String)>,
    pub bids: Vec<(String, String)>,
}

/// A [`Depth`] as contracts see it.
pub struct DepthView {
    pub asks: Levels,
    pub bids: Levels,
}

impl DepthView {
    /// Whether every price and volume states an amount.
    pub open spec fn well_formed(self) -> bool {
        levels_well_formed(self.asks) && levels_well_formed(self.bids)
    }
}

impl View for Depth {
    type V = DepthView;

    open spec fn view(&self) -> DepthView {
        DepthView { asks: self.asks.deep_view(), bids: self.bids.deep_view() }
    }
}

/// The balance of one asset: what is available and what is held.
#[derive(Debug)]
pub struct Account {
    pub asset: String,
    pub free: String,
    pub locked: String,
}

/// An [`Account`] as contracts see it.
pub struct AccountView {
    pub asset: Seq<char>,
    pub free: Seq<char>,
    pub locked: Seq<char>,
}

impl AccountView {
    /// Whether both balances state an amount.
    pub open spec fn well_formed(self) -> bool {
        is_amount(self.free) && is_amount(self.locked)
    }
}

impl View for Account {
    type V = AccountView;

    open spec fn view(&self) -> AccountView {
        AccountView { asset: self.asset@, free: self.free@, locked: self.locked@ }
    }
}

impl DeepView for Account {
    type V = AccountView;

    open spec fn deep_view(&self) -> AccountView {
        self.view()
    }
}

/// An order as the exchange reports it.  `state` is the exchange's own
/// word; `id` is the identifier that the exchange gave the order.
#[derive(Debug)]
pub struct Order {
    pub id: String,
    pub state: String,
    pub price: String,
    pub origin_volume: String,
}

/// An [`Order`] as contracts see it.
pub struct OrderView {
    pub id: Seq<char>,
    pub state: Seq<char>,
    pub price: Seq<char>,
    pub origin_volume: Seq<char>,
}

impl OrderView {
    /// Whether price and volume state an amount.
    pub open spec fn well_formed(self) -> bool {
        is_amount(self.price) && is_amount(self.origin_volume)
    }
}

impl View for Order {
    type V = OrderView;

    open spec fn view(&self) -> OrderView {
        OrderView {
            id: self.id@,
            state: self.state@,
            price: self.price@,
            origin_volume: self.origin_volume@,
        }
    }
}

/// What a client of an exchange can do.  Each operation is a request to
/// send and, where the exchange answers with data, a way to read the body
/// of the reply; sending is left to the caller.  A request that the
/// exchange authenticates carries the time at which it was built, so a
/// request is built when it is about to be sent and not kept.
pub trait Exchange {
    /// The request for the order book of `market`, `limit` levels deep.
    fn get_depth_request(&self, market: &str, limit: u16) -> Request;

    /// Reads the body of the reply to a depth request.
    fn get_depth_reply(&self, body: &str) -> (decoded: Result<Depth, ExchangeError>)
        ensures
            decoded matches Err(e) ==> e == ExchangeError::Decode,
    ;

    /// The request that places an order on `market`; `side` is `buy` or
    /// `sell`, `price` and `volume` are amounts as text.
    fn create_order_request(&self, market: &str, side: &str, price: &str, volume: &str) -> Request;

    /// Reads the body of the reply to a new order: the identifier that the
    /// exchange gave it.
    fn create_order_reply(&self, body: &str) -> (decoded: Result<String, ExchangeError>)
        ensures
            decoded matches Err(e) ==> e == ExchangeError::Decode,
    ;

    /// The request that cancels the order `id`.  Its reply holds nothing
    /// that a caller reads.
    fn cancel_order_request(&self, id: &str) -> Request;

    /// The request for the state of the order `id`.
    fn get_order_request(&self, id: &str) -> Request;

    /// Reads the body of the reply to an order query.
    fn get_order_reply(&self, body: &str) -> (decoded: Result<Order, ExchangeError>)
        ensures
            decoded matches Err(e) ==> e == ExchangeError::Decode,
    ;

    /// The request for the balances of the member.
    fn get_accounts_request(&self) -> Request;

    /// Reads the body of the reply to an accounts request.
    fn get_accounts_reply(&self, body: &str) -> (decoded: Result<Accounts, ExchangeError>)
        ensures
            decoded matches Err(e) ==> e == ExchangeError::Decode,
    ;

    /// The request for the markets of the exchange.
    fn get_markets_request(&self) -> Request;

    /// Reads the body of the reply to a markets request.
    fn get_markets_reply(&self, body: &str) -> (decoded: Result<Vec<Market>, ExchangeError>)
        ensures
            decoded matches Err(e) ==> e == ExchangeError::Decode,
    ;
}

} // verus!
