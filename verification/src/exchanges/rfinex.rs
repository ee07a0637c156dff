//! The Rfinex exchange: how its requests are built and its replies read.

pub mod reply;

use crate::exchanges::rfinex::reply::{
    decode_accounts, decode_depth, decode_markets, decode_order, decode_order_id,
    decoded_accounts, decoded_depth, decoded_markets, decoded_order, decoded_order_id,
};
use crate::query::{
    lemma_canonical_ignores_order, query_string, signing_payload, sort_params, Param,
};
use crate::text::{decimal_digits, decimal_text, i64_to_decimal, str_eq, u64_to_decimal};
use crate::traits::accounts::Accounts;
use crate::traits::exchange::{
    Depth, Exchange, ExchangeError, Market, Method, Order, Request, RequestView,
};
use crate::util::{get_unix_timestamp, sign, signature};
use vstd::prelude::*;
use vstd::string::StringExecFns;

verus! {

/// The configuration of one Rfinex client as contracts see it.
pub struct RfinexView {
    pub domain: Seq<char>,
    pub api_version: Seq<char>,
    pub access_key: Seq<char>,
    pub secret_key: Seq<char>,
}

/// A client of one Rfinex instance.  The configuration is fixed when the
/// client is made.
pub struct Rfinex {
    domain: String,
    api_version: String,
    access_key: String,
    secret_key: String,
}

impl View for Rfinex {
    type V = RfinexView;

    closed spec fn view(&self) -> RfinexView {
        RfinexView {
            domain: self.domain@,
            api_version: self.api_version@,
            access_key: self.access_key@,
            secret_key: self.secret_key@,
        }
    }
}

/// The HTTP method that an action word selects: `POST` is sent as a POST,
/// any other word as a GET.
pub open spec fn method_of(action: Seq<char>) -> Method {
    if action == "POST"@ {
        Method::Post
    } else {
        Method::Get
    }
}

/// The address of a request: always HTTPS, always with a `?`, also before an
/// empty query string.
pub open spec fn url_text(domain: Seq<char>, path: Seq<char>, query: Seq<char>) -> Seq<char> {
    "https://"@ + domain + path + seq!['?'] + query
}

/// The address of a request that needs no credentials: the parameters in
/// the order given.
pub open spec fn public_url(domain: Seq<char>, path: Seq<char>, params: Seq<Param>) -> Seq<char> {
    url_text(domain, path, query_string(params))
}

/// A request that needs no credentials.
pub open spec fn public_request(
    domain: Seq<char>,
    action: Seq<char>,
    path: Seq<char>,
    params: Seq<Param>,
) -> RequestView {
    RequestView { method: method_of(action), url: public_url(domain, path, params) }
}

/// The parameters of a private request: those given, in the order given,
/// followed by the signature of their canonical form.
pub open spec fn signed_params(
    action: Seq<char>,
    path: Seq<char>,
    params: Seq<Param>,
    secret: Seq<char>,
) -> Seq<Param> {
    params.push(("signature"@, signature(signing_payload(action, path, params), secret)))
}

/// The address of a request that is signed with `secret`.
pub open spec fn signed_url(
    domain: Seq<char>,
    action: Seq<char>,
    path: Seq<char>,
    params: Seq<Param>,
    secret: Seq<char>,
) -> Seq<char> {
    url_text(domain, path, query_string(signed_params(action, path, params, secret)))
}

/// A request that is signed with `secret`.
pub open spec fn private_request(
    domain: Seq<char>,
    action: Seq<char>,
    path: Seq<char>,
    params: Seq<Param>,
    secret: Seq<char>,
) -> RequestView {
    RequestView {
        method: method_of(action),
        url: signed_url(domain, action, path, params, secret),
    }
}

/// The signature of a private call does not depend on the order in which
/// its parameters are given; the parameters themselves keep that order.
pub proof fn lemma_signature_ignores_order(
    action: Seq<char>,
    path: Seq<char>,
    first: Seq<Param>,
    second: Seq<Param>,
    secret: Seq<char>,
)
    requires
        first.to_multiset() == second.to_multiset(),
    ensures
        signed_params(action, path, first, secret).last() == signed_params(
            action,
            path,
            second,
            secret,
        ).last(),
        signed_params(action, path, first, secret).drop_last() == first,
{
    lemma_canonical_ignores_order(first, second);
    assert(signed_params(action, path, first, secret).drop_last() =~= first);
}

/// The path of the endpoint `name` under the API version in use.
pub open spec fn api_path(version: Seq<char>, name: Seq<char>) -> Seq<char> {
    "/api/"@ + version + name
}

/// The request for an order book, built at the time `tonce`.  It is not
/// signed.
pub open spec fn depth_request(
    client: RfinexView,
    market: Seq<char>,
    limit: u16,
    tonce: i64,
) -> RequestView {
    public_request(
        client.domain,
        "GET"@,
        api_path(client.api_version, "/depth"@),
        seq![
            ("market"@, market),
            ("limit"@, decimal_digits(limit as nat)),
            ("tonce"@, decimal_text(tonce as int)),
        ],
    )
}

/// The signed request that places an order, built at the time `tonce`.
pub open spec fn create_order_request(
    client: RfinexView,
    market: Seq<char>,
    side: Seq<char>,
    price: Seq<char>,
    volume: Seq<char>,
    tonce: i64,
) -> RequestView {
    private_request(
        client.domain,
        "POST"@,
        api_path(client.api_version, "/orders"@),
        seq![
            ("access_key"@, client.access_key),
            ("price"@, price),
            ("volume"@, volume),
            ("market"@, market),
            ("side"@, side),
            ("tonce"@, decimal_text(tonce as int)),
        ],
        client.secret_key,
    )
}

/// The parameters of a signed request that names one order.
pub open spec fn order_params(client: RfinexView, id: Seq<char>, tonce: i64) -> Seq<Param> {
    seq![
        ("access_key"@, client.access_key),
        ("id"@, id),
        ("tonce"@, decimal_text(tonce as int)),
    ]
}

/// The signed request that cancels an order, built at the time `tonce`.
pub open spec fn cancel_order_request(
    client: RfinexView,
    id: Seq<char>,
    tonce: i64,
) -> RequestView {
    private_request(
        client.domain,
        "POST"@,
        api_path(client.api_version, "/order/delete"@),
        order_params(client, id, tonce),
        client.secret_key,
    )
}

/// The signed request for the state of an order, built at the time `tonce`.
pub open spec fn order_request(client: RfinexView, id: Seq<char>, tonce: i64) -> RequestView {
    private_request(
        client.domain,
        "GET"@,
        api_path(client.api_version, "/order"@),
        order_params(client, id, tonce),
        client.secret_key,
    )
}

/// The signed request for the balances, built at the time `tonce`.
pub open spec fn accounts_request(client: RfinexView, tonce: i64) -> RequestView {
    private_request(
        client.domain,
        "GET"@,
        api_path(client.api_version, "/members/accounts"@),
        seq![("access_key"@, client.access_key), ("tonce"@, decimal_text(tonce as int))],
        client.secret_key,
    )
}

/// The request for the markets.  It has no parameters and is not signed.
pub open spec fn markets_request(client: RfinexView) -> RequestView {
    public_request(
        client.domain,
        "GET"@,
        api_path(client.api_version, "/markets"@),
        Seq::empty(),
    )
}

/// Chooses the HTTP method for an action word.
pub fn http_method(action: &str) -> (method: Method)
    ensures
        method == method_of(action@),
{
    if str_eq(action, "POST") {
        Method::Post
    } else {
        Method::Get
    }
}

impl Rfinex {
    /// Makes a client for the exchange at `domain`.
    pub fn new(domain: &str, api_version: &str, access_key: &str, secret_key: &str) -> (client:
        Rfinex)
        ensures
            client@ == (RfinexView {
                domain: domain@,
                api_version: api_version@,
                access_key: access_key@,
                secret_key: secret_key@,
            }),
    {
        Rfinex {
            domain: domain.to_owned(),
            api_version: api_version.to_owned(),
            access_key: access_key.to_owned(),
            secret_key: secret_key.to_owned(),
        }
    }

    /// Joins the parameters into a query string, in the order given.
    pub fn build_query_str(&self, params: &[(&str, &str)]) -> (query: String)
        ensures
            query@ == query_string(params.deep_view()),
    {
        let ghost given = params.deep_view();
        let mut query = String::new();
        let mut i: usize = 0;
        assert(given.take(0) =~= Seq::empty());
        while i < params.len()
            invariant
                i <= params.len(),
                given == params.deep_view(),
                query@ == query_string(given.take(i as int)),
            decreases params.len() - i,
        {
            proof {
                reveal_strlit("&");
                reveal_strlit("=");
            }
            let ghost so_far = query@;
            if i > 0 {
                query.append("&");
            }
            query.append(params[i].0);
            query.append("=");
            query.append(params[i].1);
            proof {
                let next = given.take(i as int + 1);
                assert(next.drop_last() =~= given.take(i as int));
                assert(next.last() == given[i as int]);
                if i > 0 {
                    assert(query@ =~= so_far + seq!['&'] + (given[i as int].0 + seq!['=']
                        + given[i as int].1));
                } else {
                    assert(query@ =~= given[i as int].0 + seq!['='] + given[i as int].1);
                }
            }
            i = i + 1;
        }
        assert(given.take(i as int) =~= given);
        query
    }

    /// Builds the text that a private request signs.  The parameters are
    /// sorted for it; `params` itself keeps its order.
    pub fn build_payload(&self, action: &str, path: &str, params: &[(&str, &str)]) -> (payload:
        String)
        ensures
            payload@ == signing_payload(action@, path@, params.deep_view()),
    {
        let sorted = sort_params(params);
        let in_order = sorted.as_slice();
        let query = self.build_query_str(in_order);
        proof {
            reveal_strlit("|");
            assert(in_order.deep_view() =~= sorted.deep_view());
        }
        let mut payload = action.to_owned();
        payload.append("|");
        payload.append(path);
        payload.append("|");
        payload.append(query.as_str());
        assert(payload@ =~= action@ + seq!['|'] + path@ + seq!['|'] + query@);
        payload
    }

    /// Builds the address of a request to this exchange.
    pub fn build_url(&self, path: &str, query_str: &str) -> (url: String)
        ensures
            url@ == url_text(self@.domain, path@, query_str@),
    {
        proof {
            reveal_strlit("?");
        }
        let mut url = "https://".to_owned();
        url.append(self.domain.as_str());
        url.append(path);
        url.append("?");
        url.append(query_str);
        assert(url@ =~= "https://"@ + self.domain@ + path@ + seq!['?'] + query_str@);
        url
    }

    /// Builds the address of a public call: the parameters go into the
    /// query string in the order given, and nothing is signed.  The method
    /// has no part in the address.
    pub fn build(&self, method: &str, path: &str, params: &[(&str, &str)]) -> (url: String)
        ensures
            url@ == public_url(self@.domain, path@, params.deep_view()),
    {
        let query = self.build_query_str(params);
        self.build_url(path, query.as_str())
    }

    /// Builds the address of a private call: the signature of the canonical
    /// parameters under `secret` is added behind the parameters as given.
    pub fn build_signed(
        &self,
        method: &str,
        path: &str,
        params: &[(&str, &str)],
        secret: &str,
    ) -> (url: String)
        ensures
            url@ == signed_url(self@.domain, method@, path@, params.deep_view(), secret@),
    {
        let payload = self.build_payload(method, path, params);
        let signed = sign(payload.as_str(), secret);
        let mut with_signature: Vec<(&str, &str)> = Vec::new();
        let mut i: usize = 0;
        while i < params.len()
            invariant
                i <= params.len(),
                with_signature.deep_view() == params.deep_view().take(i as int),
            decreases params.len() - i,
        {
            let ghost copied = with_signature.deep_view();
            with_signature.push(params[i]);
            assert(with_signature.deep_view() =~= copied.push(params[i as int].deep_view()));
            assert(with_signature.deep_view() =~= params.deep_view().take(i as int + 1));
            i = i + 1;
        }
        let ghost copied = with_signature.deep_view();
        with_signature.push(("signature", signed.as_str()));
        assert(with_signature.deep_view() =~= copied.push(("signature"@, signed@)));
        let all = with_signature.as_slice();
        proof {
            assert(params.deep_view().take(i as int) =~= params.deep_view());
            assert(all.deep_view() =~= signed_params(
                method@,
                path@,
                params.deep_view(),
                secret@,
            ));
        }
        let query = self.build_query_str(all);
        self.build_url(path, query.as_str())
    }

    /// The public call of `action` on `path`, ready to be sent.
    fn public_request(&self, action: &str, path: &str, params: &[(&str, &str)]) -> (request:
        Request)
        ensures
            request@ == public_request(self@.domain, action@, path@, params.deep_view()),
    {
        Request { method: http_method(action), url: self.build(action, path, params) }
    }

    /// The private call of `action` on `path`, signed with the secret key of
    /// this client and ready to be sent.
    fn private_request(&self, action: &str, path: &str, params: &[(&str, &str)]) -> (request:
        Request)
        ensures
            request@ == private_request(
                self@.domain,
                action@,
                path@,
                params.deep_view(),
                self@.secret_key,
            ),
    {
        Request {
            method: http_method(action),
            url: self.build_signed(action, path, params, self.secret_key.as_str()),
        }
    }

    /// The path of the endpoint `name` under the API version in use.
    fn path(&self, name: &str) -> (path: String)
        ensures
            path@ == api_path(self@.api_version, name@),
    {
        let mut path = "/api/".to_owned();
        path.append(self.api_version.as_str());
        path.append(name);
        path
    }

    /// Builds the request for the order book of `market`, `limit` levels
    /// deep, as of the time `tonce`.
    pub fn depth_request_at(&self, market: &str, limit: u16, tonce: i64) -> (request: Request)
        ensures
            request@ == depth_request(self@, market@, limit, tonce),
    {
        let path = self.path("/depth");
        let limit_text = u64_to_decimal(limit as u64);
        let tonce_text = i64_to_decimal(tonce);
        let mut params: Vec<(&str, &str)> = Vec::new();
        params.push(("market", market));
        params.push(("limit", limit_text.as_str()));
        params.push(("tonce", tonce_text.as_str()));
        let given = params.as_slice();
        assert(given.deep_view() =~= seq![
            ("market"@, market@),
            ("limit"@, decimal_digits(limit as nat)),
            ("tonce"@, decimal_text(tonce as int)),
        ]);
        self.public_request("GET", path.as_str(), given)
    }

    /// Builds the signed request that places an order, as of the time
    /// `tonce`.  `price` and `volume` are sent as they are given.
    pub fn create_order_request_at(
        &self,
        market: &str,
        side: &str,
        price: &str,
        volume: &str,
        tonce: i64,
    ) -> (request: Request)
        ensures
            request@ == create_order_request(self@, market@, side@, price@, volume@, tonce),
    {
        let path = self.path("/orders");
        let tonce_text = i64_to_decimal(tonce);
        let mut params: Vec<(&str, &str)> = Vec::new();
        params.push(("access_key", self.access_key.as_str()));
        params.push(("price", price));
        params.push(("volume", volume));
        params.push(("market", market));
        params.push(("side", side));
        params.push(("tonce", tonce_text.as_str()));
        let given = params.as_slice();
        assert(given.deep_view() =~= seq![
            ("access_key"@, self@.access_key),
            ("price"@, price@),
            ("volume"@, volume@),
            ("market"@, market@),
            ("side"@, side@),
            ("tonce"@, decimal_text(tonce as int)),
        ]);
        self.private_request("POST", path.as_str(), given)
    }

    /// Builds a signed request that names the order `id`.
    fn order_request_to(&self, action: &str, endpoint: &str, id: &str, tonce: i64) -> (request:
        Request)
        ensures
            request@ == private_request(
                self@.domain,
                action@,
                api_path(self@.api_version, endpoint@),
                order_params(self@, id@, tonce),
                self@.secret_key,
            ),
    {
        let path = self.path(endpoint);
        let tonce_text = i64_to_decimal(tonce);
        let mut params: Vec<(&str, &str)> = Vec::new();
        params.push(("access_key", self.access_key.as_str()));
        params.push(("id", id));
        params.push(("tonce", tonce_text.as_str()));
        let given = params.as_slice();
        assert(given.deep_view() =~= order_params(self@, id@, tonce));
        self.private_request(action, path.as_str(), given)
    }

    /// Builds the signed request that cancels the order `id`, as of the
    /// time `tonce`.
    pub fn cancel_order_request_at(&self, id: &str, tonce: i64) -> (request: Request)
        ensures
            request@ == cancel_order_request(self@, id@, tonce),
    {
        self.order_request_to("POST", "/order/delete", id, tonce)
    }

    /// Builds the signed request for the state of the order `id`, as of the
    /// time `tonce`.
    pub fn order_request_at(&self, id: &str, tonce: i64) -> (request: Request)
        ensures
            request@ == order_request(self@, id@, tonce),
    {
        self.order_request_to("GET", "/order", id, tonce)
    }

    /// Builds the signed request for the balances, as of the time `tonce`.
    pub fn accounts_request_at(&self, tonce: i64) -> (request: Request)
        ensures
            request@ == accounts_request(self@, tonce),
    {
        let path = self.path("/members/accounts");
        let tonce_text = i64_to_decimal(tonce);
        let mut params: Vec<(&str, &str)> = Vec::new();
        params.push(("access_key", self.access_key.as_str()));
        params.push(("tonce", tonce_text.as_str()));
        let given = params.as_slice();
        assert(given.deep_view() =~= seq![
            ("access_key"@, self@.access_key),
            ("tonce"@, decimal_text(tonce as int)),
        ]);
        self.private_request("GET", path.as_str(), given)
    }

    /// Builds the request for the markets.
    pub fn markets_request(&self) -> (request: Request)
        ensures
            request@ == markets_request(self@),
    {
        let path = self.path("/markets");
        let params: Vec<(&str, &str)> = Vec::new();
        let given = params.as_slice();
        assert(given.deep_view() =~= Seq::empty());
        self.public_request("GET", path.as_str(), given)
    }
}

impl Exchange for Rfinex {
    /// The request carries the time at which it was built.
    fn get_depth_request(&self, market: &str, limit: u16) -> (request: Request)
        ensures
            exists|tonce: i64| request@ == depth_request(self@, market@, limit, tonce),
    {
        self.depth_request_at(market, limit, get_unix_timestamp())
    }

    fn get_depth_reply(&self, body: &str) -> (decoded: Result<Depth, ExchangeError>)
        ensures
            match decoded {
                Ok(depth) => decoded_depth(body@) == Some(depth@),
                Err(_) => decoded_depth(body@) is None,
            },
    {
        decode_depth(body)
    }

    /// The request carries the time at which it was built.
    fn create_order_request(&self, market: &str, side: &str, price: &str, volume: &str) -> (request:
        Request)
        ensures
            exists|tonce: i64|
                request@ == create_order_request(self@, market@, side@, price@, volume@, tonce),
    {
        self.create_order_request_at(market, side, price, volume, get_unix_timestamp())
    }

    fn create_order_reply(&self, body: &str) -> (decoded: Result<String, ExchangeError>)
        ensures
            match decoded {
                Ok(id) => decoded_order_id(body@) == Some(id@),
                Err(_) => decoded_order_id(body@) is None,
            },
    {
        decode_order_id(body)
    }

    /// The request carries the time at which it was built.
    fn cancel_order_request(&self, id: &str) -> (request: Request)
        ensures
            exists|tonce: i64| request@ == cancel_order_request(self@, id@, tonce),
    {
        self.cancel_order_request_at(id, get_unix_timestamp())
    }

    /// The request carries the time at which it was built.
    fn get_order_request(&self, id: &str) -> (request: Request)
        ensures
            exists|tonce: i64| request@ == order_request(self@, id@, tonce),
    {
        self.order_request_at(id, get_unix_timestamp())
    }

    fn get_order_reply(&self, body: &str) -> (decoded: Result<Order, ExchangeError>)
        ensures
            match decoded {
                Ok(order) => decoded_order(body@) == Some(order@),
                Err(_) => decoded_order(body@) is None,
            },
    {
        decode_order(body)
    }

    /// The request carries the time at which it was built.
    fn get_accounts_request(&self) -> (request: Request)
        ensures
            exists|tonce: i64| request@ == accounts_request(self@, tonce),
    {
        self.accounts_request_at(get_unix_timestamp())
    }

    fn get_accounts_reply(&self, body: &str) -> (decoded: Result<Accounts, ExchangeError>)
        ensures
            match decoded {
                Ok(accounts) => decoded_accounts(body@) == Some(accounts@),
                Err(_) => decoded_accounts(body@) is None,
            },
    {
        decode_accounts(body)
    }

    fn get_markets_request(&self) -> (request: Request)
        ensures
            request@ == markets_request(self@),
    {
        self.markets_request()
    }

    fn get_markets_reply(&self, body: &str) -> (decoded: Result<Vec<Market>, ExchangeError>)
        ensures
            match decoded {
                Ok(markets) => decoded_markets(body@) == Some(markets.deep_view()),
                Err(_) => decoded_markets(body@) is None,
            },
    {
        decode_markets(body)
    }
}

} // verus!
