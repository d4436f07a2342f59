use vstd::prelude::*;
use vstd::string::StringExecFns;

use crate::text::decimal;
use crate::text::decimal_string;
use crate::text::same_text;
use crate::text::trim_trailing_slashes;
use crate::text::without_trailing_slashes;

verus! {

/// Width of the candles asked for.
#[derive(Debug, Clone, Copy, PartialEq, Eq, Structural)]
pub enum CandleInterval {
    FiveMinutes,
    FifteenMinutes,
    ThirtyMinutes,
}

/// The API's name of a candle interval.
pub open spec fn interval_text(i: CandleInterval) -> Seq<char> {
    match i {
        CandleInterval::FiveMinutes => "FiveMinutes"@,
        CandleInterval::FifteenMinutes => "FifteenMinutes"@,
        CandleInterval::ThirtyMinutes => "ThirtyMinutes"@,
    }
}

impl CandleInterval {
    /// The API's name of the interval: the only place where these exact
    /// strings appear.
    pub fn as_str(self) -> (s: &'static str)
        ensures
            s@ == interval_text(self),
    {
        match self {
            CandleInterval::FiveMinutes => "FiveMinutes",
            CandleInterval::FifteenMinutes => "FifteenMinutes",
            CandleInterval::ThirtyMinutes => "ThirtyMinutes",
        }
    }
}

/// Distinct intervals have distinct names.
pub proof fn lemma_interval_names_distinct(a: CandleInterval, b: CandleInterval)
    ensures
        a != b ==> interval_text(a) != interval_text(b),
{
    reveal_strlit("FiveMinutes");
    reveal_strlit("FifteenMinutes");
    reveal_strlit("ThirtyMinutes");
    assert("FiveMinutes"@.len() == 11);
    assert("FifteenMinutes"@.len() == 14);
    assert("ThirtyMinutes"@.len() == 13);
}

/// The HTTP method of a request.
#[derive(Debug, Clone, Copy, PartialEq, Eq, Structural)]
pub enum HttpMethod {
    Get,
    Post,
    Patch,
}

/// A request to the eToro API, ready to be sent: method, full URL, headers
/// and query parameters, in order.
pub struct ApiRequest {
    pub method: HttpMethod,
    pub url: String,
    pub headers: Vec<(String, String)>,
    pub query: Vec<(String, String)>,
}

/// The text of a list of name/value pairs.
pub open spec fn pairs_view(v: Seq<(String, String)>) -> Seq<(Seq<char>, Seq<char>)> {
    v.map_values(|p: (String, String)| (p.0@, p.1@))
}

/// What a request holds, as text.
pub struct RequestView {
    pub method: HttpMethod,
    pub url: Seq<char>,
    pub headers: Seq<(Seq<char>, Seq<char>)>,
    pub query: Seq<(Seq<char>, Seq<char>)>,
}

impl View for ApiRequest {
    type V = RequestView;

    open spec fn view(&self) -> RequestView {
        RequestView {
            method: self.method,
            url: self.url@,
            headers: pairs_view(self.headers@),
            query: pairs_view(self.query@),
        }
    }
}

/// Whether `c` is a lower-case hexadecimal digit.
pub open spec fn is_lower_hex(c: char) -> bool {
    ('0' <= c && c <= '9') || ('a' <= c && c <= 'f')
}

/// Whether `s` is a random (version 4) UUID in hyphenated lower-case form,
/// like `67e55044-10b1-426f-9247-bb680e5fe0c8`.
pub open spec fn is_uuid_v4_text(s: Seq<char>) -> bool {
    &&& s.len() == 36
    &&& forall|i: int|
        0 <= i < 36 ==> if i == 8 || i == 13 || i == 18 || i == 23 {
            #[trigger] s[i] == '-'
        } else {
            is_lower_hex(s[i])
        }
    &&& s[14] == '4'
    &&& (s[19] == '8' || s[19] == '9' || s[19] == 'a' || s[19] == 'b')
}

/// A fresh request id: `uuid::Uuid::new_v4()` rendered by `to_string`.
/// The id is random, so the contract claims only its shape, which the
/// crate's source fixes: 36 characters, hyphens after the 8th, 12th, 16th and
/// 20th hex digit, lower-case hex digits, the version digit `4` and a
/// variant digit among `8`, `9`, `a`, `b`. The call panics only when the
/// operating system's random source fails, which no argument can exclude.
#[verifier::external_body]
fn new_request_id() -> (id: String)
    ensures
        is_uuid_v4_text(id@),
{
    uuid::Uuid::new_v4().to_string()
}

/// Client settings for the eToro API.
#[derive(Clone)]
pub struct EtoroClient {
    pub base_url: String,
    pub api_key: String,
    pub user_key: String,
    /// "demo" or "real"
    pub mode: String,
}

/// The text a redacted secret is shown as.
pub open spec fn redacted_text() -> Seq<char> {
    "[REDACTED]"@
}

impl EtoroClient {
    /// A client for the API at `base_url` (its trailing `/` removed).
    pub fn new(base_url: &str, api_key: String, user_key: String, mode: String) -> (c: Self)
        ensures
            c.base_url@ == without_trailing_slashes(base_url@),
            c.api_key == api_key,
            c.user_key == user_key,
            c.mode == mode,
    {
        EtoroClient { base_url: trim_trailing_slashes(base_url), api_key, user_key, mode }
    }

    /// The client as it is shown in logs: both keys replaced by `[REDACTED]`.
    pub fn redacted(&self) -> (c: EtoroClient)
        ensures
            c.base_url@ == self.base_url@,
            c.api_key@ == redacted_text(),
            c.user_key@ == redacted_text(),
            c.mode@ == self.mode@,
    {
        EtoroClient {
            base_url: self.base_url.clone(),
            api_key: String::from_str("[REDACTED]"),
            user_key: String::from_str("[REDACTED]"),
            mode: self.mode.clone(),
        }
    }

    /// The request with method `method` to `path`, carrying both keys and
    /// the request id `request_id`, with the query parameters `query`.
    pub open spec fn request_view(
        self,
        method: HttpMethod,
        path: Seq<char>,
        request_id: Seq<char>,
        query: Seq<(Seq<char>, Seq<char>)>,
    ) -> RequestView {
        RequestView {
            method,
            url: self.base_url@ + path,
            headers: seq![
                ("x-api-key"@, self.api_key@),
                ("x-user-key"@, self.user_key@),
                ("x-request-id"@, request_id),
            ],
            query,
        }
    }

    /// `r` is the request with method `method` to `path` and query `query`,
    /// under some fresh request id.
    pub open spec fn sends(
        self,
        r: RequestView,
        method: HttpMethod,
        path: Seq<char>,
        query: Seq<(Seq<char>, Seq<char>)>,
    ) -> bool {
        &&& r.headers.len() == 3
        &&& is_uuid_v4_text(r.headers[2].1)
        &&& r == self.request_view(method, path, r.headers[2].1, query)
    }

    /// Builds the request with method `method` to `path` under the request id
    /// `request_id`.
    pub fn request_with_id(&self, method: HttpMethod, path: &str, request_id: String) -> (r:
        ApiRequest)
        ensures
            r@ == self.request_view(method, path@, request_id@, Seq::empty()),
    {
        let mut url = self.base_url.clone();
        url.append(path);
        let mut headers: Vec<(String, String)> = Vec::new();
        headers.push((String::from_str("x-api-key"), self.api_key.clone()));
        headers.push((String::from_str("x-user-key"), self.user_key.clone()));
        headers.push((String::from_str("x-request-id"), request_id));
        let r = ApiRequest { method, url, headers, query: Vec::new() };
        assert(r@.headers =~= self.request_view(method, path@, request_id@, Seq::empty()).headers);
        assert(r@.query =~= Seq::<(Seq<char>, Seq<char>)>::empty());
        r
    }

    fn request(&self, method: HttpMethod, path: &str) -> (r: ApiRequest)
        ensures
            self.sends(r@, method, path@, Seq::empty()),
    {
        let id = new_request_id();
        self.request_with_id(method, path, id)
    }

    /// A GET request to `path`.
    pub fn get(&self, path: &str) -> (r: ApiRequest)
        ensures
            self.sends(r@, HttpMethod::Get, path@, Seq::empty()),
    {
        self.request(HttpMethod::Get, path)
    }

    /// A POST request to `path`.
    pub fn post(&self, path: &str) -> (r: ApiRequest)
        ensures
            self.sends(r@, HttpMethod::Post, path@, Seq::empty()),
    {
        self.request(HttpMethod::Post, path)
    }

    /// A PATCH request to `path`.
    pub fn patch(&self, path: &str) -> (r: ApiRequest)
        ensures
            self.sends(r@, HttpMethod::Patch, path@, Seq::empty()),
    {
        self.request(HttpMethod::Patch, path)
    }

    /// `"demo/"` for the demo account, empty for the real one (the v2 and
    /// history paths put the mode there).
    pub open spec fn mode_segment(self) -> Seq<char> {
        if self.mode@ == "demo"@ {
            "demo/"@
        } else {
            Seq::empty()
        }
    }

    fn mode_segment_str(&self) -> (s: &'static str)
        ensures
            s@ == self.mode_segment(),
    {
        if same_text(self.mode.as_str(), "demo") {
            "demo/"
        } else {
            proof {
                reveal_strlit("");
            }
            ""
        }
    }

    /// Searches instruments by their full internal symbol.
    pub fn search_instrument(&self, symbol: &str) -> (r: ApiRequest)
        ensures
            self.sends(
                r@,
                HttpMethod::Get,
                "/api/v1/market-data/search"@,
                seq![("internalSymbolFull"@, symbol@)],
            ),
    {
        let mut r = self.get("/api/v1/market-data/search");
        r.query.push((String::from_str("internalSymbolFull"), String::from_str(symbol)));
        assert(r@.query =~= seq![("internalSymbolFull"@, symbol@)]);
        r
    }

    /// The query listing instrument ids for the rates endpoint.
    pub open spec fn rates_query(ids: Seq<i64>) -> Seq<(Seq<char>, Seq<char>)> {
        ids.map_values(|id: i64| ("instrumentIds"@, decimal(id as int)))
    }

    /// Current bid/ask rates of the instruments `instrument_ids`, one
    /// `instrumentIds` parameter per id, in order.
    pub fn get_rates(&self, instrument_ids: &[i64]) -> (r: ApiRequest)
        ensures
            self.sends(
                r@,
                HttpMethod::Get,
                "/api/v1/market-data/instruments/rates"@,
                Self::rates_query(instrument_ids@),
            ),
    {
        let mut r = self.get("/api/v1/market-data/instruments/rates");
        let ghost base = r@;
        let mut i: usize = 0;
        while i < instrument_ids.len()
            invariant
                i <= instrument_ids@.len(),
                r@.method == base.method,
                r@.url == base.url,
                r@.headers == base.headers,
                r@.query == Self::rates_query(instrument_ids@.take(i as int)),
            decreases instrument_ids@.len() - i,
        {
            let ghost prev = r@.query;
            let value = decimal_string(instrument_ids[i]);
            r.query.push((String::from_str("instrumentIds"), value));
            assert(r@.query =~= prev.push(("instrumentIds"@, decimal(instrument_ids@[i as int] as int))));
            assert(Self::rates_query(instrument_ids@.take(i + 1)) =~= Self::rates_query(
                instrument_ids@.take(i as int),
            ).push(("instrumentIds"@, decimal(instrument_ids@[i as int] as int))));
            i = i + 1;
        }
        assert(instrument_ids@.take(i as int) =~= instrument_ids@);
        r
    }

    /// The path of the account's profit-and-loss portfolio.
    pub open spec fn portfolio_path(self) -> Seq<char> {
        "/api/v1/trading/info/"@ + self.mode@ + "/pnl"@
    }

    /// The account's portfolio (credit, open positions, pending orders).
    pub fn get_portfolio(&self) -> (r: ApiRequest)
        ensures
            self.sends(r@, HttpMethod::Get, self.portfolio_path(), Seq::empty()),
    {
        let mut path = String::from_str("/api/v1/trading/info/");
        path.append(self.mode.as_str());
        path.append("/pnl");
        self.get(path.as_str())
    }

    /// The path that closes position `position_id`.
    pub open spec fn close_path(self, position_id: i64) -> Seq<char> {
        "/api/v1/trading/execution/"@ + self.mode@ + "/market-close-orders/positions/"@ + decimal(
            position_id as int,
        )
    }

    /// Closes position `position_id` (the body says how many units).
    pub fn close_position(&self, position_id: i64) -> (r: ApiRequest)
        ensures
            self.sends(r@, HttpMethod::Post, self.close_path(position_id), Seq::empty()),
    {
        let mut path = String::from_str("/api/v1/trading/execution/");
        path.append(self.mode.as_str());
        path.append("/market-close-orders/positions/");
        let id = decimal_string(position_id);
        path.append(id.as_str());
        self.post(path.as_str())
    }

    /// The path that edits the stop-loss or take-profit of `position_id`.
    pub open spec fn edit_path(self, position_id: i64) -> Seq<char> {
        "/api/v2/trading/"@ + self.mode_segment() + "positions/"@ + decimal(position_id as int)
    }

    /// Edits the stop-loss or take-profit of an open position (v2 API,
    /// `/demo/` in the path for the demo account).
    pub fn edit_position(&self, position_id: i64) -> (r: ApiRequest)
        ensures
            self.sends(r@, HttpMethod::Patch, self.edit_path(position_id), Seq::empty()),
    {
        let mut path = String::from_str("/api/v2/trading/");
        path.append(self.mode_segment_str());
        path.append("positions/");
        let id = decimal_string(position_id);
        path.append(id.as_str());
        self.patch(path.as_str())
    }

    /// The path of the trade history.
    pub open spec fn history_path(self) -> Seq<char> {
        "/api/v1/trading/info/trade/"@ + self.mode_segment() + "history"@
    }

    /// The positions closed since `min_date`.
    pub fn get_history(&self, min_date: &str) -> (r: ApiRequest)
        ensures
            self.sends(
                r@,
                HttpMethod::Get,
                self.history_path(),
                seq![("minDate"@, min_date@)],
            ),
    {
        let mut path = String::from_str("/api/v1/trading/info/trade/");
        path.append(self.mode_segment_str());
        path.append("history");
        let mut r = self.get(path.as_str());
        r.query.push((String::from_str("minDate"), String::from_str(min_date)));
        assert(r@.query =~= seq![("minDate"@, min_date@)]);
        r
    }

    /// The path that opens a market order: by cash amount when the order
    /// gives an amount, else by units.
    pub open spec fn order_path(self, by_amount: bool) -> Seq<char> {
        "/api/v1/trading/execution/"@ + self.mode@ + "/"@ + (if by_amount {
            "market-open-orders/by-amount"@
        } else {
            "market-open-orders/by-units"@
        })
    }

    /// Opens a market order; `by_amount` tells whether the order gives a
    /// cash amount (else it gives units).
    pub fn send_order(&self, by_amount: bool) -> (r: ApiRequest)
        ensures
            self.sends(r@, HttpMethod::Post, self.order_path(by_amount), Seq::empty()),
    {
        let endpoint = if by_amount {
            "market-open-orders/by-amount"
        } else {
            "market-open-orders/by-units"
        };
        let mut path = String::from_str("/api/v1/trading/execution/");
        path.append(self.mode.as_str());
        path.append("/");
        path.append(endpoint);
        self.post(path.as_str())
    }

    /// The path of the last `count` candles of `instrument_id`, oldest first.
    pub open spec fn candles_path(self, instrument_id: i64, interval: CandleInterval, count: u32) -> Seq<
        char,
    > {
        "/api/v1/market-data/instruments/"@ + decimal(instrument_id as int)
            + "/history/candles/asc/"@ + interval_text(interval) + "/"@ + decimal(count as int)
    }

    /// The last `count` candles of `instrument_id` at the given interval.
    pub fn get_candles(&self, instrument_id: i64, interval: CandleInterval, count: u32) -> (r:
        ApiRequest)
        ensures
            self.sends(
                r@,
                HttpMethod::Get,
                self.candles_path(instrument_id, interval, count),
                Seq::empty(),
            ),
    {
        let mut path = String::from_str("/api/v1/market-data/instruments/");
        let id = decimal_string(instrument_id);
        path.append(id.as_str());
        path.append("/history/candles/asc/");
        path.append(interval.as_str());
        path.append("/");
        let n = decimal_string(count as i64);
        path.append(n.as_str());
        self.get(path.as_str())
    }
}

} // verus!
