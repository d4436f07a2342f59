use etoro_backend::etoro::ApiRequest;
use etoro_backend::etoro::CandleInterval;
use etoro_backend::etoro::EtoroClient;
use etoro_backend::etoro::HttpMethod;

fn client(mode: &str) -> EtoroClient {
    EtoroClient::new("https://api.example.com/", "key-a".to_string(), "key-u".to_string(), mode.to_string())
}

fn pairs(v: &[(&str, &str)]) -> Vec<(String, String)> {
    v.iter().map(|(a, b)| (a.to_string(), b.to_string())).collect()
}

fn check_headers(r: &ApiRequest) {
    assert_eq!(r.headers.len(), 3);
    assert_eq!(r.headers[0], ("x-api-key".to_string(), "key-a".to_string()));
    assert_eq!(r.headers[1], ("x-user-key".to_string(), "key-u".to_string()));
    assert_eq!(r.headers[2].0, "x-request-id");
    let id: Vec<char> = r.headers[2].1.chars().collect();
    assert_eq!(id.len(), 36);
    for (i, c) in id.iter().enumerate() {
        if i == 8 || i == 13 || i == 18 || i == 23 {
            assert_eq!(*c, '-');
        } else {
            assert!(c.is_ascii_hexdigit() && !c.is_ascii_uppercase());
        }
    }
    assert_eq!(id[14], '4');
    assert!(matches!(id[19], '8' | '9' | 'a' | 'b'));
}

#[test]
fn base_url_loses_trailing_slashes() {
    assert_eq!(EtoroClient::new("https://a.b///", String::new(), String::new(), String::new()).base_url, "https://a.b");
    assert_eq!(EtoroClient::new("https://a.b", String::new(), String::new(), String::new()).base_url, "https://a.b");
    assert_eq!(EtoroClient::new("///", String::new(), String::new(), String::new()).base_url, "");
}

#[test]
fn interval_names() {
    assert_eq!(CandleInterval::FiveMinutes.as_str(), "FiveMinutes");
    assert_eq!(CandleInterval::FifteenMinutes.as_str(), "FifteenMinutes");
    assert_eq!(CandleInterval::ThirtyMinutes.as_str(), "ThirtyMinutes");
}

#[test]
fn search_request() {
    let r = client("demo").search_instrument("BTC");
    assert_eq!(r.method, HttpMethod::Get);
    assert_eq!(r.url, "https://api.example.com/api/v1/market-data/search");
    assert_eq!(r.query, pairs(&[("internalSymbolFull", "BTC")]));
    check_headers(&r);
}

#[test]
fn request_ids_differ() {
    let c = client("demo");
    let a = c.get("/x");
    let b = c.get("/x");
    assert_ne!(a.headers[2].1, b.headers[2].1);
}

#[test]
fn rates_request_lists_ids() {
    let r = client("demo").get_rates(&[100000, -7, 0]);
    assert_eq!(r.url, "https://api.example.com/api/v1/market-data/instruments/rates");
    assert_eq!(r.query, pairs(&[("instrumentIds", "100000"), ("instrumentIds", "-7"), ("instrumentIds", "0")]));
    check_headers(&r);
}

#[test]
fn portfolio_request() {
    let r = client("real").get_portfolio();
    assert_eq!(r.method, HttpMethod::Get);
    assert_eq!(r.url, "https://api.example.com/api/v1/trading/info/real/pnl");
    assert!(r.query.is_empty());
    check_headers(&r);
}

#[test]
fn close_request() {
    let r = client("demo").close_position(i64::MIN);
    assert_eq!(r.method, HttpMethod::Post);
    assert_eq!(
        r.url,
        "https://api.example.com/api/v1/trading/execution/demo/market-close-orders/positions/-9223372036854775808"
    );
    check_headers(&r);
}

#[test]
fn edit_request_demo_and_real() {
    let d = client("demo").edit_position(42);
    assert_eq!(d.method, HttpMethod::Patch);
    assert_eq!(d.url, "https://api.example.com/api/v2/trading/demo/positions/42");
    let r = client("real").edit_position(42);
    assert_eq!(r.url, "https://api.example.com/api/v2/trading/positions/42");
    let other = client("Demo").edit_position(42);
    assert_eq!(other.url, "https://api.example.com/api/v2/trading/positions/42");
    check_headers(&d);
}

#[test]
fn history_request() {
    let d = client("demo").get_history("2024-01-01");
    assert_eq!(d.url, "https://api.example.com/api/v1/trading/info/trade/demo/history");
    assert_eq!(d.query, pairs(&[("minDate", "2024-01-01")]));
    let r = client("real").get_history("2024-01-01");
    assert_eq!(r.url, "https://api.example.com/api/v1/trading/info/trade/history");
}

#[test]
fn order_request_by_amount_or_units() {
    let a = client("demo").send_order(true);
    assert_eq!(a.method, HttpMethod::Post);
    assert_eq!(a.url, "https://api.example.com/api/v1/trading/execution/demo/market-open-orders/by-amount");
    let u = client("real").send_order(false);
    assert_eq!(u.url, "https://api.example.com/api/v1/trading/execution/real/market-open-orders/by-units");
}

#[test]
fn candles_request() {
    let r = client("demo").get_candles(100000, CandleInterval::FifteenMinutes, 50);
    assert_eq!(
        r.url,
        "https://api.example.com/api/v1/market-data/instruments/100000/history/candles/asc/FifteenMinutes/50"
    );
    let max = client("demo").get_candles(1, CandleInterval::FiveMinutes, u32::MAX);
    assert!(max.url.ends_with("/FiveMinutes/4294967295"));
}

#[test]
fn client_redaction() {
    let r = client("demo").redacted();
    assert_eq!(r.base_url, "https://api.example.com");
    assert_eq!(r.api_key, "[REDACTED]");
    assert_eq!(r.user_key, "[REDACTED]");
    assert_eq!(r.mode, "demo");
}

#[test]
fn request_with_given_id() {
    let r = client("demo").request_with_id(HttpMethod::Patch, "/p", "id-1".to_string());
    assert_eq!(r.url, "https://api.example.com/p");
    assert_eq!(r.headers[2], ("x-request-id".to_string(), "id-1".to_string()));
}
