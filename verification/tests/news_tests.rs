use etoro_backend::news::collect_articles;
use etoro_backend::news::news_url;
use etoro_backend::news::query_for_upper;
use etoro_backend::news::symbol_to_query;
use etoro_backend::news::NewsApiArticle;
use etoro_backend::news::NewsApiResponse;
use etoro_backend::news::NewsApiSource;

fn article(title: Option<&str>, url: Option<&str>) -> NewsApiArticle {
    NewsApiArticle {
        source: NewsApiSource { name: Some("Wire".to_string()) },
        title: title.map(|s| s.to_string()),
        description: None,
        url: url.map(|s| s.to_string()),
        url_to_image: Some("https://img".to_string()),
        published_at: None,
    }
}

#[test]
fn known_symbols_case_insensitive() {
    assert_eq!(symbol_to_query("BTC"), "Bitcoin");
    assert_eq!(symbol_to_query("btc"), "Bitcoin");
    assert_eq!(symbol_to_query("Eth"), "Ethereum");
    assert_eq!(symbol_to_query("sol"), "Solana");
    assert_eq!(symbol_to_query("xRp"), "Ripple XRP");
    assert_eq!(symbol_to_query("bnb"), "Binance BNB");
}

#[test]
fn other_symbols_kept_as_given() {
    assert_eq!(symbol_to_query("doge"), "doge");
    assert_eq!(symbol_to_query("AAPL"), "AAPL");
    assert_eq!(symbol_to_query(""), "");
}

#[test]
fn query_from_upper_form() {
    assert_eq!(query_for_upper("BTC", "whatever"), "Bitcoin");
    assert_eq!(query_for_upper("btc", "btc"), "btc");
}

#[test]
fn url_of_search() {
    assert_eq!(
        news_url("k123", "eth"),
        "https://newsapi.org/v2/everything?q=Ethereum&language=en&sortBy=publishedAt&pageSize=20&apiKey=k123"
    );
}

#[test]
fn removed_articles_dropped() {
    let resp = NewsApiResponse {
        articles: vec![
            article(Some("First"), Some("https://a")),
            article(Some("[Removed]"), Some("https://b")),
            article(None, None),
            article(Some("[removed]"), Some("https://c")),
        ],
    };
    let out = collect_articles(resp).articles;
    assert_eq!(out.len(), 3);
    assert_eq!(out[0].title, "First");
    assert_eq!(out[0].url, "https://a");
    assert_eq!(out[0].source_name, "Wire");
    assert_eq!(out[0].image_url.as_deref(), Some("https://img"));
    assert_eq!(out[0].published_at, "");
    assert_eq!(out[1].title, "");
    assert_eq!(out[1].url, "");
    assert_eq!(out[2].title, "[removed]");
}
