use vstd::prelude::*;

verus! {

/// Answer of the health check.
#[derive(Debug, Clone, Copy, PartialEq, Eq, Structural)]
pub struct Health {
    pub ok: bool,
}

/// Kind of stop-loss when editing an open position.
#[derive(Debug, Clone, Copy, PartialEq, Eq, Structural)]
pub enum StopLossType {
    Fixed,
    Trailing,
}

/// Item of the instrument catalog (id -> short symbol).
pub struct InstrumentCatalogItem {
    pub instrument_id: i64,
    pub symbol: String,
}

/// A news article about an instrument.
pub struct NewsArticle {
    pub title: String,
    pub description: Option<String>,
    pub url: String,
    pub image_url: Option<String>,
    pub published_at: String,
    pub source_name: String,
}

/// The news about an instrument.
pub struct NewsResponse {
    pub articles: Vec<NewsArticle>,
}

} // verus!
