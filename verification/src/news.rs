use vstd::prelude::*;
use vstd::string::StringExecFns;

use crate::models::NewsArticle;
use crate::models::NewsResponse;
use crate::text::same_text;

verus! {

/// Source of an article as NewsAPI reports it.
pub struct NewsApiSource {
    pub name: Option<String>,
}

/// An article as NewsAPI reports it (every field may be missing).
pub struct NewsApiArticle {
    pub source: NewsApiSource,
    pub title: Option<String>,
    pub description: Option<String>,
    pub url: Option<String>,
    pub url_to_image: Option<String>,
    pub published_at: Option<String>,
}

/// NewsAPI's answer to a search.
pub struct NewsApiResponse {
    pub articles: Vec<NewsApiArticle>,
}

/// What `str::to_uppercase` returns for `s` (Unicode upper-casing).
pub uninterp spec fn spec_uppercase(s: Seq<char>) -> Seq<char>;

/// Whether every character of `s` is ASCII.
pub open spec fn is_ascii_text(s: Seq<char>) -> bool {
    forall|i: int| #![trigger s[i]] 0 <= i < s.len() ==> (s[i] as u32) < 128
}

/// `s` with the ASCII letters `a` to `z` made upper-case, the other
/// characters unchanged.
pub open spec fn ascii_upper(s: Seq<char>) -> Seq<char> {
    Seq::new(
        s.len(),
        |i: int| if 'a' <= s[i] && s[i] <= 'z' { ((s[i] as u32) - 32) as char } else { s[i] },
    )
}

/// `str::to_uppercase`: the contract names its result, which depends on `s`
/// alone, and states it for ASCII text only, where Unicode upper-casing maps
/// `a` to `z` onto `A` to `Z` and leaves the other characters as they are;
/// the Unicode case tables for other characters are not restated here.
#[verifier::external_body]
fn to_uppercase(s: &str) -> (u: String)
    ensures
        u@ == spec_uppercase(s@),
        is_ascii_text(s@) ==> u@ == ascii_upper(s@),
{
    s.to_uppercase()
}

/// The search term for an instrument whose upper-cased symbol is `upper`:
/// the coin's name for the known crypto symbols, else the symbol itself.
pub open spec fn query_for(upper: Seq<char>, symbol: Seq<char>) -> Seq<char> {
    if upper == "BTC"@ {
        "Bitcoin"@
    } else if upper == "ETH"@ {
        "Ethereum"@
    } else if upper == "SOL"@ {
        "Solana"@
    } else if upper == "XRP"@ {
        "Ripple XRP"@
    } else if upper == "BNB"@ {
        "Binance BNB"@
    } else {
        symbol
    }
}

/// The search term for `symbol`, given its upper-cased form `upper`.
pub fn query_for_upper<'a>(upper: &str, symbol: &'a str) -> (q: &'a str)
    ensures
        q@ == query_for(upper@, symbol@),
{
    if same_text(upper, "BTC") {
        "Bitcoin"
    } else if same_text(upper, "ETH") {
        "Ethereum"
    } else if same_text(upper, "SOL") {
        "Solana"
    } else if same_text(upper, "XRP") {
        "Ripple XRP"
    } else if same_text(upper, "BNB") {
        "Binance BNB"
    } else {
        symbol
    }
}

/// The search term for `symbol` (matched case-insensitively).
pub fn symbol_to_query<'a>(symbol: &'a str) -> (q: &'a str)
    ensures
        q@ == query_for(spec_uppercase(symbol@), symbol@),
        is_ascii_text(symbol@) ==> spec_uppercase(symbol@) == ascii_upper(symbol@),
{
    let upper = to_uppercase(symbol);
    query_for_upper(upper.as_str(), symbol)
}

/// The search term of a search term is itself: a symbol that is not mapped
/// is its own term, and the coin names are ASCII and upper-case to none of
/// the mapped symbols. The premise is what `symbol_to_query` states of the
/// upper-casing when it is given the term.
pub proof fn lemma_search_term_is_fixed(s: Seq<char>)
    requires
        is_ascii_text(query_for(spec_uppercase(s), s)) ==> spec_uppercase(
            query_for(spec_uppercase(s), s),
        ) == ascii_upper(query_for(spec_uppercase(s), s)),
    ensures
        query_for(spec_uppercase(query_for(spec_uppercase(s), s)), query_for(spec_uppercase(s), s))
            == query_for(spec_uppercase(s), s),
{
    reveal_strlit("BTC");
    reveal_strlit("ETH");
    reveal_strlit("SOL");
    reveal_strlit("XRP");
    reveal_strlit("BNB");
    reveal_strlit("Bitcoin");
    reveal_strlit("Ethereum");
    reveal_strlit("Solana");
    reveal_strlit("Ripple XRP");
    reveal_strlit("Binance BNB");
    let q = query_for(spec_uppercase(s), s);
    if q != s {
        assert(is_ascii_text(q));
        assert(ascii_upper(q).len() == q.len());
        assert(q.len() > 3);
    }
}

/// The NewsAPI search URL for the term `query`: English articles, newest
/// first, 20 per page.
pub open spec fn news_url_text(query: Seq<char>, api_key: Seq<char>) -> Seq<char> {
    "https://newsapi.org/v2/everything?q="@ + query
        + "&language=en&sortBy=publishedAt&pageSize=20&apiKey="@ + api_key
}

/// The NewsAPI search URL for the news about `symbol`.
pub fn news_url(api_key: &str, symbol: &str) -> (u: String)
    ensures
        u@ == news_url_text(query_for(spec_uppercase(symbol@), symbol@), api_key@),
{
    let query = symbol_to_query(symbol);
    let mut u = String::from_str("https://newsapi.org/v2/everything?q=");
    u.append(query);
    u.append("&language=en&sortBy=publishedAt&pageSize=20&apiKey=");
    u.append(api_key);
    u
}

/// The text of an optional field, empty when absent.
pub open spec fn text_or_empty(o: Option<String>) -> Seq<char> {
    match o {
        Some(s) => s@,
        None => Seq::empty(),
    }
}

/// Whether an article is shown: articles whose title is `[Removed]` are not.
pub open spec fn is_kept(a: NewsApiArticle) -> bool {
    text_or_empty(a.title) != "[Removed]"@
}

/// The shown articles of `s`, in order.
pub open spec fn kept_articles(s: Seq<NewsApiArticle>) -> Seq<NewsApiArticle>
    decreases s.len(),
{
    if s.len() == 0 {
        Seq::empty()
    } else if is_kept(s.last()) {
        kept_articles(s.drop_last()).push(s.last())
    } else {
        kept_articles(s.drop_last())
    }
}

/// Whether NewsAPI's article `a` is shown: all but those titled exactly
/// `[Removed]`.
pub open spec fn shown(a: NewsApiArticle) -> bool {
    !(a.title matches Some(t) && t@ == "[Removed]"@)
}

/// The articles shown are NewsAPI's articles not titled `[Removed]`, in
/// order.
pub proof fn lemma_kept_articles_filter(s: Seq<NewsApiArticle>)
    ensures
        kept_articles(s) == s.filter(|a: NewsApiArticle| shown(a)),
    decreases s.len(),
{
    reveal(Seq::filter);
    reveal_strlit("[Removed]");
    assert("[Removed]"@.len() == 9);
    if s.len() > 0 {
        lemma_kept_articles_filter(s.drop_last());
        assert(is_kept(s.last()) == shown(s.last()));
    }
}

/// Every field of a converted article: the texts of the NewsAPI article
/// (empty when absent), its description and image as they are.
pub proof fn lemma_converted_fields(out: NewsArticle, a: NewsApiArticle)
    requires
        converted(out, a),
    ensures
        out.description == a.description,
        out.image_url == a.url_to_image,
        out.title@ == (match a.title {
            Some(t) => t@,
            None => Seq::<char>::empty(),
        }),
        out.url@ == (match a.url {
            Some(t) => t@,
            None => Seq::<char>::empty(),
        }),
        out.published_at@ == (match a.published_at {
            Some(t) => t@,
            None => Seq::<char>::empty(),
        }),
        out.source_name@ == (match a.source.name {
            Some(t) => t@,
            None => Seq::<char>::empty(),
        }),
{
}

/// `out` is the article `a` with absent texts made empty.
pub open spec fn converted(out: NewsArticle, a: NewsApiArticle) -> bool {
    &&& out.title@ == text_or_empty(a.title)
    &&& out.description == a.description
    &&& out.url@ == text_or_empty(a.url)
    &&& out.image_url == a.url_to_image
    &&& out.published_at@ == text_or_empty(a.published_at)
    &&& out.source_name@ == text_or_empty(a.source.name)
}

fn text_or_default(o: Option<String>) -> (s: String)
    ensures
        s@ == text_or_empty(o),
{
    match o {
        Some(s) => s,
        None => String::new(),
    }
}

/// The news shown for NewsAPI's answer: removed articles dropped, the others
/// kept in order with their absent texts made empty.
pub fn collect_articles(resp: NewsApiResponse) -> (r: NewsResponse)
    ensures
        r.articles@.len() == kept_articles(resp.articles@).len(),
        forall|i: int|
            0 <= i < r.articles@.len() ==> converted(
                #[trigger] r.articles@[i],
                kept_articles(resp.articles@)[i],
            ),
        kept_articles(resp.articles@) == resp.articles@.filter(|a: NewsApiArticle| shown(a)),
        forall|i: int|
            0 <= i < r.articles@.len() ==> #[trigger] r.articles@[i].description == kept_articles(
                resp.articles@,
            )[i].description && r.articles@[i].image_url == kept_articles(resp.articles@)[i].url_to_image,
{
    proof {
        lemma_kept_articles_filter(resp.articles@);
    }
    let ghost all = resp.articles@;
    let mut articles: Vec<NewsArticle> = Vec::new();
    for a in it: resp.articles.into_iter()
        invariant
            it.seq() == all,
            articles@.len() == kept_articles(all.take(it.index())).len(),
            forall|i: int|
                0 <= i < articles@.len() ==> converted(
                    #[trigger] articles@[i],
                    kept_articles(all.take(it.index()))[i],
                ),
    {
        proof {
            assert(all.take(it.index() + 1).drop_last() =~= all.take(it.index()));
            assert(a == all[it.index()]);
            assert(all.take(it.index() + 1).last() == a);
            reveal_strlit("[Removed]");
            assert("[Removed]"@.len() == 9);
        }
        let ghost original = a;
        let keep = match &a.title {
            Some(t) => !same_text(t.as_str(), "[Removed]"),
            None => true,
        };
        assert(keep == is_kept(original));
        if keep {
            let out = NewsArticle {
                title: text_or_default(a.title),
                description: a.description,
                url: text_or_default(a.url),
                image_url: a.url_to_image,
                published_at: text_or_default(a.published_at),
                source_name: text_or_default(a.source.name),
            };
            articles.push(out);
        }
    }
    proof {
        assert(all.take(all.len() as int) =~= all);
    }
    NewsResponse { articles }
}

} // verus!
