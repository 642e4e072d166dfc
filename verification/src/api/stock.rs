//! The stock API: routing of `/stock/...` requests, the cache keys of each kind
//! of stock data, what to do when data is missing, and the search of the stock
//! list.
use vstd::prelude::*;
use crate::derive::types::{StringMap, keys_of};
use crate::api::json::{JsonValue, JsonView, copy_json, json_of, opt_text, parse_json, string_member, text_member};
use crate::text::{concat2, concat3, contains_seq, decimal, lowercase, owned, str_contains, str_eq, strs, to_lower, usize_to_decimal};

verus! {

/// `prefix:a`.
pub open spec fn key1(prefix: Seq<char>, a: Seq<char>) -> Seq<char> {
    prefix + ":"@ + a
}

/// `prefix:a:b`.
pub open spec fn key2(prefix: Seq<char>, a: Seq<char>, b: Seq<char>) -> Seq<char> {
    prefix + ":"@ + a + ":"@ + b
}

/// The cache key of the stock list of a market.
pub fn stock_list_key(market: &str) -> (k: String)
    ensures
        k@ == key1("list"@, market@),
{
    concat3("list", ":", market)
}

/// The cache key of a quote.
pub fn stock_quote_key(code: &str) -> (k: String)
    ensures
        k@ == key1("quote"@, code@),
{
    concat3("quote", ":", code)
}

/// The cache key of a quote stream.
pub fn stock_stream_key(code: &str) -> (k: String)
    ensures
        k@ == key1("stream"@, code@),
{
    concat3("stream", ":", code)
}

/// `prefix:a:b` built from parts.
fn join2(prefix: &str, a: &str, b: &str) -> (k: String)
    ensures
        k@ == key2(prefix@, a@, b@),
{
    let mut k = concat3(prefix, ":", a);
    k.append(":");
    k.append(b);
    k
}

/// The cache key of candlesticks of a period.
pub fn stock_kline_key(code: &str, period: &str) -> (k: String)
    ensures
        k@ == key2("kline"@, code@, period@),
{
    join2("kline", code, period)
}

/// The cache key of the details of a stock.
pub fn stock_detail_key(code: &str) -> (k: String)
    ensures
        k@ == key1("detail"@, code@),
{
    concat3("detail", ":", code)
}

/// The cache key of financial reports of a type.
pub fn stock_financial_key(code: &str, report_type: &str) -> (k: String)
    ensures
        k@ == key2("financial"@, code@, report_type@),
{
    join2("financial", code, report_type)
}

/// The cache key of fund flows of a type.
pub fn stock_fund_flow_key(code: &str, flow_type: &str) -> (k: String)
    ensures
        k@ == key2("fund_flow"@, code@, flow_type@),
{
    join2("fund_flow", code, flow_type)
}

/// The cache key of holders of a type.
pub fn stock_holders_key(code: &str, holder_type: &str) -> (k: String)
    ensures
        k@ == key2("holders"@, code@, holder_type@),
{
    join2("holders", code, holder_type)
}

/// The cache key of a page of announcements.
pub fn stock_announcements_key(code: &str, page: usize, limit: usize) -> (k: String)
    ensures
        k@ == key2("announcements"@, code@, decimal(page as nat)) + ":"@ + decimal(limit as nat),
{
    let p = usize_to_decimal(page);
    let l = usize_to_decimal(limit);
    let mut k = join2("announcements", code, p.as_str());
    k.append(":");
    k.append(l.as_str());
    k
}

/// The cache key of the status of a market.
pub fn stock_market_status_key(market: &str) -> (k: String)
    ensures
        k@ == key1("market_status"@, market@),
{
    concat3("market_status", ":", market)
}

/// The cache key of the dragon-tiger list of a date and market.
pub fn stock_lhb_key(date: &str, market: &str) -> (k: String)
    ensures
        k@ == key2("lhb"@, date@, market@),
{
    join2("lhb", date, market)
}

/// The cache key of sectors of a type and market.
pub fn stock_sectors_key(sector_type: &str, market: &str) -> (k: String)
    ensures
        k@ == key2("sectors"@, sector_type@, market@),
{
    join2("sectors", sector_type, market)
}

/// The cache key of a ranking of a type and market.
pub fn stock_ranking_key(ranking_type: &str, market: &str) -> (k: String)
    ensures
        k@ == key2("ranking"@, ranking_type@, market@),
{
    join2("ranking", ranking_type, market)
}

/// The pieces of `p` between `/`, empty pieces left out.
pub open spec fn path_segments(p: Seq<char>) -> Seq<Seq<char>>
    decreases p.len(),
{
    segments_from(p, Seq::empty())
}

/// The pieces of `p` between `/`, empty pieces left out, after a piece `cur`
/// already begun.
pub open spec fn segments_from(p: Seq<char>, cur: Seq<char>) -> Seq<Seq<char>>
    decreases p.len(),
{
    if p.len() == 0 {
        if cur.len() == 0 { Seq::empty() } else { seq![cur] }
    } else if p[0] == '/' {
        (if cur.len() == 0 { Seq::<Seq<char>>::empty() } else { seq![cur] }) + segments_from(p.drop_first(), Seq::empty())
    } else {
        segments_from(p.drop_first(), cur.push(p[0]))
    }
}

/// The pieces of `path` between `/`, empty pieces left out.
pub fn split_path(path: &str) -> (v: Vec<String>)
    ensures
        strs(v@) == path_segments(path@),
{
    let n = path.unicode_len();
    let mut out: Vec<String> = Vec::new();
    let mut start: usize = 0;
    let mut i: usize = 0;
    assert(path@.skip(0) =~= path@);
    assert(path@.subrange(0, 0) =~= Seq::<char>::empty());
    while i < n
        invariant
            n == path@.len(),
            start <= i <= n,
            strs(out@) + segments_from(path@.skip(i as int), path@.subrange(start as int, i as int)) == path_segments(path@),
        decreases n - i,
    {
        let c = path.get_char(i);
        let ghost rest = path@.skip(i as int);
        let ghost cur = path@.subrange(start as int, i as int);
        assert(rest[0] == c);
        assert(rest.drop_first() =~= path@.skip(i + 1));
        if c == '/' {
            if i > start {
                let piece = path.substring_char(start, i);
                let ghost before = out@;
                out.push(owned(piece));
                assert(strs(out@) =~= strs(before).push(cur));
                assert(strs(before) + (seq![cur] + segments_from(path@.skip(i + 1), Seq::empty()))
                    =~= strs(out@) + segments_from(path@.skip(i + 1), Seq::empty()));
            } else {
                assert(cur =~= Seq::<char>::empty());
                assert(strs(out@) + (Seq::<Seq<char>>::empty() + segments_from(path@.skip(i + 1), Seq::empty()))
                    =~= strs(out@) + segments_from(path@.skip(i + 1), Seq::empty()));
            }
            start = i + 1;
            assert(path@.subrange(start as int, start as int) =~= Seq::<char>::empty());
        } else {
            assert(cur.push(c) =~= path@.subrange(start as int, i + 1));
        }
        i = i + 1;
    }
    let ghost cur = path@.subrange(start as int, i as int);
    assert(path@.skip(i as int) =~= Seq::<char>::empty());
    if i > start {
        let piece = path.substring_char(start, i);
        let ghost before = out@;
        out.push(owned(piece));
        assert(strs(out@) =~= strs(before).push(cur));
        assert(strs(before) + seq![cur] =~= strs(out@));
    } else {
        assert(strs(out@) + Seq::<Seq<char>>::empty() =~= strs(out@));
    }
    out
}

/// A stock endpoint, with the code it names where it names one.
#[derive(Debug, Clone)]
pub enum StockRoute {
    /// `GET search`.
    Search,
    /// `GET quote`.
    Quote,
    /// `GET quote/stream`.
    QuoteStream,
    /// `GET kline`.
    Kline,
    /// `GET detail/{code}`.
    Detail(String),
    /// `GET financial/{code}`.
    Financial(String),
    /// `GET fund_flow/{code}`.
    FundFlow(String),
    /// `GET holders/{code}`.
    Holders(String),
    /// `GET announcements/{code}`.
    Announcements(String),
    /// `GET market/status`.
    MarketStatus,
    /// `GET market/indices`.
    MarketIndices,
    /// `GET market/lhb`.
    Lhb,
    /// `GET sectors`.
    Sectors,
    /// `GET ranking`.
    Ranking,
    /// `GET sectors/{code}/stocks`.
    SectorStocks(String),
    /// Anything else.
    Unknown,
}

/// One segment `a`.
pub open spec fn is1(s: Seq<Seq<char>>, a: Seq<char>) -> bool {
    s.len() == 1 && s[0] == a
}

/// Two segments `a`, `b`.
pub open spec fn is2(s: Seq<Seq<char>>, a: Seq<char>, b: Seq<char>) -> bool {
    s.len() == 2 && s[0] == a && s[1] == b
}

/// Two segments, the first `a`.
pub open spec fn with_code(s: Seq<Seq<char>>, a: Seq<char>) -> bool {
    s.len() == 2 && s[0] == a
}

/// The endpoint a method and path segments address.
pub open spec fn route_of(method: Seq<char>, s: Seq<Seq<char>>) -> StockRouteKind {
    if method != "GET"@ {
        StockRouteKind::Unknown
    } else if is1(s, "search"@) {
        StockRouteKind::Search
    } else if is1(s, "quote"@) {
        StockRouteKind::Quote
    } else if is2(s, "quote"@, "stream"@) {
        StockRouteKind::QuoteStream
    } else if is1(s, "kline"@) {
        StockRouteKind::Kline
    } else if with_code(s, "detail"@) {
        StockRouteKind::Detail(s[1])
    } else if with_code(s, "financial"@) {
        StockRouteKind::Financial(s[1])
    } else if with_code(s, "fund_flow"@) {
        StockRouteKind::FundFlow(s[1])
    } else if with_code(s, "holders"@) {
        StockRouteKind::Holders(s[1])
    } else if with_code(s, "announcements"@) {
        StockRouteKind::Announcements(s[1])
    } else if is2(s, "market"@, "status"@) {
        StockRouteKind::MarketStatus
    } else if is2(s, "market"@, "indices"@) {
        StockRouteKind::MarketIndices
    } else if is2(s, "market"@, "lhb"@) {
        StockRouteKind::Lhb
    } else if is1(s, "sectors"@) {
        StockRouteKind::Sectors
    } else if is1(s, "ranking"@) {
        StockRouteKind::Ranking
    } else if s.len() == 3 && s[0] == "sectors"@ && s[2] == "stocks"@ {
        StockRouteKind::SectorStocks(s[1])
    } else {
        StockRouteKind::Unknown
    }
}

/// The path segments of the endpoint that a route names; none for `Unknown`.
pub open spec fn endpoint_path(k: StockRouteKind) -> Seq<Seq<char>> {
    match k {
        StockRouteKind::Search => seq!["search"@],
        StockRouteKind::Quote => seq!["quote"@],
        StockRouteKind::QuoteStream => seq!["quote"@, "stream"@],
        StockRouteKind::Kline => seq!["kline"@],
        StockRouteKind::Detail(c) => seq!["detail"@, c],
        StockRouteKind::Financial(c) => seq!["financial"@, c],
        StockRouteKind::FundFlow(c) => seq!["fund_flow"@, c],
        StockRouteKind::Holders(c) => seq!["holders"@, c],
        StockRouteKind::Announcements(c) => seq!["announcements"@, c],
        StockRouteKind::MarketStatus => seq!["market"@, "status"@],
        StockRouteKind::MarketIndices => seq!["market"@, "indices"@],
        StockRouteKind::Lhb => seq!["market"@, "lhb"@],
        StockRouteKind::Sectors => seq!["sectors"@],
        StockRouteKind::Ranking => seq!["ranking"@],
        StockRouteKind::SectorStocks(c) => seq!["sectors"@, c, "stocks"@],
        StockRouteKind::Unknown => Seq::empty(),
    }
}

proof fn lemma_route_literals()
    ensures
        "search"@ != "quote"@, "search"@ != "kline"@, "search"@ != "detail"@, "search"@ != "financial"@,
        "search"@ != "fund_flow"@, "search"@ != "holders"@, "search"@ != "announcements"@, "search"@ != "market"@,
        "search"@ != "sectors"@, "search"@ != "ranking"@,
        "quote"@ != "kline"@, "quote"@ != "detail"@, "quote"@ != "financial"@, "quote"@ != "fund_flow"@,
        "quote"@ != "holders"@, "quote"@ != "announcements"@, "quote"@ != "market"@, "quote"@ != "sectors"@,
        "quote"@ != "ranking"@,
        "kline"@ != "detail"@, "kline"@ != "financial"@, "kline"@ != "fund_flow"@, "kline"@ != "holders"@,
        "kline"@ != "announcements"@, "kline"@ != "market"@, "kline"@ != "sectors"@, "kline"@ != "ranking"@,
        "detail"@ != "financial"@, "detail"@ != "fund_flow"@, "detail"@ != "holders"@, "detail"@ != "announcements"@,
        "detail"@ != "market"@, "detail"@ != "sectors"@, "detail"@ != "ranking"@,
        "financial"@ != "fund_flow"@, "financial"@ != "holders"@, "financial"@ != "announcements"@,
        "financial"@ != "market"@, "financial"@ != "sectors"@, "financial"@ != "ranking"@,
        "fund_flow"@ != "holders"@, "fund_flow"@ != "announcements"@, "fund_flow"@ != "market"@,
        "fund_flow"@ != "sectors"@, "fund_flow"@ != "ranking"@,
        "holders"@ != "announcements"@, "holders"@ != "market"@, "holders"@ != "sectors"@, "holders"@ != "ranking"@,
        "announcements"@ != "market"@, "announcements"@ != "sectors"@, "announcements"@ != "ranking"@,
        "market"@ != "sectors"@, "market"@ != "ranking"@, "sectors"@ != "ranking"@,
        "status"@ != "indices"@, "status"@ != "lhb"@, "indices"@ != "lhb"@,
        "GET"@ == "GET"@,
{
    reveal_strlit("search");
    reveal_strlit("quote");
    reveal_strlit("kline");
    reveal_strlit("detail");
    reveal_strlit("financial");
    reveal_strlit("fund_flow");
    reveal_strlit("holders");
    reveal_strlit("announcements");
    reveal_strlit("market");
    reveal_strlit("sectors");
    reveal_strlit("ranking");
    reveal_strlit("status");
    reveal_strlit("indices");
    reveal_strlit("lhb");
    assert("search"@.len() != "quote"@.len());
    assert("search"@.len() != "kline"@.len());
    assert("search"@[0] != "detail"@[0]);
    assert("search"@.len() != "financial"@.len());
    assert("search"@.len() != "fund_flow"@.len());
    assert("search"@.len() != "holders"@.len());
    assert("search"@.len() != "announcements"@.len());
    assert("search"@[0] != "market"@[0]);
    assert("search"@.len() != "sectors"@.len());
    assert("search"@.len() != "ranking"@.len());
    assert("quote"@[0] != "kline"@[0]);
    assert("quote"@.len() != "detail"@.len());
    assert("quote"@.len() != "financial"@.len());
    assert("quote"@.len() != "fund_flow"@.len());
    assert("quote"@.len() != "holders"@.len());
    assert("quote"@.len() != "announcements"@.len());
    assert("quote"@.len() != "market"@.len());
    assert("quote"@.len() != "sectors"@.len());
    assert("quote"@.len() != "ranking"@.len());
    assert("kline"@.len() != "detail"@.len());
    assert("kline"@.len() != "financial"@.len());
    assert("kline"@.len() != "fund_flow"@.len());
    assert("kline"@.len() != "holders"@.len());
    assert("kline"@.len() != "announcements"@.len());
    assert("kline"@.len() != "market"@.len());
    assert("kline"@.len() != "sectors"@.len());
    assert("kline"@.len() != "ranking"@.len());
    assert("detail"@.len() != "financial"@.len());
    assert("detail"@.len() != "fund_flow"@.len());
    assert("detail"@.len() != "holders"@.len());
    assert("detail"@.len() != "announcements"@.len());
    assert("detail"@[0] != "market"@[0]);
    assert("detail"@.len() != "sectors"@.len());
    assert("detail"@.len() != "ranking"@.len());
    assert("financial"@[1] != "fund_flow"@[1]);
    assert("financial"@.len() != "holders"@.len());
    assert("financial"@.len() != "announcements"@.len());
    assert("financial"@.len() != "market"@.len());
    assert("financial"@.len() != "sectors"@.len());
    assert("financial"@.len() != "ranking"@.len());
    assert("fund_flow"@.len() != "holders"@.len());
    assert("fund_flow"@.len() != "announcements"@.len());
    assert("fund_flow"@.len() != "market"@.len());
    assert("fund_flow"@.len() != "sectors"@.len());
    assert("fund_flow"@.len() != "ranking"@.len());
    assert("holders"@.len() != "announcements"@.len());
    assert("holders"@.len() != "market"@.len());
    assert("holders"@[0] != "sectors"@[0]);
    assert("holders"@[0] != "ranking"@[0]);
    assert("announcements"@.len() != "market"@.len());
    assert("announcements"@.len() != "sectors"@.len());
    assert("announcements"@.len() != "ranking"@.len());
    assert("market"@.len() != "sectors"@.len());
    assert("market"@.len() != "ranking"@.len());
    assert("sectors"@[0] != "ranking"@[0]);
    assert("status"@.len() != "indices"@.len());
    assert("status"@.len() != "lhb"@.len());
    assert("indices"@.len() != "lhb"@.len());
}

/// A GET request reaches the endpoint whose path is the request's path, so
/// distinct paths never reach the same endpoint: each `market/<x>` path reaches
/// the endpoint named `<x>`, each `detail/<code>` the details of that code.
pub proof fn law_route_is_the_path(s: Seq<Seq<char>>)
    requires
        !(route_of("GET"@, s) is Unknown),
    ensures
        endpoint_path(route_of("GET"@, s)) == s,
{
    lemma_route_literals();
    if s.len() == 1 {
        assert(s =~= seq![s[0]]);
    } else if s.len() == 2 {
        assert(s =~= seq![s[0], s[1]]);
    } else if s.len() == 3 {
        assert(s =~= seq![s[0], s[1], s[2]]);
    }
}

/// The path of every endpoint, requested with GET, reaches that endpoint.
pub proof fn law_path_reaches_its_endpoint(k: StockRouteKind)
    requires
        !(k is Unknown),
    ensures
        route_of("GET"@, endpoint_path(k)) == k,
{
    lemma_route_literals();
}

/// What a route is, with its code as characters.
pub enum StockRouteKind {
    /// Search.
    Search,
    /// Quote.
    Quote,
    /// Quote stream.
    QuoteStream,
    /// Candlesticks.
    Kline,
    /// Details.
    Detail(Seq<char>),
    /// Financial reports.
    Financial(Seq<char>),
    /// Fund flows.
    FundFlow(Seq<char>),
    /// Holders.
    Holders(Seq<char>),
    /// Announcements.
    Announcements(Seq<char>),
    /// Market status.
    MarketStatus,
    /// Market indices.
    MarketIndices,
    /// Dragon-tiger list.
    Lhb,
    /// Sectors.
    Sectors,
    /// Rankings.
    Ranking,
    /// Stocks of a sector.
    SectorStocks(Seq<char>),
    /// Anything else.
    Unknown,
}

impl StockRoute {
    /// What the route is.
    pub open spec fn kind(&self) -> StockRouteKind {
        match self {
            StockRoute::Search => StockRouteKind::Search,
            StockRoute::Quote => StockRouteKind::Quote,
            StockRoute::QuoteStream => StockRouteKind::QuoteStream,
            StockRoute::Kline => StockRouteKind::Kline,
            StockRoute::Detail(c) => StockRouteKind::Detail(c@),
            StockRoute::Financial(c) => StockRouteKind::Financial(c@),
            StockRoute::FundFlow(c) => StockRouteKind::FundFlow(c@),
            StockRoute::Holders(c) => StockRouteKind::Holders(c@),
            StockRoute::Announcements(c) => StockRouteKind::Announcements(c@),
            StockRoute::MarketStatus => StockRouteKind::MarketStatus,
            StockRoute::MarketIndices => StockRouteKind::MarketIndices,
            StockRoute::Lhb => StockRouteKind::Lhb,
            StockRoute::Sectors => StockRouteKind::Sectors,
            StockRoute::Ranking => StockRouteKind::Ranking,
            StockRoute::SectorStocks(c) => StockRouteKind::SectorStocks(c@),
            StockRoute::Unknown => StockRouteKind::Unknown,
        }
    }
}

/// Whether `v` is one segment `a`.
fn seg1(v: &Vec<String>, a: &str) -> (b: bool)
    ensures
        b == is1(strs(v@), a@),
{
    v.len() == 1 && str_eq(v[0].as_str(), a)
}

/// Whether `v` is two segments `a`, `b`.
fn seg2(v: &Vec<String>, a: &str, b: &str) -> (r: bool)
    ensures
        r == is2(strs(v@), a@, b@),
{
    v.len() == 2 && str_eq(v[0].as_str(), a) && str_eq(v[1].as_str(), b)
}

/// Whether `v` is two segments, the first `a`.
fn seg_code(v: &Vec<String>, a: &str) -> (r: bool)
    ensures
        r == with_code(strs(v@), a@),
{
    v.len() == 2 && str_eq(v[0].as_str(), a)
}

/// The endpoint of a request to `/stock/{path}` with `method`.
pub fn route_stock(method: &str, path: &str) -> (r: StockRoute)
    ensures
        r.kind() == route_of(method@, path_segments(path@)),
{
    let s = split_path(path);
    let ghost sv = strs(s@);
    if !str_eq(method, "GET") {
        StockRoute::Unknown
    } else if seg1(&s, "search") {
        StockRoute::Search
    } else if seg1(&s, "quote") {
        StockRoute::Quote
    } else if seg2(&s, "quote", "stream") {
        StockRoute::QuoteStream
    } else if seg1(&s, "kline") {
        StockRoute::Kline
    } else if seg_code(&s, "detail") {
        StockRoute::Detail(owned(s[1].as_str()))
    } else if seg_code(&s, "financial") {
        StockRoute::Financial(owned(s[1].as_str()))
    } else if seg_code(&s, "fund_flow") {
        StockRoute::FundFlow(owned(s[1].as_str()))
    } else if seg_code(&s, "holders") {
        StockRoute::Holders(owned(s[1].as_str()))
    } else if seg_code(&s, "announcements") {
        StockRoute::Announcements(owned(s[1].as_str()))
    } else if seg2(&s, "market", "status") {
        StockRoute::MarketStatus
    } else if seg2(&s, "market", "indices") {
        StockRoute::MarketIndices
    } else if seg2(&s, "market", "lhb") {
        StockRoute::Lhb
    } else if seg1(&s, "sectors") {
        StockRoute::Sectors
    } else if seg1(&s, "ranking") {
        StockRoute::Ranking
    } else if s.len() == 3 && str_eq(s[0].as_str(), "sectors") && str_eq(s[2].as_str(), "stocks") {
        StockRoute::SectorStocks(owned(s[1].as_str()))
    } else {
        StockRoute::Unknown
    }
}

/// The value of `key` among query pairs, if any.
pub open spec fn q_val(q: Seq<(Seq<char>, Seq<char>)>, key: Seq<char>) -> Option<Seq<char>> {
    if keys_of(q).contains(key) { Some(q[keys_of(q).index_of(key)].1) } else { None }
}

/// The value of `key` among query pairs, or `default`.
pub open spec fn q_or(q: Seq<(Seq<char>, Seq<char>)>, key: Seq<char>, default: Seq<char>) -> Seq<char> {
    match q_val(q, key) {
        Some(v) => v,
        None => default,
    }
}

/// The value of `key` in the query, or `default`.
pub fn query_or(q: &StringMap, key: &str, default: &str) -> (r: String)
    requires
        q.wf(),
    ensures
        r@ == q_or(q@, key@, default@),
{
    match q.get(key) {
        Some(v) => owned(v.as_str()),
        None => owned(default),
    }
}

/// A number parsed from text, or `default` when it is no number.
pub open spec fn number_or(s: Seq<char>, default: nat) -> nat {
    match crate::text::parse_usize_spec(s) {
        Some(v) => v,
        None => default,
    }
}

/// A field of a data request.
#[derive(Debug, Clone)]
pub enum EventField {
    /// Text.
    Text(String),
    /// A number.
    Number(usize),
}

/// A request for stock data that is missing from the cache.
#[derive(Debug, Clone)]
pub struct DataRequest {
    /// The stock.
    pub code: String,
    /// The kind of data.
    pub data_type: String,
    /// Further fields, by name.
    pub extra: Vec<(String, EventField)>,
}

/// What happens when the data is not in the cache.
#[derive(Debug, Clone)]
pub enum MissPolicy {
    /// Ask for it, then wait up to `max_retries` times `retry_delay_ms`.
    Fetch {
        /// The request sent.
        request: DataRequest,
        /// Waits.
        max_retries: u32,
        /// Milliseconds per wait.
        retry_delay_ms: u64,
    },
    /// Answer 404 with this message.
    NotFound(String),
}

/// What a stock request asks the server to do.
#[derive(Debug, Clone)]
pub enum StockPlan {
    /// Answer 400 with this message.
    BadRequest(String),
    /// Answer 404: no such endpoint.
    UnknownRoute {
        /// The error message.
        message: String,
        /// The full path.
        path: String,
        /// The method.
        method: String,
    },
    /// Search the stock list held under `key` in `scope`.
    Search {
        /// Cache scope of the list.
        scope: String,
        /// Cache key of the list.
        key: String,
        /// Words searched for.
        keyword: String,
        /// Most results.
        limit: usize,
    },
    /// Answer with cached data.
    Lookup {
        /// Cache scope.
        scope: String,
        /// Cache key.
        key: String,
        /// What to do on a miss.
        on_miss: MissPolicy,
    },
}

/// Whether `p` looks `key` up in `scope` and asks for `data_type` of `code` with
/// the further fields `extra` on a miss, waiting five times half a second.
pub open spec fn fetches(p: StockPlan, scope: Seq<char>, key: Seq<char>, code: Seq<char>, data_type: Seq<char>,
    extra: Seq<(Seq<char>, Option<Seq<char>>, Option<usize>)>) -> bool {
    &&& p matches StockPlan::Lookup { scope: sc, key: k, on_miss: MissPolicy::Fetch { request, max_retries, retry_delay_ms } }
    &&& sc@ == scope && k@ == key
    &&& request.code@ == code && request.data_type@ == data_type
    &&& extra_view(request.extra@) == extra
    &&& max_retries == 5 && retry_delay_ms == 500
}

/// The names and texts of further fields.
pub open spec fn extra_view(e: Seq<(String, EventField)>) -> Seq<(Seq<char>, Option<Seq<char>>, Option<usize>)> {
    e.map_values(|p: (String, EventField)| (p.0@, match p.1 {
        EventField::Text(t) => Some(t@),
        EventField::Number(_) => None,
    }, match p.1 {
        EventField::Number(n) => Some(n),
        EventField::Text(_) => None,
    }))
}

/// Whether `p` looks `key` up in `scope` and answers 404 with `message` on a miss.
pub open spec fn reports(p: StockPlan, scope: Seq<char>, key: Seq<char>, message: Seq<char>) -> bool {
    p matches StockPlan::Lookup { scope: sc, key: k, on_miss: MissPolicy::NotFound(m) }
        && sc@ == scope && k@ == key && m@ == message
}

/// Whether `p` is a 400 answer with `message`.
pub open spec fn bad(p: StockPlan, message: Seq<char>) -> bool {
    p matches StockPlan::BadRequest(m) && m@ == message
}

/// A lookup that fetches on a miss.
fn fetch_plan(scope: &str, key: String, code: &str, data_type: &str, extra: Vec<(String, EventField)>) -> (p: StockPlan)
    ensures
        fetches(p, scope@, key@, code@, data_type@, extra_view(extra@)),
{
    StockPlan::Lookup {
        scope: owned(scope),
        key,
        on_miss: MissPolicy::Fetch {
            request: DataRequest { code: owned(code), data_type: owned(data_type), extra },
            max_retries: 5,
            retry_delay_ms: 500,
        },
    }
}

/// A lookup that reports a miss.
fn report_plan(scope: &str, key: String, message: &str) -> (p: StockPlan)
    ensures
        reports(p, scope@, key@, message@),
{
    StockPlan::Lookup { scope: owned(scope), key, on_miss: MissPolicy::NotFound(owned(message)) }
}

/// A text field.
fn text_field(name: &str, value: String) -> (f: (String, EventField))
    ensures
        f.0@ == name@,
        f.1 matches EventField::Text(t) && t@ == value@,
{
    (owned(name), EventField::Text(value))
}

/// What a request to a stock endpoint asks for, from its query (`query`), its
/// path after `/stock/` and its method. Endpoints that need a code answer 400
/// without one; optional parameters take their defaults (`daily`, `annual`,
/// `inflow`, `top10`, `all`, `today`, `change_pct`, page 1, 10 per page, 20
/// search results).
pub fn plan_stock_request(route: &StockRoute, query: &StringMap, path: &str, method: &str) -> (p: StockPlan)
    requires
        query.wf(),
    ensures
        ({
            let q = query@;
            match route.kind() {
                StockRouteKind::Search => {
                    let kw = q_or(q, "keyword"@, ""@);
                    if kw.len() == 0 {
                        bad(p, "keyword is required"@)
                    } else {
                        p matches StockPlan::Search { scope, key, keyword, limit } && keyword@ == kw
                            && scope@ == "stock.list"@ && key@ == key1("list"@, "cn_a"@)
                            && limit == (match q_val(q, "limit"@) {
                                Some(l) => number_or(l, 20),
                                None => 20,
                            })
                    }
                },
                StockRouteKind::Quote => {
                    let code = q_or(q, "code"@, ""@);
                    if code.len() == 0 { bad(p, "code is required"@) } else {
                        fetches(p, "stock.quote"@, key1("quote"@, code), code, "quote"@, Seq::empty())
                    }
                },
                StockRouteKind::QuoteStream => {
                    let code = q_or(q, "code"@, ""@);
                    if code.len() == 0 { bad(p, "code is required"@) } else {
                        reports(p, "stock.quote"@, key1("stream"@, code), "Quote stream not found"@)
                    }
                },
                StockRouteKind::Kline => {
                    let code = q_or(q, "code"@, ""@);
                    let period = q_or(q, "period"@, "daily"@);
                    if code.len() == 0 { bad(p, "code is required"@) } else {
                        fetches(p, "stock.kline"@, key2("kline"@, code, period), code, "kline"@,
                            seq![("period"@, Some(period), None)])
                    }
                },
                StockRouteKind::Detail(code) => if code.len() == 0 { bad(p, "code is required"@) } else {
                    fetches(p, "stock.detail"@, key1("detail"@, code), code, "info"@, Seq::empty())
                },
                StockRouteKind::Financial(code) => if code.len() == 0 { bad(p, "code is required"@) } else {
                    fetches(p, "stock.financial"@, key2("financial"@, code, q_or(q, "type"@, "annual"@)), code, "financial"@,
                        seq![("report_type"@, Some(q_or(q, "type"@, "annual"@)), None)])
                },
                StockRouteKind::FundFlow(code) => if code.len() == 0 { bad(p, "code is required"@) } else {
                    reports(p, "stock.fund_flow"@, key2("fund_flow"@, code, q_or(q, "type"@, "inflow"@)),
                        "Fund flow data not found"@)
                },
                StockRouteKind::Holders(code) => if code.len() == 0 { bad(p, "code is required"@) } else {
                    fetches(p, "stock.holders"@, key2("holders"@, code, q_or(q, "type"@, "top10"@)), code, "holders"@,
                        seq![("holder_type"@, Some(q_or(q, "type"@, "top10"@)), None)])
                },
                StockRouteKind::Announcements(code) => if code.len() == 0 { bad(p, "code is required"@) } else {
                    let page = number_or(q_or(q, "page"@, "1"@), 1);
                    let limit = number_or(q_or(q, "limit"@, "10"@), 10);
                    fetches(p, "stock.announcements"@,
                        key2("announcements"@, code, decimal(page)) + ":"@ + decimal(limit), code, "announcements"@,
                        seq![("page"@, None, Some(page as usize)), ("limit"@, None, Some(limit as usize))])
                },
                StockRouteKind::MarketStatus => reports(p, "stock.market_status"@,
                    key1("market_status"@, q_or(q, "market"@, "all"@)), "Market status not found"@),
                StockRouteKind::MarketIndices => reports(p, "stock"@, "market_indices"@, "Market indices not found"@),
                StockRouteKind::Lhb => reports(p, "stock.lhb"@,
                    key2("lhb"@, q_or(q, "date"@, "today"@), q_or(q, "type"@, "all"@)), "LHB data not found"@),
                StockRouteKind::Sectors => reports(p, "stock.sectors"@,
                    key2("sectors"@, q_or(q, "type"@, "all"@), "all"@), "Sectors data not found"@),
                StockRouteKind::Ranking => reports(p, "stock.ranking"@,
                    key2("ranking"@, q_or(q, "type"@, "change_pct"@), q_or(q, "market"@, "all"@)),
                    "Stock ranking data not found"@),
                StockRouteKind::SectorStocks(code) => if code.len() == 0 { bad(p, "code is required"@) } else {
                    reports(p, "stock"@, key1("sector_stocks"@, code), "Sector stocks data not found"@)
                },
                StockRouteKind::Unknown => p matches StockPlan::UnknownRoute { message: msg, path: fp, method: m }
                    && msg@ == "Stock API endpoint not found"@ && fp@ == "/stock/"@ + path@ && m@ == method@,
            }
        }),
{
    match route {
        StockRoute::Search => {
            let keyword = query_or(query, "keyword", "");
            if keyword.unicode_len() == 0 {
                return StockPlan::BadRequest(owned("keyword is required"));
            }
            let limit = match query.get("limit") {
                Some(l) => match crate::text::parse_usize(l.as_str()) {
                    Some(n) => n,
                    None => 20,
                },
                None => 20,
            };
            StockPlan::Search { scope: owned("stock.list"), key: stock_list_key("cn_a"), keyword, limit }
        },
        StockRoute::Quote => {
            let code = query_or(query, "code", "");
            if code.unicode_len() == 0 {
                return StockPlan::BadRequest(owned("code is required"));
            }
            let extra: Vec<(String, EventField)> = Vec::new();
            assert(extra_view(extra@) =~= Seq::empty());
            fetch_plan("stock.quote", stock_quote_key(code.as_str()), code.as_str(), "quote", extra)
        },
        StockRoute::QuoteStream => {
            let code = query_or(query, "code", "");
            if code.unicode_len() == 0 {
                return StockPlan::BadRequest(owned("code is required"));
            }
            report_plan("stock.quote", stock_stream_key(code.as_str()), "Quote stream not found")
        },
        StockRoute::Kline => {
            let code = query_or(query, "code", "");
            let period = query_or(query, "period", "daily");
            if code.unicode_len() == 0 {
                return StockPlan::BadRequest(owned("code is required"));
            }
            let key = stock_kline_key(code.as_str(), period.as_str());
            let ghost pv = period@;
            let extra = vec![text_field("period", period)];
            assert(extra_view(extra@) =~= seq![("period"@, Some(pv), None::<usize>)]);
            fetch_plan("stock.kline", key, code.as_str(), "kline", extra)
        },
        StockRoute::Detail(code) => {
            if code.unicode_len() == 0 {
                return StockPlan::BadRequest(owned("code is required"));
            }
            let extra: Vec<(String, EventField)> = Vec::new();
            assert(extra_view(extra@) =~= Seq::empty());
            fetch_plan("stock.detail", stock_detail_key(code.as_str()), code.as_str(), "info", extra)
        },
        StockRoute::Financial(code) => {
            if code.unicode_len() == 0 {
                return StockPlan::BadRequest(owned("code is required"));
            }
            let report_type = query_or(query, "type", "annual");
            let key = stock_financial_key(code.as_str(), report_type.as_str());
            let ghost rv = report_type@;
            let extra = vec![text_field("report_type", report_type)];
            assert(extra_view(extra@) =~= seq![("report_type"@, Some(rv), None::<usize>)]);
            fetch_plan("stock.financial", key, code.as_str(), "financial", extra)
        },
        StockRoute::FundFlow(code) => {
            if code.unicode_len() == 0 {
                return StockPlan::BadRequest(owned("code is required"));
            }
            let flow_type = query_or(query, "type", "inflow");
            report_plan("stock.fund_flow", stock_fund_flow_key(code.as_str(), flow_type.as_str()), "Fund flow data not found")
        },
        StockRoute::Holders(code) => {
            if code.unicode_len() == 0 {
                return StockPlan::BadRequest(owned("code is required"));
            }
            let holder_type = query_or(query, "type", "top10");
            let key = stock_holders_key(code.as_str(), holder_type.as_str());
            let ghost hv = holder_type@;
            let extra = vec![text_field("holder_type", holder_type)];
            assert(extra_view(extra@) =~= seq![("holder_type"@, Some(hv), None::<usize>)]);
            fetch_plan("stock.holders", key, code.as_str(), "holders", extra)
        },
        StockRoute::Announcements(code) => {
            if code.unicode_len() == 0 {
                return StockPlan::BadRequest(owned("code is required"));
            }
            let page_text = query_or(query, "page", "1");
            let page = match crate::text::parse_usize(page_text.as_str()) {
                Some(n) => n,
                None => 1,
            };
            let limit_text = query_or(query, "limit", "10");
            let limit = match crate::text::parse_usize(limit_text.as_str()) {
                Some(n) => n,
                None => 10,
            };
            let key = stock_announcements_key(code.as_str(), page, limit);
            let extra = vec![(owned("page"), EventField::Number(page)), (owned("limit"), EventField::Number(limit))];
            assert(extra_view(extra@) =~= seq![("page"@, None::<Seq<char>>, Some(page)), ("limit"@, None::<Seq<char>>, Some(limit))]);
            fetch_plan("stock.announcements", key, code.as_str(), "announcements", extra)
        },
        StockRoute::MarketStatus => {
            let market = query_or(query, "market", "all");
            report_plan("stock.market_status", stock_market_status_key(market.as_str()), "Market status not found")
        },
        StockRoute::MarketIndices => {
            report_plan("stock", owned("market_indices"), "Market indices not found")
        },
        StockRoute::Lhb => {
            let date = query_or(query, "date", "today");
            let lhb_type = query_or(query, "type", "all");
            report_plan("stock.lhb", stock_lhb_key(date.as_str(), lhb_type.as_str()), "LHB data not found")
        },
        StockRoute::Sectors => {
            let sector_type = query_or(query, "type", "all");
            report_plan("stock.sectors", stock_sectors_key(sector_type.as_str(), "all"), "Sectors data not found")
        },
        StockRoute::Ranking => {
            let ranking_type = query_or(query, "type", "change_pct");
            let market = query_or(query, "market", "all");
            report_plan("stock.ranking", stock_ranking_key(ranking_type.as_str(), market.as_str()),
                "Stock ranking data not found")
        },
        StockRoute::SectorStocks(code) => {
            if code.unicode_len() == 0 {
                return StockPlan::BadRequest(owned("code is required"));
            }
            report_plan("stock", concat3("sector_stocks", ":", code.as_str()), "Sector stocks data not found")
        },
        StockRoute::Unknown => StockPlan::UnknownRoute {
            message: owned("Stock API endpoint not found"),
            path: concat2("/stock/", path),
            method: owned(method),
        },
    }
}

/// The answer to a stock request.
#[derive(Debug, Clone)]
pub enum StockReply {
    /// 200 with the cached data.
    Data,
    /// An error status with a message.
    Error {
        /// HTTP status.
        status: u16,
        /// Message.
        message: String,
    },
}

/// Whether `r` is an error answer with `status` and `message`.
pub open spec fn error_reply(r: StockReply, status: u16, message: Seq<char>) -> bool {
    r matches StockReply::Error { status: s, message: m } && s == status && m@ == message
}

/// What reading the cache gave.
#[derive(Debug, Clone, Copy, PartialEq, Eq, Structural)]
pub enum CacheRead {
    /// Data was there; `parsed` tells whether it was valid JSON.
    Hit {
        /// Whether the data parsed.
        parsed: bool,
    },
    /// Nothing was there.
    Miss,
    /// The cache failed.
    Failed,
}

/// The next step of a lookup.
#[derive(Debug, Clone)]
pub enum LookupStep {
    /// Answer.
    Reply(StockReply),
    /// Send the data request and wait for the data.
    StartFetch,
}

/// The answer to a cache hit or failure: the data, or 500 when it does not parse
/// or the cache failed.
fn read_reply(read: CacheRead) -> (r: StockReply)
    requires
        !(read is Miss),
    ensures
        read == (CacheRead::Hit { parsed: true }) ==> r is Data,
        read == (CacheRead::Hit { parsed: false }) ==> error_reply(r, 500, "Failed to parse cached data"@),
        read is Failed ==> error_reply(r, 500, "Cache query failed"@),
{
    match read {
        CacheRead::Hit { parsed } => if parsed {
            StockReply::Data
        } else {
            StockReply::Error { status: 500, message: owned("Failed to parse cached data") }
        },
        _ => StockReply::Error { status: 500, message: owned("Cache query failed") },
    }
}

/// The step after the first cache read of a lookup: a hit or a failure is
/// answered; a miss is answered 404 or starts a fetch, as the plan says.
pub fn lookup_step(read: CacheRead, on_miss: &MissPolicy) -> (s: LookupStep)
    ensures
        read == (CacheRead::Hit { parsed: true }) ==> (s matches LookupStep::Reply(StockReply::Data)),
        read == (CacheRead::Hit { parsed: false }) ==> (s matches LookupStep::Reply(r)
            && error_reply(r, 500, "Failed to parse cached data"@)),
        read is Failed ==> (s matches LookupStep::Reply(r) && error_reply(r, 500, "Cache query failed"@)),
        read is Miss ==> match on_miss {
            MissPolicy::Fetch { .. } => s is StartFetch,
            MissPolicy::NotFound(m) => s matches LookupStep::Reply(r) && error_reply(r, 404, m@),
        },
{
    match read {
        CacheRead::Miss => match on_miss {
            MissPolicy::Fetch { .. } => LookupStep::StartFetch,
            MissPolicy::NotFound(m) => LookupStep::Reply(StockReply::Error { status: 404, message: owned(m.as_str()) }),
        },
        _ => LookupStep::Reply(read_reply(read)),
    }
}

/// The step after a wait while fetching.
#[derive(Debug, Clone)]
pub enum WaitStep {
    /// Answer.
    Reply(StockReply),
    /// Wait again.
    KeepWaiting,
}

/// The step after wait number `attempt` (from 0) of `max_retries` and a read of
/// the cache: a hit or a failure is answered; a miss waits again, and after the
/// last wait is answered 404.
pub fn wait_step(attempt: u32, max_retries: u32, read: CacheRead) -> (s: WaitStep)
    requires
        attempt < max_retries,
    ensures
        read == (CacheRead::Hit { parsed: true }) ==> (s matches WaitStep::Reply(StockReply::Data)),
        read == (CacheRead::Hit { parsed: false }) ==> (s matches WaitStep::Reply(r)
            && error_reply(r, 500, "Failed to parse cached data"@)),
        read is Failed ==> (s matches WaitStep::Reply(r) && error_reply(r, 500, "Cache query failed"@)),
        read is Miss ==> if attempt + 1 < max_retries {
            s is KeepWaiting
        } else {
            s matches WaitStep::Reply(r) && error_reply(r, 404, "Data not available after retries"@)
        },
{
    match read {
        CacheRead::Miss => if attempt + 1 < max_retries {
            WaitStep::KeepWaiting
        } else {
            WaitStep::Reply(StockReply::Error { status: 404, message: owned("Data not available after retries") })
        },
        _ => WaitStep::Reply(read_reply(read)),
    }
}

/// The fields of a listed stock that a search looks at.
#[derive(Debug, Clone)]
pub struct StockFields {
    /// Name, when it is text.
    pub name: Option<String>,
    /// Code, when it is text.
    pub code: Option<String>,
    /// Industry, when it is text.
    pub industry: Option<String>,
}

/// Whether an optional text holds `kw` when both are lower-cased.
pub open spec fn field_has(f: Option<String>, kw: Seq<char>) -> bool {
    f matches Some(t) && contains_seq(lowercase(t@), lowercase(kw))
}

/// Whether a stock matches a keyword by name, code or industry.
pub open spec fn stock_matches(s: StockFields, kw: Seq<char>) -> bool {
    field_has(s.name, kw) || field_has(s.code, kw) || field_has(s.industry, kw)
}

/// The positions of the stocks that match `kw`, in order.
pub open spec fn matching(stocks: Seq<StockFields>, kw: Seq<char>) -> Seq<int>
    decreases stocks.len(),
{
    if stocks.len() == 0 {
        Seq::empty()
    } else {
        matching(stocks.drop_last(), kw)
            + (if stock_matches(stocks.last(), kw) { seq![stocks.len() - 1] } else { Seq::empty() })
    }
}

/// How many results a search keeps: `limit`, but the first match is always kept.
pub open spec fn kept_count(limit: nat) -> nat {
    if limit == 0 { 1 } else { limit }
}

/// Whether a field holds the lower-cased keyword.
fn field_matches(f: &Option<String>, kw_lower: &str) -> (b: bool)
    ensures
        b == (f matches Some(t) && contains_seq(lowercase(t@), kw_lower@)),
{
    match f {
        Some(t) => {
            let l = to_lower(t.as_str());
            str_contains(l.as_str(), kw_lower)
        },
        None => false,
    }
}

proof fn lemma_matching_prefix(stocks: Seq<StockFields>, kw: Seq<char>, i: int)
    requires
        0 <= i < stocks.len(),
    ensures
        matching(stocks.take(i + 1), kw) == matching(stocks.take(i), kw)
            + (if stock_matches(stocks[i], kw) { seq![i] } else { Seq::<int>::empty() }),
{
    assert(stocks.take(i + 1).drop_last() =~= stocks.take(i));
    assert(stocks.take(i + 1).last() == stocks[i]);
}

/// The positions of the stocks whose name, code or industry holds the keyword,
/// compared in lower case, in order; at most `limit` of them, though the first
/// match is kept even when `limit` is 0.
pub fn search_stocks(stocks: &Vec<StockFields>, keyword: &str, limit: usize) -> (r: Vec<usize>)
    ensures
        r@.map_values(|i: usize| i as int) == matching(stocks@, keyword@).take(
            if matching(stocks@, keyword@).len() < kept_count(limit as nat) {
                matching(stocks@, keyword@).len() as int
            } else {
                kept_count(limit as nat) as int
            },
        ),
{
    let kw = to_lower(keyword);
    let mut results: Vec<usize> = Vec::new();
    let mut i: usize = 0;
    let ghost all = matching(stocks@, keyword@);
    assert(stocks@.take(0) =~= Seq::<StockFields>::empty());
    while i < stocks.len()
        invariant
            i <= stocks.len(),
            kw@ == lowercase(keyword@),
            all == matching(stocks@, keyword@),
            results@.map_values(|j: usize| j as int) == matching(stocks@.take(i as int), keyword@),
            results.len() < kept_count(limit as nat),
        decreases stocks.len() - i,
    {
        let s = &stocks[i];
        let hit = field_matches(&s.name, kw.as_str()) || field_matches(&s.code, kw.as_str())
            || field_matches(&s.industry, kw.as_str());
        proof { lemma_matching_prefix(stocks@, keyword@, i as int); }
        if hit {
            let ghost before = results@;
            results.push(i);
            assert(results@.map_values(|j: usize| j as int) =~= before.map_values(|j: usize| j as int).push(i as int));
            if results.len() >= limit {
                proof {
                    lemma_matching_grows(stocks@, keyword@, i + 1);
                }
                return results;
            }
        } else {
            assert(matching(stocks@.take(i + 1), keyword@) =~= matching(stocks@.take(i as int), keyword@));
        }
        i = i + 1;
    }
    assert(stocks@.take(i as int) =~= stocks@);
    results
}

/// The matches among the first `k` stocks begin the matches among all.
proof fn lemma_matching_grows(stocks: Seq<StockFields>, kw: Seq<char>, k: int)
    requires
        0 <= k <= stocks.len(),
    ensures
        matching(stocks.take(k), kw) =~= matching(stocks, kw).take(matching(stocks.take(k), kw).len() as int),
        matching(stocks.take(k), kw).len() <= matching(stocks, kw).len(),
    decreases stocks.len() - k,
{
    if k == stocks.len() {
        assert(stocks.take(k) =~= stocks);
    } else {
        lemma_matching_grows(stocks, kw, k + 1);
        lemma_matching_prefix(stocks, kw, k);
    }
}

/// The answer to a search of the stock list when the list could not be used:
/// 404 when it is not cached, 500 when the cache failed, when it does not parse,
/// or when it is no array.
pub fn search_failure(read: CacheRead, is_array: bool) -> (r: Option<StockReply>)
    ensures
        read is Miss ==> (r matches Some(x) && error_reply(x, 404, "Stock list not found in cache"@)),
        read is Failed ==> (r matches Some(x) && error_reply(x, 500, "Cache query failed"@)),
        read == (CacheRead::Hit { parsed: false }) ==> (r matches Some(x) && error_reply(x, 500, "Failed to parse stock list"@)),
        read == (CacheRead::Hit { parsed: true }) ==> if is_array { r is None } else {
            r matches Some(x) && error_reply(x, 500, "Invalid stock list format"@)
        },
{
    match read {
        CacheRead::Miss => Some(StockReply::Error { status: 404, message: owned("Stock list not found in cache") }),
        CacheRead::Failed => Some(StockReply::Error { status: 500, message: owned("Cache query failed") }),
        CacheRead::Hit { parsed } => if !parsed {
            Some(StockReply::Error { status: 500, message: owned("Failed to parse stock list") })
        } else if !is_array {
            Some(StockReply::Error { status: 500, message: owned("Invalid stock list format") })
        } else {
            None
        },
    }
}

/// Whether an optional text holds `kw` when both are lower-cased.
pub open spec fn text_has(t: Option<Seq<char>>, kw: Seq<char>) -> bool {
    t matches Some(x) && contains_seq(lowercase(x), lowercase(kw))
}

/// Whether a listed stock (a JSON value) matches `kw` by its `name`, `code` or
/// `industry` string.
pub open spec fn listed_matches(v: JsonView, kw: Seq<char>) -> bool {
    text_has(text_member(v, "name"@), kw) || text_has(text_member(v, "code"@), kw)
        || text_has(text_member(v, "industry"@), kw)
}

/// The positions of the listed stocks that match `kw`, in order.
pub open spec fn listed_matching(items: Seq<JsonView>, kw: Seq<char>) -> Seq<int>
    decreases items.len(),
{
    if items.len() == 0 {
        Seq::empty()
    } else {
        listed_matching(items.drop_last(), kw)
            + (if listed_matches(items.last(), kw) { seq![items.len() - 1] } else { Seq::empty() })
    }
}

/// What a search of the listed stocks `items` for `kw` keeps: the matching
/// stocks in order, at most `limit` of them (the first match even when `limit`
/// is 0).
pub open spec fn search_result(items: Seq<JsonView>, kw: Seq<char>, limit: nat) -> Seq<JsonView> {
    let m = listed_matching(items, kw);
    let n = if m.len() < kept_count(limit) { m.len() as int } else { kept_count(limit) as int };
    m.take(n).map_values(|i: int| items[i])
}

/// The fields a search reads of a listed stock, as views.
pub open spec fn fields_read(v: JsonView) -> (Option<Seq<char>>, Option<Seq<char>>, Option<Seq<char>>) {
    (text_member(v, "name"@), text_member(v, "code"@), text_member(v, "industry"@))
}

/// The views of a stock's fields.
pub open spec fn fields_view(f: StockFields) -> (Option<Seq<char>>, Option<Seq<char>>, Option<Seq<char>>) {
    (opt_text(f.name), opt_text(f.code), opt_text(f.industry))
}

proof fn lemma_matching_views(fs: Seq<StockFields>, items: Seq<JsonView>, kw: Seq<char>)
    requires
        fs.len() == items.len(),
        forall|i: int| 0 <= i < fs.len() ==> fields_view(#[trigger] fs[i]) == fields_read(items[i]),
    ensures
        matching(fs, kw) == listed_matching(items, kw),
    decreases fs.len(),
{
    if fs.len() > 0 {
        lemma_matching_views(fs.drop_last(), items.drop_last(), kw);
        let l = fs.last();
        assert(fields_view(fs[fs.len() - 1]) == fields_read(items[items.len() - 1]));
        assert(stock_matches(l, kw) == listed_matches(items.last(), kw));
    }
}

proof fn lemma_listed_matching_in_range(items: Seq<JsonView>, kw: Seq<char>)
    ensures
        forall|j: int| 0 <= j < listed_matching(items, kw).len()
            ==> 0 <= #[trigger] listed_matching(items, kw)[j] < items.len(),
    decreases items.len(),
{
    if items.len() > 0 {
        let pre = listed_matching(items.drop_last(), kw);
        lemma_listed_matching_in_range(items.drop_last(), kw);
        let tail: Seq<int> = if listed_matches(items.last(), kw) { seq![items.len() - 1] } else { Seq::empty() };
        assert(listed_matching(items, kw) == pre + tail);
        assert forall|j: int| 0 <= j < listed_matching(items, kw).len()
            implies 0 <= #[trigger] listed_matching(items, kw)[j] < items.len() by {
            if j < pre.len() {
                assert(listed_matching(items, kw)[j] == pre[j]);
            } else {
                assert(listed_matching(items, kw)[j] == tail[j - pre.len()]);
            }
        }
    }
}

/// The fields a search reads of each stock of a list: the `name`, `code` and
/// `industry` members that are strings; `None` when the list is no array.
pub fn stock_fields_of(list: &JsonValue) -> (r: Option<Vec<StockFields>>)
    ensures
        match list.json() {
            JsonView::Array(items) => r matches Some(fs) && fs@.len() == items.len()
                && forall|i: int| 0 <= i < items.len() ==> fields_view(#[trigger] fs@[i]) == fields_read(items[i]),
            _ => r is None,
        },
{
    match list {
        JsonValue::Array(a) => {
            let ghost items = list.json()->Array_0;
            let mut fs: Vec<StockFields> = Vec::new();
            let mut i: usize = 0;
            while i < a.len()
                invariant
                    i <= a@.len(),
                    list.json() == JsonView::Array(items),
                    items.len() == a@.len(),
                    forall|j: int| 0 <= j < a@.len() ==> #[trigger] items[j] == a@[j].json(),
                    fs@.len() == i,
                    forall|j: int| 0 <= j < i ==> fields_view(#[trigger] fs@[j]) == fields_read(items[j]),
                decreases a.len() - i,
            {
                let name = string_member(&a[i], "name");
                let code = string_member(&a[i], "code");
                let industry = string_member(&a[i], "industry");
                fs.push(StockFields { name, code, industry });
                i = i + 1;
            }
            Some(fs)
        },
        _ => None,
    }
}

/// What the cache gave for a key: nothing, its bytes, or a failure.
pub enum CachedBytes {
    /// Nothing is stored under the key.
    Missing,
    /// The stored bytes.
    Found(Vec<u8>),
    /// The cache failed.
    Failed,
}

/// What a read of the cache means to the stock handlers, and the JSON read: a
/// hit parsed or not, a miss, or a failure.
pub open spec fn cached_json_read(c: CachedBytes) -> (CacheRead, Option<JsonView>) {
    match c {
        CachedBytes::Missing => (CacheRead::Miss, None),
        CachedBytes::Failed => (CacheRead::Failed, None),
        CachedBytes::Found(b) => match json_of(b@) {
            Some(j) => (CacheRead::Hit { parsed: true }, Some(j)),
            None => (CacheRead::Hit { parsed: false }, None),
        },
    }
}

/// Parses what the cache gave as JSON.
pub fn read_cached_json(c: CachedBytes) -> (r: (CacheRead, Option<JsonValue>))
    ensures
        r.0 == cached_json_read(c).0,
        crate::api::json::opt_json(r.1) == cached_json_read(c).1,
{
    match c {
        CachedBytes::Missing => (CacheRead::Miss, None),
        CachedBytes::Failed => (CacheRead::Failed, None),
        CachedBytes::Found(b) => match parse_json(b.as_slice()) {
            Some(j) => (CacheRead::Hit { parsed: true }, Some(j)),
            None => (CacheRead::Hit { parsed: false }, None),
        },
    }
}

/// The outcome of a search of the cached stock list: an error answer, or the
/// stocks found.
pub enum StockSearchOutcome {
    /// The answer when the list could not be used.
    Reply(StockReply),
    /// The stocks found, in list order.
    Found(Vec<JsonValue>),
}

/// Searches the cached stock list `cached` for `keyword`: 404 when the list is
/// not cached, 500 when the cache failed, when it is no JSON or no array;
/// otherwise the listed stocks whose `name`, `code` or `industry` string holds
/// the keyword (compared in lower case), in list order, at most `limit` of them
/// (the first match even when `limit` is 0).
pub fn stock_search_reply(cached: CachedBytes, keyword: &str, limit: usize) -> (r: StockSearchOutcome)
    ensures
        match cached_json_read(cached) {
            (CacheRead::Miss, _) => r matches StockSearchOutcome::Reply(x) && error_reply(x, 404, "Stock list not found in cache"@),
            (CacheRead::Failed, _) => r matches StockSearchOutcome::Reply(x) && error_reply(x, 500, "Cache query failed"@),
            (_, None) => r matches StockSearchOutcome::Reply(x) && error_reply(x, 500, "Failed to parse stock list"@),
            (_, Some(JsonView::Array(items))) => r matches StockSearchOutcome::Found(f)
                && f@.map_values(|v: JsonValue| v.json()) == search_result(items, keyword@, limit as nat),
            (_, Some(_)) => r matches StockSearchOutcome::Reply(x) && error_reply(x, 500, "Invalid stock list format"@),
        },
{
    let ghost c = cached_json_read(cached);
    let (read, data) = read_cached_json(cached);
    let is_array = match &data {
        Some(JsonValue::Array(_)) => true,
        _ => false,
    };
    if let Some(x) = search_failure(read, is_array) {
        return StockSearchOutcome::Reply(x);
    }
    let list = match data {
        Some(l) => l,
        None => {
            return StockSearchOutcome::Found(Vec::new());
        },
    };
    let fields = match stock_fields_of(&list) {
        Some(f) => f,
        None => {
            return StockSearchOutcome::Found(Vec::new());
        },
    };
    let ghost items = list.json()->Array_0;
    proof { lemma_matching_views(fields@, items, keyword@); }
    let idx = search_stocks(&fields, keyword, limit);
    let ghost want = search_result(items, keyword@, limit as nat);
    let ghost m = listed_matching(items, keyword@);
    proof {
        lemma_listed_matching_in_range(items, keyword@);
        assert forall|j: int| 0 <= j < idx@.len() implies 0 <= #[trigger] idx@[j] < items.len()
            && items[idx@[j] as int] == want[j] by {
            assert(idx@.map_values(|i: usize| i as int)[j] == idx@[j] as int);
        }
    }
    let mut found: Vec<JsonValue> = Vec::new();
    match &list {
        JsonValue::Array(a) => {
            let mut k: usize = 0;
            while k < idx.len()
                invariant
                    k <= idx@.len(),
                    list.json() == JsonView::Array(items),
                    *a == list->Array_0,
                    items.len() == a@.len(),
                    forall|j: int| 0 <= j < a@.len() ==> #[trigger] items[j] == a@[j].json(),
                    idx@.len() == want.len(),
                    forall|j: int| 0 <= j < idx@.len() ==> 0 <= #[trigger] idx@[j] < a@.len() && items[idx@[j] as int] == want[j],
                    found@.len() == k,
                    forall|j: int| 0 <= j < k ==> (#[trigger] found@[j]).json() == want[j],
                decreases idx.len() - k,
            {
                let x = copy_json(&a[idx[k]]);
                found.push(x);
                k = k + 1;
            }
        },
        _ => {},
    }
    assert(found@.map_values(|v: JsonValue| v.json()) =~= want);
    StockSearchOutcome::Found(found)
}

/// The cache key of the data of kind `data_type` for `code` that a data-ready
/// notice announces, `report` being its report type; `None` for an unknown kind.
pub open spec fn ready_key(code: Seq<char>, data_type: Seq<char>, report: Option<Seq<char>>) -> Option<Seq<char>> {
    if data_type == "info"@ {
        Some(key1("detail"@, code))
    } else if data_type == "financial"@ {
        Some(key2("financial"@, code, match report { Some(t) => t, None => "annual"@ }))
    } else if data_type == "industry"@ {
        Some(key1("industry"@, code))
    } else if data_type == "quote"@ {
        Some(key1("quote"@, code))
    } else if data_type == "kline"@ {
        Some(key2("kline"@, code, "daily"@))
    } else if data_type == "holders"@ {
        Some(key2("holders"@, code, "top10"@))
    } else if data_type == "announcements"@ {
        Some(key2("announcements"@, code, decimal(1)) + ":"@ + decimal(10))
    } else {
        None
    }
}

/// What a data-ready notice asks of the waiting requests.
pub enum ReadyNotice {
    /// Nothing: the notice is no JSON object with `code` and `data_type` strings.
    Ignored,
    /// Its kind of data is unknown.
    UnknownKind(String),
    /// Wake the request waiting for this cache key.
    Wake(String),
}

/// What a data-ready notice (JSON text) asks: the key of the data it announces,
/// from its `code`, `data_type` and (for financial reports) `report_type`
/// strings.
pub fn ready_notice(event: &str) -> (r: ReadyNotice)
    ensures
        match json_of(vstd::string::StringSliceAdditionalSpecFns::spec_bytes(event)) {
            Some(v) => match (text_member(v, "code"@), text_member(v, "data_type"@)) {
                (Some(code), Some(kind)) => match ready_key(code, kind, text_member(v, "report_type"@)) {
                    Some(k) => r matches ReadyNotice::Wake(x) && x@ == k,
                    None => r matches ReadyNotice::UnknownKind(x) && x@ == kind,
                },
                _ => r is Ignored,
            },
            None => r is Ignored,
        },
{
    let v = match parse_json(event.as_bytes()) {
        Some(v) => v,
        None => {
            return ReadyNotice::Ignored;
        },
    };
    let code = string_member(&v, "code");
    let kind = string_member(&v, "data_type");
    match (code, kind) {
        (Some(c), Some(d)) => {
            let report = string_member(&v, "report_type");
            let rt: Option<&str> = match &report {
                Some(t) => Some(t.as_str()),
                None => None,
            };
            match ready_notice_key(c.as_str(), d.as_str(), rt) {
                Some(k) => ReadyNotice::Wake(k),
                None => ReadyNotice::UnknownKind(d),
            }
        },
        _ => ReadyNotice::Ignored,
    }
}

/// The cache key a data-ready notice is about: by kind of data, with the
/// defaults the handlers use; `None` for an unknown kind.
pub fn ready_notice_key(code: &str, data_type: &str, report_type: Option<&str>) -> (k: Option<String>)
    ensures
        opt_text(k) == ready_key(code@, data_type@, match report_type { Some(t) => Some(t@), None => None }),
        data_type@ == "info"@ ==> (k matches Some(x) && x@ == key1("detail"@, code@)),
        data_type@ == "financial"@ ==> (k matches Some(x) && x@ == key2("financial"@, code@,
            match report_type { Some(t) => t@, None => "annual"@ })),
        data_type@ == "industry"@ ==> (k matches Some(x) && x@ == key1("industry"@, code@)),
        data_type@ == "quote"@ ==> (k matches Some(x) && x@ == key1("quote"@, code@)),
        data_type@ == "kline"@ ==> (k matches Some(x) && x@ == key2("kline"@, code@, "daily"@)),
        data_type@ == "holders"@ ==> (k matches Some(x) && x@ == key2("holders"@, code@, "top10"@)),
        data_type@ == "announcements"@ ==> (k matches Some(x)
            && x@ == key2("announcements"@, code@, decimal(1)) + ":"@ + decimal(10)),
        !(data_type@ == "info"@ || data_type@ == "financial"@ || data_type@ == "industry"@ || data_type@ == "quote"@
            || data_type@ == "kline"@ || data_type@ == "holders"@ || data_type@ == "announcements"@) ==> k is None,
{
    proof {
        reveal_strlit("info");
        reveal_strlit("financial");
        reveal_strlit("industry");
        reveal_strlit("quote");
        reveal_strlit("kline");
        reveal_strlit("holders");
        reveal_strlit("announcements");
        assert("kline"@[0] != "quote"@[0]);
    }
    if str_eq(data_type, "info") {
        Some(stock_detail_key(code))
    } else if str_eq(data_type, "financial") {
        let t = match report_type {
            Some(t) => t,
            None => "annual",
        };
        Some(stock_financial_key(code, t))
    } else if str_eq(data_type, "industry") {
        Some(concat3("industry", ":", code))
    } else if str_eq(data_type, "quote") {
        Some(stock_quote_key(code))
    } else if str_eq(data_type, "kline") {
        Some(stock_kline_key(code, "daily"))
    } else if str_eq(data_type, "holders") {
        Some(stock_holders_key(code, "top10"))
    } else if str_eq(data_type, "announcements") {
        Some(stock_announcements_key(code, 1, 10))
    } else {
        None
    }
}

/// Parameters of a stock search.
#[derive(Debug, Clone)]
pub struct StockSearchQuery {
    /// Words searched for.
    pub keyword: String,
    /// Market.
    pub market: Option<String>,
    /// Most results.
    pub limit: Option<usize>,
}

/// Parameters of a quote.
#[derive(Debug, Clone)]
pub struct StockQuoteQuery {
    /// Stock.
    pub code: String,
    /// Market.
    pub market: Option<String>,
}

/// Parameters of candlesticks.
#[derive(Debug, Clone)]
pub struct KLineQuery {
    /// Stock.
    pub code: String,
    /// Period.
    pub period: Option<String>,
    /// Most candles.
    pub limit: Option<usize>,
}

/// Parameters of stock details.
#[derive(Debug, Clone)]
pub struct StockDetailQuery {
    /// Stock.
    pub code: String,
    /// Market.
    pub market: Option<String>,
}

/// Parameters of financial reports.
#[derive(Debug, Clone)]
pub struct FinancialQuery {
    /// Stock.
    pub code: String,
    /// Kind of report.
    pub report_type: Option<String>,
    /// Years.
    pub years: Option<usize>,
}

/// Parameters of fund flows.
#[derive(Debug, Clone)]
pub struct FundFlowQuery {
    /// Stock.
    pub code: String,
    /// Days.
    pub days: Option<usize>,
    /// Market.
    pub market: Option<String>,
}

/// Parameters of holders.
#[derive(Debug, Clone)]
pub struct HoldersQuery {
    /// Stock.
    pub code: String,
    /// Quarter.
    pub quarter: Option<String>,
}

/// Parameters of announcements.
#[derive(Debug, Clone)]
pub struct AnnouncementsQuery {
    /// Stock.
    pub code: String,
    /// Page.
    pub page: Option<usize>,
    /// Per page.
    pub limit: Option<usize>,
}

/// Parameters of a market status.
#[derive(Debug, Clone)]
pub struct MarketStatusQuery {
    /// Market.
    pub market: Option<String>,
}

/// Parameters of the dragon-tiger list.
#[derive(Debug, Clone)]
pub struct LhbQuery {
    /// Date.
    pub date: Option<String>,
    /// Market.
    pub market: Option<String>,
}

/// Parameters of sectors.
#[derive(Debug, Clone)]
pub struct SectorsQuery {
    /// Kind of sector.
    pub sector_type: Option<String>,
    /// Market.
    pub market: Option<String>,
}

/// Parameters of a ranking.
#[derive(Debug, Clone)]
pub struct RankingQuery {
    /// Kind of ranking.
    pub ranking_type: Option<String>,
    /// Market.
    pub market: Option<String>,
    /// Most entries.
    pub limit: Option<usize>,
}

/// A listed stock.
#[derive(Debug, Clone)]
pub struct StockBasic {
    /// Code.
    pub code: String,
    /// Name.
    pub name: String,
    /// Market.
    pub market: String,
    /// Industry.
    pub industry: Option<String>,
    /// Area.
    pub area: Option<String>,
}

/// Whether a market is open.
#[derive(Debug, Clone)]
pub struct MarketStatus {
    /// Market.
    pub market: String,
    /// Whether it is open.
    pub is_open: bool,
    /// Opening time.
    pub open_time: Option<String>,
    /// Closing time.
    pub close_time: Option<String>,
    /// Status.
    pub status: String,
    /// Description.
    pub description: String,
}

} // verus!
