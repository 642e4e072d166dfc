//! The stock endpoints served by the Python stock bridge: which bridge function
//! a request calls with which arguments, how long its answer may be cached, and
//! the answers that need no call.
use vstd::prelude::*;
use crate::api::stock::{StockRoute, StockRouteKind, q_or, q_val, query_or};
use crate::derive::types::StringMap;
use crate::text::{concat2, owned, parse_i32, parse_i32_spec, parse_u64, parse_u64_spec, parse_usize,
    parse_usize_spec};

verus! {

/// Parameters of a stock search.
#[derive(Debug, Clone)]
pub struct StockSearchParams {
    /// Words searched for.
    pub q: String,
    /// Most results (20 when left out).
    pub limit: usize,
}

/// The number of search results when the request names none.
pub fn default_limit() -> (n: usize)
    ensures
        n == 20,
{
    20
}

/// Parameters of a candlestick request.
#[derive(Debug, Clone)]
pub struct KLineParams {
    /// The stock.
    pub code: String,
    /// Period (`daily` when left out).
    pub period: String,
    /// Price adjustment (`qfq` when left out).
    pub adjust: String,
    /// First date.
    pub start_date: Option<String>,
    /// Last date.
    pub end_date: Option<String>,
    /// Most candles (500 when left out).
    pub limit: usize,
}

impl KLineParams {
    /// The parameters for `code` with every default.
    pub fn new(code: String) -> (p: Self)
        ensures
            p.code == code,
            p.period@ == "daily"@,
            p.adjust@ == "qfq"@,
            p.start_date is None,
            p.end_date is None,
            p.limit == 500,
    {
        KLineParams { code, period: owned("daily"), adjust: owned("qfq"), start_date: None, end_date: None, limit: 500 }
    }
}

/// An argument handed to a bridge function.
#[derive(Debug, Clone)]
pub enum BridgeArg {
    /// Text.
    Text(String),
    /// A count.
    Count(usize),
    /// A signed number.
    Int(i32),
}

/// What a request to the bridged stock API asks the server to do.
#[derive(Debug, Clone)]
pub enum BridgePlan {
    /// Answer 400 with this error.
    BadRequest(String),
    /// Call the bridge function with these arguments (and keyword arguments);
    /// answer its JSON with the cache lifetime in seconds, or 500 with the
    /// failure text and the error.
    Call {
        /// The bridge function.
        function: String,
        /// Its arguments.
        args: Vec<BridgeArg>,
        /// Its keyword arguments.
        kwargs: Vec<(String, BridgeArg)>,
        /// How long the answer may be cached (`no-cache` when `None`).
        max_age: Option<u32>,
        /// What a failure is called.
        failure: String,
    },
    /// Stream the quotes of `codes` every `interval_secs` seconds.
    Stream {
        /// The stocks.
        codes: String,
        /// Seconds between quotes.
        interval_secs: u64,
    },
    /// Answer 404: no such endpoint.
    NotFound {
        /// The full path.
        path: String,
        /// The method.
        method: String,
    },
}

/// The view of a bridge argument.
pub enum ArgView {
    /// Text.
    Text(Seq<char>),
    /// A count.
    Count(nat),
    /// A signed number.
    Int(int),
}

/// The views of bridge arguments.
pub open spec fn arg_views(a: Seq<BridgeArg>) -> Seq<ArgView> {
    a.map_values(|x: BridgeArg| match x {
        BridgeArg::Text(t) => ArgView::Text(t@),
        BridgeArg::Count(n) => ArgView::Count(n as nat),
        BridgeArg::Int(i) => ArgView::Int(i as int),
    })
}

/// Whether `p` calls `function` with `args` and `kwargs`, caches `max_age` and
/// calls a failure `failure`.
pub open spec fn calls(p: BridgePlan, function: Seq<char>, args: Seq<ArgView>, kwargs: Seq<(Seq<char>, ArgView)>,
    max_age: Option<u32>, failure: Seq<char>) -> bool {
    &&& p matches BridgePlan::Call { function: f, args: a, kwargs: k, max_age: m, failure: e }
    &&& f@ == function && arg_views(a@) == args && m == max_age && e@ == failure
    &&& k@.map_values(|x: (String, BridgeArg)| x.0@) == kwargs.map_values(|x: (Seq<char>, ArgView)| x.0)
    &&& arg_views(k@.map_values(|x: (String, BridgeArg)| x.1)) == kwargs.map_values(|x: (Seq<char>, ArgView)| x.1)
}

/// The arguments of a search: its words and its limit (20 by default).
pub open spec fn search_args(q: Seq<(Seq<char>, Seq<char>)>) -> Seq<ArgView> {
    seq![ArgView::Text(q_or(q, "q"@, ""@)), ArgView::Count(count_or(q, "limit"@, 20))]
}

/// The number of announcements asked for: `limit` as an `i32`, 50 when it is
/// missing or no such number.
pub open spec fn announcement_limit(q: Seq<(Seq<char>, Seq<char>)>) -> int {
    match q_val(q, "limit"@) {
        Some(v) => match parse_i32_spec(v) { Some(n) => n, None => 50 },
        None => 50,
    }
}

/// A number from the query, or `default` when it is missing or no number.
pub open spec fn count_or(q: Seq<(Seq<char>, Seq<char>)>, key: Seq<char>, default: nat) -> nat {
    match q_val(q, key) {
        Some(v) => match parse_usize_spec(v) {
            Some(n) => n,
            None => default,
        },
        None => default,
    }
}

fn call(function: &str, args: Vec<BridgeArg>, max_age: Option<u32>, failure: &str) -> (p: BridgePlan)
    ensures
        calls(p, function@, arg_views(args@), Seq::empty(), max_age, failure@),
{
    let kwargs: Vec<(String, BridgeArg)> = Vec::new();
    let p = BridgePlan::Call { function: owned(function), args, kwargs, max_age, failure: owned(failure) };
    assert(kwargs@.map_values(|x: (String, BridgeArg)| x.0@) =~= Seq::<(Seq<char>, ArgView)>::empty().map_values(|x: (Seq<char>, ArgView)| x.0));
    assert(arg_views(kwargs@.map_values(|x: (String, BridgeArg)| x.1)) =~= Seq::<(Seq<char>, ArgView)>::empty().map_values(|x: (Seq<char>, ArgView)| x.1));
    p
}

fn text1(a: String) -> (v: Vec<BridgeArg>)
    ensures
        arg_views(v@) == seq![ArgView::Text(a@)],
{
    let v = vec![BridgeArg::Text(a)];
    assert(arg_views(v@) =~= seq![ArgView::Text(v@[0]->Text_0@)]);
    v
}

fn text2(a: String, b: String) -> (v: Vec<BridgeArg>)
    ensures
        arg_views(v@) == seq![ArgView::Text(a@), ArgView::Text(b@)],
{
    let ghost av = a@;
    let ghost bv = b@;
    let v = vec![BridgeArg::Text(a), BridgeArg::Text(b)];
    assert(arg_views(v@) =~= seq![ArgView::Text(av), ArgView::Text(bv)]);
    v
}

/// Whether `p` is what a request to `kind` with query `q`, path `path` (after
/// `/stock/`) and method `method` asks for: a search needs `q` and candlesticks
/// a `code` (400 without); every other parameter has its default.
pub open spec fn bridged(p: BridgePlan, kind: StockRouteKind, q: Seq<(Seq<char>, Seq<char>)>, path: Seq<char>,
    method: Seq<char>) -> bool {

            match kind {
                StockRouteKind::Search => if q_or(q, "q"@, ""@).len() == 0 {
                    p matches BridgePlan::BadRequest(m) && m@ == "Search query 'q' is required"@
                } else {
                    calls(p, "stock_search"@, search_args(q), Seq::empty(), None, "Search failed"@)
                },
                StockRouteKind::Quote => calls(p, "stock_quotes"@, seq![ArgView::Text(q_or(q, "codes"@, ""@))],
                    Seq::empty(), Some(5u32), "Quote fetch failed"@),
                StockRouteKind::QuoteStream => p matches BridgePlan::Stream { codes, interval_secs }
                    && codes@ == q_or(q, "codes"@, ""@)
                    && interval_secs == (match q_val(q, "interval"@) {
                        Some(v) => match parse_u64_spec(v) { Some(n) => n, None => 5 },
                        None => 5,
                    }),
                StockRouteKind::Kline => {
                    let code = q_or(q, "code"@, ""@);
                    if code.len() == 0 {
                        p matches BridgePlan::BadRequest(m) && m@ == "Stock code is required"@
                    } else {
                        calls(p, "stock_klines"@, seq![ArgView::Text(code), ArgView::Text(q_or(q, "period"@, "daily"@)),
                            ArgView::Text(q_or(q, "adjust"@, "qfq"@))],
                            seq![("start_date"@, ArgView::Text(q_or(q, "start_date"@, ""@))),
                                ("end_date"@, ArgView::Text(q_or(q, "end_date"@, ""@))),
                                ("limit"@, ArgView::Count(count_or(q, "limit"@, 500)))],
                            Some(60u32), "KLine fetch failed"@)
                    }
                },
                StockRouteKind::Detail(code) => calls(p, "stock_detail"@, seq![ArgView::Text(code)], Seq::empty(),
                    Some(300u32), "Detail fetch failed"@),
                StockRouteKind::Financial(code) => calls(p, "stock_financial"@,
                    seq![ArgView::Text(code), ArgView::Text(q_or(q, "type"@, "all"@))], Seq::empty(), Some(3600u32),
                    "Financial fetch failed"@),
                StockRouteKind::FundFlow(code) => calls(p, "stock_fund_flow"@,
                    seq![ArgView::Text(code), ArgView::Text(q_or(q, "period"@, "daily"@))], Seq::empty(), Some(60u32),
                    "Fund flow fetch failed"@),
                StockRouteKind::Holders(code) => calls(p, "stock_holders"@,
                    seq![ArgView::Text(code), ArgView::Text(q_or(q, "type"@, "top10"@))], Seq::empty(), Some(3600u32),
                    "Holders fetch failed"@),
                StockRouteKind::Announcements(code) => calls(p, "stock_announcements"@,
                    seq![ArgView::Text(code), ArgView::Int(announcement_limit(q))], Seq::empty(), Some(300u32),
                    "Announcements fetch failed"@),
                StockRouteKind::MarketStatus => calls(p, "market_status"@, seq![ArgView::Text(q_or(q, "exchange"@, "sse"@))],
                    Seq::empty(), Some(30u32), "Market status fetch failed"@),
                StockRouteKind::MarketIndices => calls(p, "market_indices"@, Seq::empty(), Seq::empty(), Some(10u32),
                    "Indices fetch failed"@),
                StockRouteKind::Lhb => calls(p, "market_lhb"@, seq![ArgView::Text(q_or(q, "date"@, ""@))], Seq::empty(),
                    Some(300u32), "LHB data fetch failed"@),
                StockRouteKind::Sectors => calls(p, "sector_list"@, seq![ArgView::Text(q_or(q, "type"@, "industry"@))],
                    Seq::empty(), Some(300u32), "Sectors fetch failed"@),
                StockRouteKind::SectorStocks(code) => calls(p, "sector_stocks"@, seq![ArgView::Text(code)], Seq::empty(),
                    Some(300u32), "Sector stocks fetch failed"@),
                _ => p matches BridgePlan::NotFound { path: fp, method: m } && fp@ == "/stock/"@ + path && m@ == method,
            }
        
}

fn usize_or(query: &StringMap, key: &str, default: usize) -> (n: usize)
    requires
        query.wf(),
    ensures
        n == count_or(query@, key@, default as nat),
{
    match query.get(key) {
        Some(v) => match parse_usize(v.as_str()) {
            Some(n) => n,
            None => default,
        },
        None => default,
    }
}

/// What a request to the bridged stock API asks for, from its route, query,
/// path after `/stock/` and method. A search needs `q` and candlesticks a
/// `code` (400 without); every other parameter has its default.
pub fn plan_bridge_request(route: &StockRoute, query: &StringMap, path: &str, method: &str) -> (p: BridgePlan)
    requires
        query.wf(),
    ensures
        bridged(p, route.kind(), query@, path@, method@),
{
    match route {
        StockRoute::Search => {
            let text = query_or(query, "q", "");
            if text.unicode_len() == 0 {
                BridgePlan::BadRequest(owned("Search query 'q' is required"))
            } else {
                let limit = usize_or(query, "limit", 20);
                let args = vec![BridgeArg::Text(text), BridgeArg::Count(limit)];
                assert(arg_views(args@) =~= search_args(query@));
                call("stock_search", args, None, "Search failed")
            }
        },
        StockRoute::Quote => call("stock_quotes", text1(query_or(query, "codes", "")), Some(5), "Quote fetch failed"),
        StockRoute::QuoteStream => {
            let codes = query_or(query, "codes", "");
            let interval = match query.get("interval") {
                Some(v) => match parse_u64(v.as_str()) {
                    Some(n) => n,
                    None => 5,
                },
                None => 5,
            };
            BridgePlan::Stream { codes, interval_secs: interval }
        },
        StockRoute::Kline => {
            let code = query_or(query, "code", "");
            if code.unicode_len() == 0 {
                return BridgePlan::BadRequest(owned("Stock code is required"));
            }
            let period = query_or(query, "period", "daily");
            let adjust = query_or(query, "adjust", "qfq");
            let start_date = query_or(query, "start_date", "");
            let end_date = query_or(query, "end_date", "");
            let limit = usize_or(query, "limit", 500);
            let ghost (cv, pv, av, sv, ev) = (code@, period@, adjust@, start_date@, end_date@);
            let args = vec![BridgeArg::Text(code), BridgeArg::Text(period), BridgeArg::Text(adjust)];
            let kwargs = vec![
                (owned("start_date"), BridgeArg::Text(start_date)),
                (owned("end_date"), BridgeArg::Text(end_date)),
                (owned("limit"), BridgeArg::Count(limit)),
            ];
            proof {
                let want = seq![("start_date"@, ArgView::Text(sv)), ("end_date"@, ArgView::Text(ev)),
                    ("limit"@, ArgView::Count(limit as nat))];
                assert(arg_views(args@) =~= seq![ArgView::Text(cv), ArgView::Text(pv), ArgView::Text(av)]);
                assert(kwargs@.map_values(|x: (String, BridgeArg)| x.0@) =~= want.map_values(|x: (Seq<char>, ArgView)| x.0));
                assert(arg_views(kwargs@.map_values(|x: (String, BridgeArg)| x.1)) =~= want.map_values(|x: (Seq<char>, ArgView)| x.1));
            }
            let p = BridgePlan::Call {
                function: owned("stock_klines"),
                args,
                kwargs,
                max_age: Some(60),
                failure: owned("KLine fetch failed"),
            };
            p
        },
        StockRoute::Detail(code) => call("stock_detail", text1(owned(code.as_str())), Some(300), "Detail fetch failed"),
        StockRoute::Financial(code) => call("stock_financial", text2(owned(code.as_str()), query_or(query, "type", "all")),
            Some(3600), "Financial fetch failed"),
        StockRoute::FundFlow(code) => call("stock_fund_flow", text2(owned(code.as_str()), query_or(query, "period", "daily")),
            Some(60), "Fund flow fetch failed"),
        StockRoute::Holders(code) => call("stock_holders", text2(owned(code.as_str()), query_or(query, "type", "top10")),
            Some(3600), "Holders fetch failed"),
        StockRoute::Announcements(code) => {
            let limit: i32 = match query.get("limit") {
                Some(v) => {
                    assert(q_val(query@, "limit"@) == Some(v@));
                    match parse_i32(v.as_str()) {
                        Some(n) => n,
                        None => 50,
                    }
                },
                None => {
                    assert(q_val(query@, "limit"@) is None);
                    50
                },
            };
            assert(limit as int == announcement_limit(query@));
            let c = owned(code.as_str());
            let ghost cv = c@;
            let args = vec![BridgeArg::Text(c), BridgeArg::Int(limit)];
            assert(arg_views(args@) =~= seq![ArgView::Text(cv), ArgView::Int(limit as int)]);
            call("stock_announcements", args, Some(300), "Announcements fetch failed")
        },
        StockRoute::MarketStatus => call("market_status", text1(query_or(query, "exchange", "sse")), Some(30),
            "Market status fetch failed"),
        StockRoute::MarketIndices => {
            let args: Vec<BridgeArg> = Vec::new();
            assert(arg_views(args@) =~= Seq::<ArgView>::empty());
            call("market_indices", args, Some(10), "Indices fetch failed")
        },
        StockRoute::Lhb => call("market_lhb", text1(query_or(query, "date", "")), Some(300), "LHB data fetch failed"),
        StockRoute::Sectors => call("sector_list", text1(query_or(query, "type", "industry")), Some(300),
            "Sectors fetch failed"),
        StockRoute::SectorStocks(code) => call("sector_stocks", text1(owned(code.as_str())), Some(300),
            "Sector stocks fetch failed"),
        _ => BridgePlan::NotFound { path: concat2("/stock/", path), method: owned(method) },
    }
}

/// The `Cache-Control` value of an answer: `max-age=` its lifetime, else
/// `no-cache`.
pub fn cache_control(max_age: Option<u32>) -> (s: String)
    ensures
        s@ == (match max_age {
            Some(n) => "max-age="@ + crate::text::decimal(n as nat),
            None => "no-cache"@,
        }),
{
    match max_age {
        Some(n) => {
            let d = crate::text::u64_to_decimal(n as u64);
            concat2("max-age=", d.as_str())
        },
        None => owned("no-cache"),
    }
}

} // verus!
