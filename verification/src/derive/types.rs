//! Types of the search-engine layer: queries, request parameters, results and
//! what an engine can do.
//!
//! Maps of strings are kept as lists of pairs with distinct keys, in the order
//! the keys were first inserted. Scores are whole thousandths; dates are seconds
//! since the Unix epoch.
use vstd::prelude::*;
use crate::config::common::SafeSearchLevel;
use crate::text::{owned, str_eq, strs, decimal, concat2, usize_to_decimal};

verus! {

/// The view of an optional string.
pub open spec fn opt_view(o: Option<String>) -> Option<Seq<char>> {
    match o {
        Some(s) => Some(s@),
        None => None,
    }
}

/// A copy of an optional string.
pub fn copy_opt(o: &Option<String>) -> (r: Option<String>)
    ensures
        opt_view(r) == opt_view(*o),
{
    match o {
        Some(s) => Some(owned(s.as_str())),
        None => None,
    }
}

/// A copy of a list of strings.
pub fn copy_strs(v: &Vec<String>) -> (r: Vec<String>)
    ensures
        strs(r@) == strs(v@),
{
    let mut r: Vec<String> = Vec::new();
    let mut i: usize = 0;
    while i < v.len()
        invariant
            i <= v.len(),
            strs(r@) == strs(v@).take(i as int),
        decreases v.len() - i,
    {
        let ghost before = r@;
        r.push(owned(v[i].as_str()));
        assert(strs(r@) =~= strs(before).push(v@[i as int]@));
        assert(strs(v@).take(i + 1) =~= strs(v@).take(i as int).push(v@[i as int]@));
        i = i + 1;
    }
    assert(strs(v@).take(i as int) =~= strs(v@));
    r
}

/// The keys of a list of pairs.
pub open spec fn keys_of(s: Seq<(Seq<char>, Seq<char>)>) -> Seq<Seq<char>> {
    s.map_values(|p: (Seq<char>, Seq<char>)| p.0)
}

/// The value of `key` among pairs, if any.
pub open spec fn lookup(s: Seq<(Seq<char>, Seq<char>)>, key: Seq<char>) -> Option<Seq<char>>
    decreases s.len(),
{
    if s.len() == 0 {
        None
    } else if s.last().0 == key {
        Some(s.last().1)
    } else {
        lookup(s.drop_last(), key)
    }
}

/// A map of strings to strings, in the order keys were first inserted.
#[derive(Debug, Clone)]
pub struct StringMap {
    entries: Vec<(String, String)>,
}

impl View for StringMap {
    type V = Seq<(Seq<char>, Seq<char>)>;

    closed spec fn view(&self) -> Seq<(Seq<char>, Seq<char>)> {
        self.entries@.map_values(|e: (String, String)| (e.0@, e.1@))
    }
}

/// The pairs after inserting `key` with `value`: the value of an existing key is
/// replaced in place; a new key goes last.
pub open spec fn inserted(s: Seq<(Seq<char>, Seq<char>)>, key: Seq<char>, value: Seq<char>) -> Seq<(Seq<char>, Seq<char>)> {
    if keys_of(s).contains(key) {
        s.update(keys_of(s).index_of(key), (key, value))
    } else {
        s.push((key, value))
    }
}

impl StringMap {
    /// Whether no key occurs twice.
    pub closed spec fn wf(&self) -> bool {
        keys_of(self@).no_duplicates()
    }

    /// An empty map.
    pub fn new() -> (m: Self)
        ensures
            m.wf(),
            m@.len() == 0,
    {
        let m = StringMap { entries: Vec::new() };
        assert(m@ =~= Seq::<(Seq<char>, Seq<char>)>::empty());
        m
    }

    /// The number of keys.
    pub fn len(&self) -> (n: usize)
        ensures
            n == self@.len(),
    {
        self.entries.len()
    }

    /// The key and value at position `i`.
    pub fn entry(&self, i: usize) -> (r: (&String, &String))
        requires
            i < self@.len(),
        ensures
            r.0@ == self@[i as int].0,
            r.1@ == self@[i as int].1,
    {
        let e = &self.entries[i];
        (&e.0, &e.1)
    }

    /// The position of `key`, if present.
    fn position(&self, key: &str) -> (r: Option<usize>)
        ensures
            match r {
                Some(i) => i < self@.len() && self@[i as int].0 == key@
                    && forall|j: int| 0 <= j < i ==> self@[j].0 != key@,
                None => !keys_of(self@).contains(key@),
            },
    {
        let mut i: usize = 0;
        while i < self.entries.len()
            invariant
                i <= self.entries.len(),
                forall|j: int| 0 <= j < i ==> self@[j].0 != key@,
            decreases self.entries.len() - i,
        {
            if str_eq(self.entries[i].0.as_str(), key) {
                return Some(i);
            }
            i = i + 1;
        }
        assert(!keys_of(self@).contains(key@)) by {
            if keys_of(self@).contains(key@) {
                let k = choose|k: int| 0 <= k < keys_of(self@).len() && keys_of(self@)[k] == key@;
                assert(self@[k].0 == key@);
            }
        }
        None
    }

    /// The value of `key`, if present.
    pub fn get(&self, key: &str) -> (r: Option<&String>)
        requires
            self.wf(),
        ensures
            match r {
                Some(v) => keys_of(self@).contains(key@) && v@ == self@[keys_of(self@).index_of(key@)].1,
                None => !keys_of(self@).contains(key@),
            },
    {
        match self.position(key) {
            Some(i) => {
                proof {
                    assert(keys_of(self@)[i as int] == key@);
                    keys_of(self@).index_of_first_ensures(key@);
                    assert(keys_of(self@).index_of(key@) == i) by {
                        let k = keys_of(self@).index_of(key@);
                        assert(keys_of(self@)[k] == key@);
                    }
                }
                Some(&self.entries[i].1)
            },
            None => None,
        }
    }

    /// Sets `key` to `value`: an existing key keeps its place.
    pub fn insert(&mut self, key: String, value: String)
        requires
            old(self).wf(),
        ensures
            final(self).wf(),
            final(self)@ == inserted(old(self)@, key@, value@),
    {
        let ghost old_view = self@;
        match self.position(key.as_str()) {
            Some(i) => {
                proof {
                    assert(keys_of(old_view)[i as int] == key@);
                    assert(keys_of(old_view).index_of(key@) == i) by {
                        let k = keys_of(old_view).index_of(key@);
                        keys_of(old_view).index_of_first_ensures(key@);
                    }
                }
                self.entries.set(i, (key, value));
                proof {
                    assert(self@ =~= old_view.update(i as int, (key@, value@)));
                    assert(keys_of(self@) =~= keys_of(old_view));
                }
            },
            None => {
                self.entries.push((key, value));
                proof {
                    assert(self@ =~= old_view.push((key@, value@)));
                    assert(keys_of(self@) =~= keys_of(old_view).push(key@));
                }
            },
        }
    }

    /// A copy of the map.
    pub fn duplicate(&self) -> (r: Self)
        ensures
            r@ == self@,
            self.wf() ==> r.wf(),
    {
        let mut entries: Vec<(String, String)> = Vec::new();
        let mut i: usize = 0;
        while i < self.entries.len()
            invariant
                i <= self.entries.len(),
                entries@.map_values(|e: (String, String)| (e.0@, e.1@)) == self@.take(i as int),
            decreases self.entries.len() - i,
        {
            let ghost before = entries@;
            let e = &self.entries[i];
            entries.push((owned(e.0.as_str()), owned(e.1.as_str())));
            assert(entries@.map_values(|e: (String, String)| (e.0@, e.1@))
                =~= before.map_values(|e: (String, String)| (e.0@, e.1@)).push(self@[i as int]));
            assert(self@.take(i + 1) =~= self@.take(i as int).push(self@[i as int]));
            i = i + 1;
        }
        assert(self@.take(i as int) =~= self@);
        StringMap { entries }
    }
}

/// The kind of a search engine.
#[derive(Debug, Clone, Copy, PartialEq, Eq, Hash, Structural)]
pub enum EngineType {
    /// General web search.
    General,
    /// Images.
    Image,
    /// Videos.
    Video,
    /// News.
    News,
    /// Academic papers.
    Academic,
    /// Code.
    Code,
    /// Shopping.
    Shopping,
    /// Music.
    Music,
    /// Anything else.
    Custom,
}

impl Default for EngineType {
    fn default() -> (t: Self)
        ensures
            t == EngineType::General,
    {
        EngineType::General
    }
}

/// A time window for results.
#[derive(Debug, Clone, Copy, PartialEq, Eq, Hash, Structural)]
pub enum TimeRange {
    /// Any time.
    Any,
    /// The last hour.
    Hour,
    /// The last day.
    Day,
    /// The last week.
    Week,
    /// The last month.
    Month,
    /// The last year.
    Year,
}

impl TimeRange {
    /// The lower-case name of the range.
    pub open spec fn name(self) -> Seq<char> {
        match self {
            TimeRange::Any => "any"@,
            TimeRange::Hour => "hour"@,
            TimeRange::Day => "day"@,
            TimeRange::Week => "week"@,
            TimeRange::Month => "month"@,
            TimeRange::Year => "year"@,
        }
    }

    /// The lower-case name of the range.
    pub fn lower_name(&self) -> (s: String)
        ensures
            s@ == self.name(),
    {
        match self {
            TimeRange::Any => owned("any"),
            TimeRange::Hour => owned("hour"),
            TimeRange::Day => owned("day"),
            TimeRange::Week => owned("week"),
            TimeRange::Month => owned("month"),
            TimeRange::Year => owned("year"),
        }
    }
}

impl Default for TimeRange {
    fn default() -> (t: Self)
        ensures
            t == TimeRange::Any,
    {
        TimeRange::Any
    }
}

/// A search query.
#[derive(Debug, Clone)]
pub struct SearchQuery {
    /// The words searched for.
    pub query: String,
    /// The kind of engine.
    pub engine_type: EngineType,
    /// Preferred language.
    pub language: Option<String>,
    /// Preferred region.
    pub region: Option<String>,
    /// Results per page.
    pub page_size: usize,
    /// Page number.
    pub page: usize,
    /// Adult-content filtering.
    pub safe_search: SafeSearchLevel,
    /// Time window.
    pub time_range: Option<TimeRange>,
    /// Parameters of the user's own.
    pub params: StringMap,
}

impl Default for SearchQuery {
    fn default() -> (q: Self)
        ensures
            q.query@ == ""@,
            q.engine_type == EngineType::General,
            q.language is None,
            q.region is None,
            q.page_size == 10,
            q.page == 1,
            q.safe_search == SafeSearchLevel::Moderate,
            q.time_range is None,
            q.params@.len() == 0,
            q.params.wf(),
    {
        SearchQuery {
            query: owned(""),
            engine_type: EngineType::default(),
            language: None,
            region: None,
            page_size: 10,
            page: 1,
            safe_search: SafeSearchLevel::Moderate,
            time_range: None,
            params: StringMap::new(),
        }
    }
}

/// The number that stands for a safe-search level.
pub open spec fn safe_search_number(l: SafeSearchLevel) -> i32 {
    match l {
        SafeSearchLevel::Off => 0,
        SafeSearchLevel::Moderate => 1,
        SafeSearchLevel::Strict => 2,
    }
}

/// Parameters of an HTTP request to an engine.
#[derive(Debug, Clone)]
pub struct RequestParams {
    /// URL, once known.
    pub url: Option<String>,
    /// HTTP method.
    pub method: String,
    /// Headers.
    pub headers: StringMap,
    /// Form data.
    pub data: Option<StringMap>,
    /// Cookies.
    pub cookies: StringMap,
    /// Page number.
    pub pageno: usize,
    /// Language.
    pub language: Option<String>,
    /// Time range, by name.
    pub time_range: Option<String>,
    /// Safe-search level: 0, 1 or 2.
    pub safesearch: i32,
    /// Parameters of the user's own.
    pub custom: StringMap,
}

impl Default for RequestParams {
    fn default() -> (p: Self)
        ensures
            p.url is None,
            p.method@ == "GET"@,
            p.headers@.len() == 0,
            p.data is None,
            p.cookies@.len() == 0,
            p.pageno == 1,
            p.language is None,
            p.time_range is None,
            p.safesearch == 0,
            p.custom@.len() == 0,
    {
        RequestParams {
            url: None,
            method: owned("GET"),
            headers: StringMap::new(),
            data: None,
            cookies: StringMap::new(),
            pageno: 1,
            language: None,
            time_range: None,
            safesearch: 0,
            custom: StringMap::new(),
        }
    }
}

impl RequestParams {
    /// The parameters of a query: its page, language, time range by lower-case
    /// name, safe-search level as 0, 1 or 2, and its own parameters.
    pub fn from_query(query: &SearchQuery) -> (p: Self)
        ensures
            p.url is None,
            p.method@ == "GET"@,
            p.headers@.len() == 0,
            p.data is None,
            p.cookies@.len() == 0,
            p.pageno == query.page,
            opt_view(p.language) == opt_view(query.language),
            opt_view(p.time_range) == (match query.time_range {
                Some(t) => Some(t.name()),
                None => None::<Seq<char>>,
            }),
            p.safesearch == safe_search_number(query.safe_search),
            p.custom@ == query.params@,
    {
        let mut params = Self::default();
        params.pageno = query.page;
        params.language = copy_opt(&query.language);
        params.time_range = match query.time_range {
            Some(t) => Some(t.lower_name()),
            None => None,
        };
        params.safesearch = match query.safe_search {
            SafeSearchLevel::Off => 0,
            SafeSearchLevel::Moderate => 1,
            SafeSearchLevel::Strict => 2,
        };
        params.custom = query.params.duplicate();
        params
    }
}

/// The kind of a result.
#[derive(Debug, Clone, Copy, PartialEq, Eq, Hash, Structural)]
pub enum ResultType {
    /// A web page.
    Web,
    /// An image.
    Image,
    /// A video.
    Video,
    /// News.
    News,
    /// An academic paper.
    Academic,
    /// Code.
    Code,
    /// Shopping.
    Shopping,
    /// Music.
    Music,
    /// A torrent.
    Torrent,
    /// A file.
    File,
    /// A map or place.
    Place,
    /// Anything else.
    Other,
}

impl Default for ResultType {
    fn default() -> (t: Self)
        ensures
            t == ResultType::Web,
    {
        ResultType::Web
    }
}

/// One result of a search.
#[derive(Debug, Clone)]
pub struct SearchResultItem {
    /// Title.
    pub title: String,
    /// Link.
    pub url: String,
    /// Summary.
    pub content: String,
    /// Link as shown.
    pub display_url: Option<String>,
    /// Site name.
    pub site_name: Option<String>,
    /// Relevance, in thousandths.
    pub score_milli: i64,
    /// Kind of result.
    pub result_type: ResultType,
    /// Thumbnail link.
    pub thumbnail: Option<String>,
    /// Publication time, in seconds since the Unix epoch.
    pub published_secs: Option<i64>,
    /// Template used to show it.
    pub template: Option<String>,
    /// Further details.
    pub metadata: StringMap,
}

/// What a result item holds.
pub struct ItemView {
    /// Title.
    pub title: Seq<char>,
    /// Link.
    pub url: Seq<char>,
    /// Summary.
    pub content: Seq<char>,
    /// Link as shown.
    pub display_url: Option<Seq<char>>,
    /// Site name.
    pub site_name: Option<Seq<char>>,
    /// Relevance, in thousandths.
    pub score_milli: i64,
    /// Kind of result.
    pub result_type: ResultType,
    /// Thumbnail link.
    pub thumbnail: Option<Seq<char>>,
    /// Publication time.
    pub published_secs: Option<i64>,
    /// Template.
    pub template: Option<Seq<char>>,
    /// Further details.
    pub metadata: Seq<(Seq<char>, Seq<char>)>,
}

impl View for SearchResultItem {
    type V = ItemView;

    open spec fn view(&self) -> ItemView {
        ItemView {
            title: self.title@,
            url: self.url@,
            content: self.content@,
            display_url: opt_view(self.display_url),
            site_name: opt_view(self.site_name),
            score_milli: self.score_milli,
            result_type: self.result_type,
            thumbnail: opt_view(self.thumbnail),
            published_secs: self.published_secs,
            template: opt_view(self.template),
            metadata: self.metadata@,
        }
    }
}

impl SearchResultItem {
    /// A copy of the item.
    pub fn duplicate(&self) -> (r: Self)
        ensures
            r@ == self@,
    {
        SearchResultItem {
            title: owned(self.title.as_str()),
            url: owned(self.url.as_str()),
            content: owned(self.content.as_str()),
            display_url: copy_opt(&self.display_url),
            site_name: copy_opt(&self.site_name),
            score_milli: self.score_milli,
            result_type: self.result_type,
            thumbnail: copy_opt(&self.thumbnail),
            published_secs: self.published_secs,
            template: copy_opt(&self.template),
            metadata: self.metadata.duplicate(),
        }
    }
}

/// Paging of results.
#[derive(Debug, Clone)]
pub struct PaginationInfo {
    /// Current page.
    pub current_page: usize,
    /// Page size.
    pub page_size: usize,
    /// Pages in all.
    pub total_pages: Option<usize>,
    /// Link of the next page.
    pub next_page: Option<String>,
    /// Link of the previous page.
    pub prev_page: Option<String>,
}

/// What paging holds.
pub struct PaginationView {
    /// Current page.
    pub current_page: usize,
    /// Page size.
    pub page_size: usize,
    /// Pages in all.
    pub total_pages: Option<usize>,
    /// Next page.
    pub next_page: Option<Seq<char>>,
    /// Previous page.
    pub prev_page: Option<Seq<char>>,
}

impl View for PaginationInfo {
    type V = PaginationView;

    open spec fn view(&self) -> PaginationView {
        PaginationView {
            current_page: self.current_page,
            page_size: self.page_size,
            total_pages: self.total_pages,
            next_page: opt_view(self.next_page),
            prev_page: opt_view(self.prev_page),
        }
    }
}

impl PaginationInfo {
    /// A copy of the paging.
    pub fn duplicate(&self) -> (r: Self)
        ensures
            r@ == self@,
    {
        PaginationInfo {
            current_page: self.current_page,
            page_size: self.page_size,
            total_pages: self.total_pages,
            next_page: copy_opt(&self.next_page),
            prev_page: copy_opt(&self.prev_page),
        }
    }
}

/// The results of one engine.
#[derive(Debug, Clone)]
pub struct SearchResult {
    /// Engine.
    pub engine_name: String,
    /// Estimated number of results.
    pub total_results: Option<usize>,
    /// Time taken in milliseconds.
    pub elapsed_ms: u64,
    /// Results.
    pub items: Vec<SearchResultItem>,
    /// Paging.
    pub pagination: Option<PaginationInfo>,
    /// Suggested queries.
    pub suggestions: Vec<String>,
    /// Further details.
    pub metadata: StringMap,
}

/// What the results of one engine hold.
pub struct ResultView {
    /// Engine.
    pub engine_name: Seq<char>,
    /// Estimated number of results.
    pub total_results: Option<usize>,
    /// Time taken.
    pub elapsed_ms: u64,
    /// Results.
    pub items: Seq<ItemView>,
    /// Paging.
    pub pagination: Option<PaginationView>,
    /// Suggestions.
    pub suggestions: Seq<Seq<char>>,
    /// Further details.
    pub metadata: Seq<(Seq<char>, Seq<char>)>,
}

impl View for SearchResult {
    type V = ResultView;

    open spec fn view(&self) -> ResultView {
        ResultView {
            engine_name: self.engine_name@,
            total_results: self.total_results,
            elapsed_ms: self.elapsed_ms,
            items: self.items@.map_values(|i: SearchResultItem| i@),
            pagination: match self.pagination {
                Some(p) => Some(p@),
                None => None,
            },
            suggestions: strs(self.suggestions@),
            metadata: self.metadata@,
        }
    }
}

impl SearchResult {
    /// A copy of the results.
    pub fn duplicate(&self) -> (r: Self)
        ensures
            r@ == self@,
    {
        let mut items: Vec<SearchResultItem> = Vec::new();
        let mut i: usize = 0;
        while i < self.items.len()
            invariant
                i <= self.items.len(),
                items@.map_values(|x: SearchResultItem| x@) == self.items@.map_values(|x: SearchResultItem| x@).take(i as int),
            decreases self.items.len() - i,
        {
            let ghost before = items@;
            items.push(self.items[i].duplicate());
            assert(items@.map_values(|x: SearchResultItem| x@)
                =~= before.map_values(|x: SearchResultItem| x@).push(self.items@[i as int]@));
            assert(self.items@.map_values(|x: SearchResultItem| x@).take(i + 1)
                =~= self.items@.map_values(|x: SearchResultItem| x@).take(i as int).push(self.items@[i as int]@));
            i = i + 1;
        }
        assert(self.items@.map_values(|x: SearchResultItem| x@).take(i as int)
            =~= self.items@.map_values(|x: SearchResultItem| x@));
        let pagination = match &self.pagination {
            Some(p) => Some(p.duplicate()),
            None => None,
        };
        SearchResult {
            engine_name: owned(self.engine_name.as_str()),
            total_results: self.total_results,
            elapsed_ms: self.elapsed_ms,
            items,
            pagination,
            suggestions: copy_strs(&self.suggestions),
            metadata: self.metadata.duplicate(),
        }
    }
}

/// What an engine can do.
#[derive(Debug, Clone)]
pub struct EngineCapabilities {
    /// Kinds of result.
    pub result_types: Vec<ResultType>,
    /// Parameters understood.
    pub supported_params: Vec<String>,
    /// Largest page.
    pub max_page_size: usize,
    /// Whether pages are supported.
    pub supports_pagination: bool,
    /// Whether time ranges are supported.
    pub supports_time_range: bool,
    /// Whether languages can be chosen.
    pub supports_language_filter: bool,
    /// Whether regions can be chosen.
    pub supports_region_filter: bool,
    /// Whether safe search is supported.
    pub supports_safe_search: bool,
    /// Requests allowed per minute.
    pub rate_limit: Option<usize>,
}

/// The state of an engine.
#[derive(Debug, Clone, Copy, PartialEq, Eq, Hash, Structural)]
pub enum EngineStatus {
    /// Working.
    Active,
    /// Under maintenance.
    Maintenance,
    /// Switched off.
    Disabled,
    /// Failing.
    Error,
}

impl Default for EngineStatus {
    fn default() -> (s: Self)
        ensures
            s == EngineStatus::Active,
    {
        EngineStatus::Active
    }
}

/// Facts about an engine.
#[derive(Debug, Clone)]
pub struct AboutInfo {
    /// Web site.
    pub website: Option<String>,
    /// Wikidata identifier.
    pub wikidata_id: Option<String>,
    /// Documentation of the official API.
    pub official_api_documentation: Option<String>,
    /// Whether the official API is used.
    pub use_official_api: bool,
    /// Whether an API key is needed.
    pub require_api_key: bool,
    /// Format of the results (HTML, JSON, XML, ...).
    pub results: String,
}

impl Default for AboutInfo {
    fn default() -> (a: Self)
        ensures
            a.website is None,
            a.wikidata_id is None,
            a.official_api_documentation is None,
            !a.use_official_api,
            !a.require_api_key,
            a.results@ == "HTML"@,
    {
        AboutInfo {
            website: None,
            wikidata_id: None,
            official_api_documentation: None,
            use_official_api: false,
            require_api_key: false,
            results: owned("HTML"),
        }
    }
}

/// Description of an engine.
#[derive(Debug, Clone)]
pub struct EngineInfo {
    /// Name.
    pub name: String,
    /// Kind.
    pub engine_type: EngineType,
    /// Description.
    pub description: String,
    /// State.
    pub status: EngineStatus,
    /// Categories.
    pub categories: Vec<String>,
    /// What it can do.
    pub capabilities: EngineCapabilities,
    /// Facts.
    pub about: AboutInfo,
    /// Shortcut.
    pub shortcut: Option<String>,
    /// Timeout in seconds.
    pub timeout: Option<u64>,
    /// Whether it is switched off.
    pub disabled: bool,
    /// Whether it is inactive.
    pub inactive: bool,
    /// Version.
    pub version: Option<String>,
    /// Last check, in seconds since the Unix epoch.
    pub last_checked_secs: Option<i64>,
    /// Whether it goes through Tor.
    pub using_tor_proxy: bool,
    /// Whether error messages are shown.
    pub display_error_messages: bool,
    /// Tokens.
    pub tokens: Vec<String>,
    /// Highest page (0 for no limit).
    pub max_page: usize,
}

/// What is wrong with a query.
#[derive(Debug, Clone)]
pub enum ValidationError {
    /// The query is empty.
    EmptyQuery,
    /// The query is longer than 1000 bytes.
    QueryTooLong,
    /// The page is larger than allowed.
    PageSizeTooLarge {
        /// Largest page.
        max_size: usize,
    },
    /// Time ranges are not supported.
    UnsupportedTimeRange,
    /// A parameter is not supported.
    UnsupportedParameter(String),
    /// A parameter has a wrong value.
    InvalidParameter(String),
}

impl ValidationError {
    /// The message of the error.
    pub open spec fn message(&self) -> Seq<char> {
        match self {
            ValidationError::EmptyQuery => "查询不能为空"@,
            ValidationError::QueryTooLong => "查询过长，最多1000字符"@,
            ValidationError::PageSizeTooLarge { max_size } => "页面大小超出限制，最大"@ + decimal(*max_size as nat) + "个结果"@,
            ValidationError::UnsupportedTimeRange => "不支持时间范围过滤"@,
            ValidationError::UnsupportedParameter(p) => "不支持的参数: "@ + p@,
            ValidationError::InvalidParameter(p) => "参数值无效: "@ + p@,
        }
    }

    /// The message of the error.
    pub fn to_string(&self) -> (s: String)
        ensures
            s@ == self.message(),
    {
        match self {
            ValidationError::EmptyQuery => owned("查询不能为空"),
            ValidationError::QueryTooLong => owned("查询过长，最多1000字符"),
            ValidationError::PageSizeTooLarge { max_size } => {
                let d = usize_to_decimal(*max_size);
                let mut s = concat2("页面大小超出限制，最大", d.as_str());
                s.append("个结果");
                s
            },
            ValidationError::UnsupportedTimeRange => owned("不支持时间范围过滤"),
            ValidationError::UnsupportedParameter(p) => concat2("不支持的参数: ", p.as_str()),
            ValidationError::InvalidParameter(p) => concat2("参数值无效: ", p.as_str()),
        }
    }
}

} // verus!
