//! The logic behind the RSS handlers: request and response shapes, which feed
//! items a fetch returns, the errors it answers with, the names of the feed
//! templates and the feeds a template lists.
use vstd::prelude::*;
use crate::derive::engine::{char_is_white, is_white};
use crate::derive::types::opt_view;
use crate::text::{lemma_seq_lt_asym, lemma_seq_lt_trans, concat2, concat3, contains_seq, lowercase, owned, seq_lt, starts_with_seq, str_contains, str_lt,
    str_eq, strs, to_lower, usize_to_decimal, decimal, vec_has_string, chars_of};

verus! {

/// A request for the items of a feed.
#[derive(Debug, Clone)]
pub struct RssFetchRequest {
    /// Address of the feed.
    pub url: String,
    /// Most items to return (50 when the request leaves it out).
    pub max_items: Option<usize>,
    /// Keywords an item must contain one of (any item when empty).
    pub filter_keywords: Vec<String>,
}

/// The most items a fetch returns when the request names no limit.
pub fn default_max_items() -> (r: Option<usize>)
    ensures
        r == Some(50usize),
{
    Some(50)
}

impl RssFetchRequest {
    /// A request for `url` with the default limit and no keywords.
    pub fn new(url: String) -> (r: Self)
        ensures
            r.url == url,
            r.max_items == Some(50usize),
            r.filter_keywords@.len() == 0,
    {
        RssFetchRequest { url, max_items: default_max_items(), filter_keywords: Vec::new() }
    }
}

/// What a feed says of itself.
#[derive(Debug, Clone)]
pub struct RssFeedMeta {
    /// Title.
    pub title: Option<String>,
    /// Description.
    pub description: Option<String>,
    /// Link.
    pub link: Option<String>,
}

/// One item of a feed.
#[derive(Debug, Clone)]
pub struct RssFeedItemResponse {
    /// Title.
    pub title: String,
    /// Link.
    pub link: String,
    /// Description.
    pub description: Option<String>,
    /// Author.
    pub author: Option<String>,
    /// Publication date as the feed gives it.
    pub published: Option<String>,
    /// Categories.
    pub categories: Vec<String>,
}

/// The answer to a fetch: the feed's own description and the chosen items.
#[derive(Debug, Clone)]
pub struct RssFeedResponse {
    /// The feed's description.
    pub meta: RssFeedMeta,
    /// The chosen items.
    pub items: Vec<RssFeedItemResponse>,
}

/// A request to load the feeds of a template.
#[derive(Debug, Clone)]
pub struct TemplateAddRequest {
    /// Name of the template.
    pub name: String,
    /// Categories to load (all when empty).
    pub categories: Vec<String>,
}

/// The answer to a template load.
#[derive(Debug, Clone)]
pub struct TemplateAddResponse {
    /// Whether it succeeded.
    pub success: bool,
    /// What happened, in words.
    pub message: String,
    /// Feeds loaded.
    pub added_feeds: Vec<String>,
    /// Feeds that failed.
    pub failed_feeds: Vec<String>,
}

/// An error answer of the API.
#[derive(Debug, Clone)]
pub struct ApiErrorResponse {
    /// Machine-readable code.
    pub code: String,
    /// What went wrong.
    pub message: String,
    /// More detail, if any.
    pub details: Option<String>,
}

/// Whether keyword `kw` occurs, ignoring case, in the title or the description.
pub open spec fn keyword_hits(title: Seq<char>, description: Option<Seq<char>>, kw: Seq<char>) -> bool {
    contains_seq(lowercase(title), lowercase(kw))
        || (description matches Some(d) && contains_seq(lowercase(d), lowercase(kw)))
}

/// Whether a fetch keeps an item: there are no keywords, or one of them occurs
/// in its title or description.
pub open spec fn item_wanted(item: RssFeedItemResponse, kws: Seq<Seq<char>>) -> bool {
    kws.len() == 0 || exists|i: int| 0 <= i < kws.len() && #[trigger] keyword_hits(item.title@, opt_view(item.description), kws[i])
}

/// The items a fetch returns: those it keeps, in feed order, at most `max`
/// of them (50 when `None`).
pub open spec fn chosen_items(items: Seq<RssFeedItemResponse>, kws: Seq<Seq<char>>, max: Option<usize>) -> Seq<RssFeedItemResponse> {
    let n: int = match max { Some(m) => m as int, None => 50 };
    let kept = items.filter(|it: RssFeedItemResponse| item_wanted(it, kws));
    if kept.len() <= n { kept } else { kept.take(n) }
}

/// Whether the fetch keeps `item` for `keywords`.
pub fn item_matches(item: &RssFeedItemResponse, keywords: &Vec<String>) -> (b: bool)
    ensures
        b == item_wanted(*item, strs(keywords@)),
{
    if keywords.len() == 0 {
        return true;
    }
    let title = to_lower(item.title.as_str());
    let desc = match &item.description {
        Some(d) => Some(to_lower(d.as_str())),
        None => None,
    };
    let mut i: usize = 0;
    while i < keywords.len()
        invariant
            i <= keywords@.len(),
            title@ == lowercase(item.title@),
            desc matches Some(d) ==> item.description matches Some(e) && d@ == lowercase(e@),
            desc is None ==> item.description is None,
            forall|j: int| 0 <= j < i ==> !#[trigger] keyword_hits(item.title@, opt_view(item.description), strs(keywords@)[j]),
        decreases keywords@.len() - i,
    {
        let kw = to_lower(keywords[i].as_str());
        let in_title = str_contains(title.as_str(), kw.as_str());
        let in_desc = match &desc {
            Some(d) => str_contains(d.as_str(), kw.as_str()),
            None => false,
        };
        assert(strs(keywords@)[i as int] == keywords@[i as int]@);
        if in_title || in_desc {
            assert(keyword_hits(item.title@, opt_view(item.description), strs(keywords@)[i as int]));
            return true;
        }
        i = i + 1;
    }
    false
}

/// The items of a fetched feed that the request keeps, in feed order, at most
/// its limit (50 when it names none).
pub fn select_feed_items(items: Vec<RssFeedItemResponse>, keywords: &Vec<String>, max_items: Option<usize>) -> (r: Vec<RssFeedItemResponse>)
    ensures
        r@ == chosen_items(items@, strs(keywords@), max_items),
{
    let n: usize = match max_items {
        Some(m) => m,
        None => 50,
    };
    let ghost all = items@;
    assert(all.len() == items.len());
    let ghost pred = |it: RssFeedItemResponse| item_wanted(it, strs(keywords@));
    let mut rest = items;
    let mut out: Vec<RssFeedItemResponse> = Vec::new();
    let mut i: usize = 0;
    proof {
        assert(all.take(0) =~= Seq::<RssFeedItemResponse>::empty());
        reveal(Seq::filter);
    }
    while rest.len() > 0 && out.len() < n
        invariant
            pred == (|it: RssFeedItemResponse| item_wanted(it, strs(keywords@))),
            all.len() <= usize::MAX,
            i <= all.len(),
            rest@ == all.skip(i as int),
            out@ == all.take(i as int).filter(pred),
            out@.len() <= n,
        decreases rest@.len(),
    {
        let item = rest.remove(0);
        proof {
            assert(item == all[i as int]);
            assert(all.take(i + 1) =~= all.take(i as int).push(item));
            all.take(i as int).lemma_filter_push(item, pred);
        }
        if item_matches(&item, keywords) {
            out.push(item);
        }
        i = i + 1;
        assert(rest@ =~= all.skip(i as int));
    }
    proof {
        let kept = all.filter(pred);
        assert(all =~= all.take(i as int) + all.skip(i as int));
        Seq::filter_distributes_over_add(all.take(i as int), all.skip(i as int), pred);
        if rest@.len() == 0 {
            assert(all.skip(i as int) =~= Seq::<RssFeedItemResponse>::empty());
            reveal(Seq::filter);
            assert(all.skip(i as int).filter(pred) =~= Seq::<RssFeedItemResponse>::empty());
            assert(kept =~= out@);
        } else {
            assert(out@.len() == n);
            assert(kept.take(n as int) =~= out@);
        }
    }
    out
}

/// The answer to a fetch of a parsed feed: its title and link, its
/// description, and the items the request keeps.
pub fn feed_response(title: String, description: Option<String>, link: String, items: Vec<RssFeedItemResponse>,
    request: &RssFetchRequest) -> (r: RssFeedResponse)
    ensures
        r.meta.title == Some(title),
        r.meta.description == description,
        r.meta.link == Some(link),
        r.items@ == chosen_items(items@, strs(request.filter_keywords@), request.max_items),
{
    let chosen = select_feed_items(items, &request.filter_keywords, request.max_items);
    RssFeedResponse { meta: RssFeedMeta { title: Some(title), description, link: Some(link) }, items: chosen }
}

/// Why a fetch failed: the feed could not be reached, its content could not
/// be read, or it is no feed. Each carries the underlying error's message.
#[derive(Debug, Clone)]
pub enum RssFetchError {
    /// The request failed.
    Network(String),
    /// The body could not be read.
    Read(String),
    /// The body is no feed.
    Parse(String),
}

impl RssFetchError {
    /// The HTTP status of the answer: 502 when the feed could not be had, 422
    /// when it could not be parsed.
    pub fn status(&self) -> (s: u16)
        ensures
            s == (if self is Parse { 422u16 } else { 502u16 }),
    {
        match self {
            RssFetchError::Parse(_) => 422,
            _ => 502,
        }
    }

    /// The error answer: its code and message.
    pub fn response(&self) -> (r: ApiErrorResponse)
        ensures
            r.details is None,
            match self {
                RssFetchError::Network(e) => r.code@ == "NETWORK_ERROR"@ && r.message@ == "Failed to fetch RSS feed: "@ + e@,
                RssFetchError::Read(e) => r.code@ == "FETCH_ERROR"@ && r.message@ == "Failed to read RSS feed content: "@ + e@,
                RssFetchError::Parse(e) => r.code@ == "PARSE_ERROR"@ && r.message@ == "Failed to parse RSS feed: "@ + e@,
            },
    {
        match self {
            RssFetchError::Network(e) => ApiErrorResponse {
                code: owned("NETWORK_ERROR"),
                message: concat2("Failed to fetch RSS feed: ", e.as_str()),
                details: None,
            },
            RssFetchError::Read(e) => ApiErrorResponse {
                code: owned("FETCH_ERROR"),
                message: concat2("Failed to read RSS feed content: ", e.as_str()),
                details: None,
            },
            RssFetchError::Parse(e) => ApiErrorResponse {
                code: owned("PARSE_ERROR"),
                message: concat2("Failed to parse RSS feed: ", e.as_str()),
                details: None,
            },
        }
    }
}

/// The file suffix of a feed template.
pub open spec fn template_suffix() -> Seq<char> {
    ".rss.see"@
}

/// Whether `s` ends with `suf`.
pub open spec fn ends_with_seq(s: Seq<char>, suf: Seq<char>) -> bool {
    suf.len() <= s.len() && s.subrange(s.len() - suf.len(), s.len() as int) == suf
}

/// `s` with every trailing copy of `suf` removed (as `trim_end_matches` does).
pub open spec fn strip_suffixes(s: Seq<char>, suf: Seq<char>) -> Seq<char>
    decreases s.len(),
{
    if suf.len() > 0 && ends_with_seq(s, suf) {
        strip_suffixes(s.subrange(0, s.len() - suf.len()), suf)
    } else {
        s
    }
}

/// The template names among file names: those ending with `.rss.see`,
/// without it, in the order of the files.
pub open spec fn template_candidates(files: Seq<Seq<char>>) -> Seq<Seq<char>>
    decreases files.len(),
{
    if files.len() == 0 {
        Seq::empty()
    } else {
        let f = files.last();
        let rest = template_candidates(files.drop_last());
        if ends_with_seq(f, template_suffix()) { rest.push(strip_suffixes(f, template_suffix())) } else { rest }
    }
}

/// `s` with `x` placed before the first name that comes after it.
pub open spec fn insert_name(s: Seq<Seq<char>>, x: Seq<char>) -> Seq<Seq<char>>
    decreases s.len(),
{
    if s.len() == 0 {
        seq![x]
    } else if seq_lt(x, s[0]) {
        seq![x] + s
    } else {
        seq![s[0]] + insert_name(s.drop_first(), x)
    }
}

/// The names in order (a stable insertion sort).
pub open spec fn sort_names(s: Seq<Seq<char>>) -> Seq<Seq<char>>
    decreases s.len(),
{
    if s.len() == 0 { s } else { insert_name(sort_names(s.drop_last()), s.last()) }
}

proof fn lemma_insert_name_at(s: Seq<Seq<char>>, x: Seq<char>, p: int)
    requires
        0 <= p <= s.len(),
        forall|j: int| 0 <= j < p ==> !seq_lt(x, #[trigger] s[j]),
        p < s.len() ==> seq_lt(x, s[p]),
    ensures
        insert_name(s, x) == s.insert(p, x),
    decreases s.len(),
{
    if s.len() == 0 {
        assert(s.insert(p, x) =~= seq![x]);
    } else if p == 0 {
        assert(s.insert(0, x) =~= seq![x] + s);
    } else {
        assert(!seq_lt(x, s[0]));
        let t = s.drop_first();
        assert forall|j: int| 0 <= j < p - 1 implies !seq_lt(x, #[trigger] t[j]) by {
            assert(t[j] == s[j + 1]);
        }
        lemma_insert_name_at(t, x, p - 1);
        assert(seq![s[0]] + t.insert(p - 1, x) =~= s.insert(p, x));
    }
}

/// Where `insert_name` places `x` in `s`.
pub open spec fn insert_pos(s: Seq<Seq<char>>, x: Seq<char>) -> nat
    decreases s.len(),
{
    if s.len() == 0 || seq_lt(x, s[0]) { 0 } else { 1 + insert_pos(s.drop_first(), x) }
}

/// Whether the names are in order.
pub open spec fn names_sorted(s: Seq<Seq<char>>) -> bool {
    forall|i: int, j: int| 0 <= i < j < s.len() ==> !seq_lt(#[trigger] s[j], #[trigger] s[i])
}

proof fn lemma_insert_pos(s: Seq<Seq<char>>, x: Seq<char>)
    ensures
        insert_pos(s, x) <= s.len(),
        insert_name(s, x) == s.insert(insert_pos(s, x) as int, x),
        forall|j: int| 0 <= j < insert_pos(s, x) ==> !seq_lt(x, #[trigger] s[j]),
        insert_pos(s, x) < s.len() ==> seq_lt(x, s[insert_pos(s, x) as int]),
    decreases s.len(),
{
    if s.len() == 0 {
        assert(s.insert(0, x) =~= seq![x]);
    } else if seq_lt(x, s[0]) {
        assert(s.insert(0, x) =~= seq![x] + s);
    } else {
        let t = s.drop_first();
        lemma_insert_pos(t, x);
        let p = insert_pos(t, x) as int;
        assert(seq![s[0]] + t.insert(p, x) =~= s.insert(p + 1, x));
        assert forall|j: int| 0 <= j < p + 1 implies !seq_lt(x, #[trigger] s[j]) by {
            if j > 0 {
                assert(s[j] == t[j - 1]);
            }
        }
        if p < t.len() {
            assert(s[p + 1] == t[p]);
        }
    }
}

proof fn lemma_insert_keeps_order(s: Seq<Seq<char>>, x: Seq<char>)
    requires
        names_sorted(s),
    ensures
        names_sorted(insert_name(s, x)),
        insert_name(s, x).to_multiset() == s.to_multiset().insert(x),
{
    lemma_insert_pos(s, x);
    let p = insert_pos(s, x) as int;
    let r = s.insert(p, x);
    vstd::seq_lib::to_multiset_insert(s, p, x);
    assert forall|i: int, j: int| 0 <= i < j < r.len() implies !seq_lt(#[trigger] r[j], #[trigger] r[i]) by {
        if j < p {
            assert(r[i] == s[i] && r[j] == s[j]);
        } else if j == p {
            assert(r[i] == s[i] && r[j] == x);
        } else if i < p {
            assert(r[i] == s[i] && r[j] == s[j - 1]);
        } else if i == p {
            assert(r[i] == x && r[j] == s[j - 1]);
            lemma_seq_lt_asym(x, s[p]);
            if j - 1 > p && seq_lt(s[j - 1], x) {
                lemma_seq_lt_trans(s[j - 1], x, s[p]);
            }
        } else {
            assert(r[i] == s[i - 1] && r[j] == s[j - 1]);
        }
    }
}

proof fn lemma_sort_names(s: Seq<Seq<char>>)
    ensures
        names_sorted(sort_names(s)),
        sort_names(s).to_multiset() == s.to_multiset(),
    decreases s.len(),
{
    broadcast use vstd::seq_lib::group_to_multiset_ensures;
    if s.len() > 0 {
        lemma_sort_names(s.drop_last());
        lemma_insert_keeps_order(sort_names(s.drop_last()), s.last());
        assert(s.drop_last().push(s.last()) =~= s);
    }
}

/// The template list comes out in order, and holds the name of each template
/// file, once per file.
pub proof fn law_template_names_sorted(files: Seq<Seq<char>>)
    ensures
        names_sorted(sort_names(template_candidates(files))),
        sort_names(template_candidates(files)).to_multiset() == template_candidates(files).to_multiset(),
{
    lemma_sort_names(template_candidates(files));
}

/// `s` without its trailing copies of `.rss.see`.
fn strip_template_suffix(s: &str) -> (r: String)
    ensures
        r@ == strip_suffixes(s@, template_suffix()),
{
    let suffix = ".rss.see";
    proof { reveal_strlit(".rss.see"); }
    let mut end: usize = s.unicode_len();
    let ghost full = s@;
    assert(full.subrange(0, end as int) =~= full);
    while end >= 8 && str_eq(s.substring_char(end - 8, end), suffix)
        invariant
            end <= full.len(),
            full == s@,
            suffix@ == template_suffix(),
            strip_suffixes(full.subrange(0, end as int), template_suffix()) == strip_suffixes(full, template_suffix()),
        decreases end,
    {
        let ghost cur = full.subrange(0, end as int);
        assert(cur.subrange(cur.len() - 8, cur.len() as int) =~= full.subrange(end - 8, end as int));
        assert(cur.subrange(0, cur.len() - 8) =~= full.subrange(0, end - 8));
        end = end - 8;
    }
    proof {
        let cur = full.subrange(0, end as int);
        if end >= 8 {
            assert(cur.subrange(cur.len() - 8, cur.len() as int) =~= full.subrange(end - 8, end as int));
        }
    }
    owned(s.substring_char(0, end))
}

/// The names of the feed templates among the file names of the template
/// directory: each file ending with `.rss.see`, without it, in order.
pub fn template_names(files: &Vec<String>) -> (r: Vec<String>)
    ensures
        strs(r@) == sort_names(template_candidates(strs(files@))),
{
    let mut r: Vec<String> = Vec::new();
    let mut i: usize = 0;
    let ghost fs = strs(files@);
    assert(fs.take(0) =~= Seq::<Seq<char>>::empty());
    while i < files.len()
        invariant
            i <= files@.len(),
            fs == strs(files@),
            strs(r@) == sort_names(template_candidates(fs.take(i as int))),
        decreases files@.len() - i,
    {
        let f = files[i].as_str();
        assert(fs.take(i + 1).drop_last() =~= fs.take(i as int));
        assert(fs.take(i + 1).last() == f@);
        if ends_with_suffix(f) {
            let name = strip_template_suffix(f);
            let ghost sv = strs(r@);
            let mut p: usize = 0;
            while p < r.len() && !str_lt(name.as_str(), r[p].as_str())
                invariant
                    p <= r@.len(),
                    sv == strs(r@),
                    forall|j: int| 0 <= j < p ==> !seq_lt(name@, #[trigger] sv[j]),
                decreases r@.len() - p,
            {
                p = p + 1;
            }
            proof {
                lemma_insert_name_at(sv, name@, p as int);
                let c = template_candidates(fs.take(i as int));
                assert(template_candidates(fs.take(i + 1)) == c.push(name@));
                assert(c.push(name@).drop_last() =~= c);
            }
            let ghost nv = name@;
            r.insert(p, name);
            assert(strs(r@) =~= sv.insert(p as int, nv));
        }
        i = i + 1;
    }
    assert(fs.take(i as int) =~= fs);
    r
}

/// Whether `s` ends with `.rss.see`.
fn ends_with_suffix(s: &str) -> (b: bool)
    ensures
        b == ends_with_seq(s@, template_suffix()),
{
    proof { reveal_strlit(".rss.see"); }
    let n = s.unicode_len();
    n >= 8 && str_eq(s.substring_char(n - 8, n), ".rss.see")
}

/// The number of white-space characters `s` begins with.
pub open spec fn lead_white(s: Seq<char>) -> nat
    decreases s.len(),
{
    if s.len() > 0 && is_white(s[0]) { 1 + lead_white(s.drop_first()) } else { 0 }
}

/// The number of other characters `s` begins with: the length of its first word.
pub open spec fn lead_word(s: Seq<char>) -> nat
    decreases s.len(),
{
    if s.len() > 0 && !is_white(s[0]) { 1 + lead_word(s.drop_first()) } else { 0 }
}

/// The position of the first line feed of `s` (its length when it has none).
pub open spec fn first_newline(s: Seq<char>) -> nat
    decreases s.len(),
{
    if s.len() > 0 && s[0] != '\n' { 1 + first_newline(s.drop_first()) } else { 0 }
}

proof fn lemma_first_newline(s: Seq<char>, j: int)
    requires
        0 <= j <= s.len(),
        forall|k: int| 0 <= k < j ==> s[k] != '\n',
        j == s.len() || s[j] == '\n',
    ensures
        first_newline(s) == j,
    decreases j,
{
    if j > 0 {
        let t = s.drop_first();
        assert forall|k: int| 0 <= k < j - 1 implies t[k] != '\n' by {
            assert(t[k] == s[k + 1]);
        }
        lemma_first_newline(t, j - 1);
    }
}

proof fn lemma_lead_white(s: Seq<char>, j: int)
    requires
        0 <= j <= s.len(),
        forall|k: int| 0 <= k < j ==> is_white(s[k]),
        j == s.len() || !is_white(s[j]),
    ensures
        lead_white(s) == j,
    decreases j,
{
    if j > 0 {
        let t = s.drop_first();
        assert forall|k: int| 0 <= k < j - 1 implies is_white(t[k]) by {
            assert(t[k] == s[k + 1]);
        }
        lemma_lead_white(t, j - 1);
    }
}

proof fn lemma_lead_word(s: Seq<char>, j: int)
    requires
        0 <= j <= s.len(),
        forall|k: int| 0 <= k < j ==> !is_white(s[k]),
        j == s.len() || is_white(s[j]),
    ensures
        lead_word(s) == j,
    decreases j,
{
    if j > 0 {
        let t = s.drop_first();
        assert forall|k: int| 0 <= k < j - 1 implies !is_white(t[k]) by {
            assert(t[k] == s[k + 1]);
        }
        lemma_lead_word(t, j - 1);
    }
}

/// The first line feed lies within the text.
pub proof fn lemma_first_newline_bound(s: Seq<char>)
    ensures
        first_newline(s) <= s.len(),
        first_newline(s) < s.len() ==> s[first_newline(s) as int] == '\n',
    decreases s.len(),
{
    if s.len() > 0 && s[0] != '\n' {
        lemma_first_newline_bound(s.drop_first());
    }
}

/// The lines of a template: the pieces between line feeds. (A carriage return
/// before a line feed, and the empty piece after a final line feed, are blank
/// and skipped like any blank line.)
pub open spec fn template_lines(s: Seq<char>) -> Seq<Seq<char>>
    decreases s.len(),
{
    let i = first_newline(s);
    if i >= s.len() {
        seq![s]
    } else {
        proof { lemma_first_newline_bound(s); }
        seq![s.take(i as int)] + template_lines(s.skip(i as int + 1))
    }
}

/// The feed a template line lists, if the request wants it: a line holds the
/// feed's address and, after white space, its category (`默认` when none);
/// blank lines and those starting with `#` or `//` list nothing; with
/// categories named, only feeds of those categories are wanted.
pub open spec fn line_feed(line: Seq<char>, cats: Seq<Seq<char>>) -> Option<Seq<char>> {
    let t = line.skip(lead_white(line) as int);
    if t.len() == 0 || t[0] == '#' || starts_with_seq(t, "//"@) {
        None
    } else {
        let url = t.take(lead_word(t) as int);
        let after = t.skip(lead_word(t) as int);
        let rest = after.skip(lead_white(after) as int);
        let cat = if rest.len() == 0 { "默认"@ } else { rest.take(lead_word(rest) as int) };
        if cats.len() > 0 && !cats.contains(cat) { None } else { Some(url) }
    }
}

/// The feeds the lines list, in order.
pub open spec fn template_feeds(lines: Seq<Seq<char>>, cats: Seq<Seq<char>>) -> Seq<Seq<char>>
    decreases lines.len(),
{
    if lines.len() == 0 {
        Seq::empty()
    } else {
        let head: Seq<Seq<char>> = match line_feed(lines[0], cats) {
            Some(u) => seq![u],
            None => Seq::empty(),
        };
        head + template_feeds(lines.drop_first(), cats)
    }
}

/// The end of the white space of `s` that starts at `from`, before `end`.
fn skip_white_from(s: &Vec<char>, from: usize, end: usize) -> (r: usize)
    requires
        from <= end <= s@.len(),
    ensures
        from <= r <= end,
        lead_white(s@.subrange(from as int, end as int)) == r - from,
{
    let mut i = from;
    while i < end && char_is_white(s[i])
        invariant
            from <= i <= end,
            end <= s@.len(),
            forall|k: int| from <= k < i ==> is_white(s@[k]),
        decreases end - i,
    {
        i = i + 1;
    }
    proof { lemma_lead_white(s@.subrange(from as int, end as int), i - from); }
    i
}

/// The end of the word of `s` that starts at `from`, before `end`.
fn skip_word_from(s: &Vec<char>, from: usize, end: usize) -> (r: usize)
    requires
        from <= end <= s@.len(),
    ensures
        from <= r <= end,
        lead_word(s@.subrange(from as int, end as int)) == r - from,
{
    let mut i = from;
    while i < end && !char_is_white(s[i])
        invariant
            from <= i <= end,
            end <= s@.len(),
            forall|k: int| from <= k < i ==> !is_white(s@[k]),
        decreases end - i,
    {
        i = i + 1;
    }
    proof { lemma_lead_word(s@.subrange(from as int, end as int), i - from); }
    i
}

/// The feed the line `start..end` of `text` (whose characters are `chars`) lists.
fn feed_of_line(text: &str, chars: &Vec<char>, start: usize, end: usize, categories: &Vec<String>) -> (r: Option<String>)
    requires
        chars@ == text@,
        start <= end <= chars@.len(),
    ensures
        match line_feed(text@.subrange(start as int, end as int), strs(categories@)) {
            Some(u) => r matches Some(x) && x@ == u,
            None => r is None,
        },
{
    let ghost line = text@.subrange(start as int, end as int);
    let a = skip_white_from(chars, start, end);
    let ghost t = line.skip(a - start);
    assert(t =~= text@.subrange(a as int, end as int));
    if a == end {
        return None;
    }
    if chars[a] == '#' {
        return None;
    }
    proof { reveal_strlit("//"); }
    if a + 1 < end && chars[a] == '/' && chars[a + 1] == '/' {
        assert(starts_with_seq(t, "//"@)) by {
            assert(t.subrange(0, 2) =~= "//"@);
        }
        return None;
    }
    assert(!starts_with_seq(t, "//"@)) by {
        if starts_with_seq(t, "//"@) {
            assert(t.subrange(0, 2)[0] == '/');
            assert(t.subrange(0, 2)[1] == '/');
        }
    }
    let b = skip_word_from(chars, a, end);
    let ghost url = t.take(b - a);
    assert(url =~= text@.subrange(a as int, b as int));
    let ghost after = t.skip(b - a);
    assert(after =~= text@.subrange(b as int, end as int));
    let c = skip_white_from(chars, b, end);
    let ghost rest = after.skip(c - b);
    assert(rest =~= text@.subrange(c as int, end as int));
    let cat = if c == end {
        owned("默认")
    } else {
        let d = skip_word_from(chars, c, end);
        assert(rest.take(d - c) =~= text@.subrange(c as int, d as int));
        owned(text.substring_char(c, d))
    };
    if categories.len() > 0 && !vec_has_string(categories, cat.as_str()) {
        return None;
    }
    Some(owned(text.substring_char(a, b)))
}

proof fn lemma_lines_step(s: Seq<char>, start: int, e: int)
    requires
        0 <= start <= e <= s.len(),
        forall|k: int| start <= k < e ==> s[k] != '\n',
        e < s.len() ==> s[e] == '\n',
    ensures
        e < s.len() ==> template_lines(s.skip(start)) == seq![s.subrange(start, e)] + template_lines(s.skip(e + 1)),
        e == s.len() ==> template_lines(s.skip(start)) == seq![s.subrange(start, e)],
{
    let t = s.skip(start);
    lemma_first_newline(t, e - start);
    if e < s.len() {
        assert(t.take(e - start) =~= s.subrange(start, e));
        assert(t.skip(e - start + 1) =~= s.skip(e + 1));
    } else {
        assert(t =~= s.subrange(start, e));
    }
}

proof fn lemma_feeds_head(line: Seq<char>, rest: Seq<Seq<char>>, cats: Seq<Seq<char>>)
    ensures
        template_feeds(seq![line] + rest, cats) == (match line_feed(line, cats) {
            Some(u) => seq![u],
            None => Seq::<Seq<char>>::empty(),
        }) + template_feeds(rest, cats),
{
    let all = seq![line] + rest;
    assert(all[0] == line);
    assert(all.drop_first() =~= rest);
}

/// The feeds a template lists, in order, as `line_feed` reads each of its lines.
pub fn parse_template(text: &str, categories: &Vec<String>) -> (r: Vec<String>)
    ensures
        strs(r@) == template_feeds(template_lines(text@), strs(categories@)),
{
    let chars = chars_of(text);
    let n = chars.len();
    let ghost cats = strs(categories@);
    let ghost s = text@;
    let mut out: Vec<String> = Vec::new();
    let mut start: usize = 0;
    assert(s.skip(0) =~= s);
    loop
        invariant
            chars@ == s,
            s == text@,
            cats == strs(categories@),
            n == s.len(),
            start <= n,
            strs(out@) + template_feeds(template_lines(s.skip(start as int)), cats) == template_feeds(template_lines(s), cats),
        decreases n - start,
    {
        let mut e = start;
        while e < n && chars[e] != '\n'
            invariant
                start <= e <= n,
                n == chars@.len(),
                forall|k: int| start <= k < e ==> chars@[k] != '\n',
            decreases n - e,
        {
            e = e + 1;
        }
        proof { lemma_lines_step(s, start as int, e as int); }
        let feed = feed_of_line(text, &chars, start, e, categories);
        let ghost head: Seq<Seq<char>> = match line_feed(s.subrange(start as int, e as int), cats) {
            Some(u) => seq![u],
            None => Seq::empty(),
        };
        let ghost before = strs(out@);
        match feed {
            Some(u) => {
                out.push(u);
                assert(strs(out@) =~= before + head);
            },
            None => {
                assert(strs(out@) =~= before + head);
            },
        }
        if e == n {
            proof {
                lemma_feeds_head(s.subrange(start as int, e as int), Seq::empty(), cats);
                assert(template_feeds(Seq::<Seq<char>>::empty(), cats) =~= Seq::<Seq<char>>::empty());
                assert(seq![s.subrange(start as int, e as int)] + Seq::<Seq<char>>::empty() =~= seq![s.subrange(start as int, e as int)]);
                assert(strs(out@) =~= before + head);
            }
            return out;
        }
        proof {
            lemma_feeds_head(s.subrange(start as int, e as int), template_lines(s.skip(e + 1)), cats);
            assert(before + (head + template_feeds(template_lines(s.skip(e + 1)), cats))
                =~= (before + head) + template_feeds(template_lines(s.skip(e + 1)), cats));
        }
        start = e + 1;
    }
}

/// The path of the template `name`.
pub fn template_path(name: &str) -> (p: String)
    ensures
        p@ == "rss/template/"@ + name@ + ".rss.see"@,
{
    concat3("rss/template/", name, ".rss.see")
}

/// The answer to loading the feeds of a template whose text is `text`: the
/// feeds it lists for the requested categories, and a message that counts them.
pub fn add_from_template(request: &TemplateAddRequest, text: &str) -> (r: TemplateAddResponse)
    ensures
        r.success,
        strs(r.added_feeds@) == template_feeds(template_lines(text@), strs(request.categories@)),
        r.failed_feeds@.len() == 0,
        r.message@ == "Successfully loaded "@ + decimal(r.added_feeds@.len()) + " feeds from template '"@
            + request.name@ + "'"@,
{
    let added = parse_template(text, &request.categories);
    let count = usize_to_decimal(added.len());
    let mut message = concat3("Successfully loaded ", count.as_str(), " feeds from template '");
    message.append(request.name.as_str());
    message.append("'");
    TemplateAddResponse { success: true, message, added_feeds: added, failed_feeds: Vec::new() }
}

/// The error answer when the template `name` cannot be read (`detail` says why).
pub fn template_not_found(name: &str, detail: String) -> (r: ApiErrorResponse)
    ensures
        r.code@ == "TEMPLATE_NOT_FOUND"@,
        r.message@ == "Template '"@ + name@ + "' not found"@,
        r.details == Some(detail),
{
    ApiErrorResponse { code: owned("TEMPLATE_NOT_FOUND"), message: concat3("Template '", name, "' not found"), details: Some(detail) }
}

} // verus!
