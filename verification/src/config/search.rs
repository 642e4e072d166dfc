//! Settings of searching: result counts, timeouts, languages, formats, result
//! aggregation and query processing.
//!
//! Fractions are kept as whole thousandths (`800` stands for 0.8).
use vstd::prelude::*;
use crate::config::common::{ConfigValidationResult, SafeSearchLevel, msg_if, strs};
use crate::text::{owned, str_eq, strings_contain, vec_has_string};

verus! {

/// A time window for results.
#[derive(Debug, Clone, Copy, PartialEq, Eq, Structural)]
pub enum TimeRange {
    /// Any time.
    Any,
    /// The last day.
    Day,
    /// The last week.
    Week,
    /// The last month.
    Month,
    /// The last year.
    Year,
}

/// How duplicate results are recognised.
#[derive(Debug, Clone, Copy, PartialEq, Eq, Structural)]
pub enum DeduplicationMethod {
    /// Same URL.
    Url,
    /// Same title.
    Title,
    /// Same URL and title.
    UrlAndTitle,
    /// Same content hash.
    ContentHash,
    /// Similar content.
    Similarity,
}

/// How results are ranked.
#[derive(Debug, Clone, Copy, PartialEq, Eq, Structural)]
pub enum RankingAlgorithm {
    /// Simple weights.
    Weighted,
    /// Weights by engine rank.
    EngineRankWeighted,
    /// Decay with age.
    TimeDecay,
    /// A learned ranking.
    MlRanking,
    /// A mix.
    Hybrid,
}

/// How results are grouped.
#[derive(Debug, Clone, Copy, PartialEq, Eq, Structural)]
pub enum GroupingStrategy {
    /// No grouping.
    Off,
    /// By engine.
    ByEngine,
    /// By domain.
    ByDomain,
    /// By result type.
    ByType,
    /// Chosen automatically.
    Smart,
}

/// Ways a query is expanded.
#[derive(Debug, Clone, Copy, PartialEq, Eq, Structural)]
pub enum ExpansionMethod {
    /// Synonyms.
    Synonyms,
    /// Related terms.
    RelatedTerms,
    /// Spelling correction.
    SpellingCorrection,
    /// Translation.
    Translation,
    /// Abbreviations spelled out.
    AbbreviationExpansion,
}

/// Settings of result aggregation.
#[derive(Debug, Clone, Copy)]
pub struct AggregationConfig {
    /// Whether duplicates are removed.
    pub enable_deduplication: bool,
    /// How duplicates are recognised.
    pub deduplication_method: DeduplicationMethod,
    /// Whether results are ranked.
    pub enable_ranking: bool,
    /// How results are ranked.
    pub ranking_algorithm: RankingAlgorithm,
    /// Most results kept.
    pub max_results: usize,
    /// Least engine weight, in thousandths.
    pub min_engine_weight_milli: i64,
    /// Whether results are grouped.
    pub enable_grouping: bool,
    /// How results are grouped.
    pub grouping_strategy: GroupingStrategy,
}

/// What `AggregationConfig::default` gives.
pub open spec fn is_default_aggregation(c: AggregationConfig) -> bool {
    &&& c.enable_deduplication
    &&& c.deduplication_method == DeduplicationMethod::UrlAndTitle
    &&& c.enable_ranking
    &&& c.ranking_algorithm == RankingAlgorithm::Hybrid
    &&& c.max_results == 100
    &&& c.min_engine_weight_milli == 100
    &&& c.enable_grouping
    &&& c.grouping_strategy == GroupingStrategy::Smart
}

impl Default for AggregationConfig {
    fn default() -> (c: Self)
        ensures
            is_default_aggregation(c),
    {
        AggregationConfig {
            enable_deduplication: true,
            deduplication_method: DeduplicationMethod::UrlAndTitle,
            enable_ranking: true,
            ranking_algorithm: RankingAlgorithm::Hybrid,
            max_results: 100,
            min_engine_weight_milli: 100,
            enable_grouping: true,
            grouping_strategy: GroupingStrategy::Smart,
        }
    }
}

/// Settings of query processing.
#[derive(Debug, Clone)]
pub struct QueryProcessingConfig {
    /// Whether queries are expanded.
    pub enable_expansion: bool,
    /// Ways queries are expanded.
    pub expansion_methods: Vec<ExpansionMethod>,
    /// Whether queries are corrected.
    pub enable_correction: bool,
    /// Threshold of correction, in thousandths.
    pub correction_threshold_milli: i64,
    /// Whether synonyms are added.
    pub enable_synonyms: bool,
    /// Whether stop words are removed.
    pub enable_stop_words: bool,
    /// Longest query.
    pub max_query_length: usize,
    /// Shortest query.
    pub min_query_length: usize,
}

/// What `QueryProcessingConfig::default` gives.
pub open spec fn is_default_query_processing(c: QueryProcessingConfig) -> bool {
    &&& c.enable_expansion
    &&& c.expansion_methods@ == seq![ExpansionMethod::Synonyms, ExpansionMethod::SpellingCorrection]
    &&& c.enable_correction
    &&& c.correction_threshold_milli == 800
    &&& c.enable_synonyms
    &&& c.enable_stop_words
    &&& c.max_query_length == 200
    &&& c.min_query_length == 1
}

impl Default for QueryProcessingConfig {
    fn default() -> (c: Self)
        ensures
            is_default_query_processing(c),
    {
        QueryProcessingConfig {
            enable_expansion: true,
            expansion_methods: vec![ExpansionMethod::Synonyms, ExpansionMethod::SpellingCorrection],
            enable_correction: true,
            correction_threshold_milli: 800,
            enable_synonyms: true,
            enable_stop_words: true,
            max_query_length: 200,
            min_query_length: 1,
        }
    }
}

/// Settings of searching.
#[derive(Debug, Clone)]
pub struct SearchConfig {
    /// Adult-content filtering.
    pub safe_search: SafeSearchLevel,
    /// Autocomplete engine.
    pub autocomplete: String,
    /// Output formats.
    pub formats: Vec<String>,
    /// Results per page by default.
    pub results_per_page: usize,
    /// Most results per page.
    pub max_results_per_page: usize,
    /// Search timeout in seconds.
    pub search_timeout: u64,
    /// Most engines queried at once.
    pub max_concurrent_engines: usize,
    /// Default language.
    pub default_language: String,
    /// Supported languages.
    pub supported_languages: Vec<String>,
    /// Whether time ranges are supported.
    pub time_range_support: bool,
    /// Default time range.
    pub default_time_range: Option<TimeRange>,
    /// Aggregation settings.
    pub aggregation: AggregationConfig,
    /// Query processing settings.
    pub query_processing: QueryProcessingConfig,
}

/// The errors found in search settings, in order.
pub open spec fn search_errors(c: &SearchConfig) -> Seq<Seq<char>> {
    msg_if(c.results_per_page == 0, "默认结果数必须大于 0"@)
        + msg_if(c.max_results_per_page < c.results_per_page, "最大结果数不能小于默认结果数"@)
        + msg_if(c.search_timeout == 0, "搜索超时时间必须大于 0"@)
        + msg_if(c.max_concurrent_engines == 0, "并发引擎数必须大于 0"@)
        + msg_if(c.formats@.len() == 0, "必须指定至少一种输出格式"@)
        + msg_if(c.query_processing.min_query_length >= c.query_processing.max_query_length,
            "最小查询长度不能大于等于最大查询长度"@)
        + msg_if(c.query_processing.correction_threshold_milli < 0
            || c.query_processing.correction_threshold_milli > 1000, "纠正阈值必须在 0.0-1.0 之间"@)
}

/// Search settings whose largest number of results per page is below the
/// default number of results never validate: the error that names it is among
/// the errors found (and `validate` then reports them as not valid).
pub proof fn law_max_below_default_is_invalid(c: &SearchConfig)
    requires
        c.max_results_per_page < c.results_per_page,
    ensures
        search_errors(c).contains("最大结果数不能小于默认结果数"@),
        search_errors(c).len() > 0,
{
    let a = msg_if(c.results_per_page == 0, "默认结果数必须大于 0"@);
    let b = msg_if(c.max_results_per_page < c.results_per_page, "最大结果数不能小于默认结果数"@);
    let rest = msg_if(c.search_timeout == 0, "搜索超时时间必须大于 0"@)
        + msg_if(c.max_concurrent_engines == 0, "并发引擎数必须大于 0"@)
        + msg_if(c.formats@.len() == 0, "必须指定至少一种输出格式"@)
        + msg_if(c.query_processing.min_query_length >= c.query_processing.max_query_length,
            "最小查询长度不能大于等于最大查询长度"@)
        + msg_if(c.query_processing.correction_threshold_milli < 0
            || c.query_processing.correction_threshold_milli > 1000, "纠正阈值必须在 0.0-1.0 之间"@);
    assert(a.len() == 0);
    assert(search_errors(c) =~= a + b + rest);
    assert(search_errors(c)[0] == "最大结果数不能小于默认结果数"@);
}

/// Search settings validate exactly when the default number of results is
/// positive and not above the largest, the timeout and the number of concurrent
/// engines are positive, some output format is named, the least query length is
/// below the most, and the correction threshold lies in 0..=1000 thousandths.
pub proof fn law_search_valid_iff(c: &SearchConfig)
    ensures
        (search_errors(c).len() == 0) <==> (
            c.results_per_page > 0
            && c.max_results_per_page >= c.results_per_page
            && c.search_timeout > 0
            && c.max_concurrent_engines > 0
            && c.formats@.len() > 0
            && c.query_processing.min_query_length < c.query_processing.max_query_length
            && 0 <= c.query_processing.correction_threshold_milli <= 1000),
{
}

/// The warnings found in search settings, in order.
pub open spec fn search_warnings(c: &SearchConfig) -> Seq<Seq<char>> {
    msg_if(c.max_results_per_page > 100, "最大结果数过大可能影响性能"@)
        + msg_if(c.search_timeout > 300, "搜索超时时间过长（>5分钟）"@)
        + msg_if(c.max_concurrent_engines > 20, "并发引擎数过多可能影响性能"@)
        + msg_if(c.query_processing.min_query_length == 0, "最小查询长度为 0 可能导致空查询"@)
}

/// What `SearchConfig::default` gives.
pub open spec fn is_default_search(c: SearchConfig) -> bool {
    &&& c.safe_search == SafeSearchLevel::Off
    &&& c.autocomplete@ == ""@
    &&& strs(c.formats@) == seq!["json"@, "html"@]
    &&& c.results_per_page == 10
    &&& c.max_results_per_page == 50
    &&& c.search_timeout == 30
    &&& c.max_concurrent_engines == 5
    &&& c.default_language@ == "auto"@
    &&& strs(c.supported_languages@) == seq!["en"@, "zh"@, "ja"@, "ko"@, "es"@, "fr"@, "de"@, "ru"@]
    &&& c.time_range_support
    &&& c.default_time_range is None
    &&& is_default_aggregation(c.aggregation)
    &&& is_default_query_processing(c.query_processing)
}

impl Default for SearchConfig {
    fn default() -> (c: Self)
        ensures
            is_default_search(c),
    {
        let formats = vec![owned("json"), owned("html")];
        let langs = vec![
            owned("en"), owned("zh"), owned("ja"), owned("ko"),
            owned("es"), owned("fr"), owned("de"), owned("ru"),
        ];
        let c = SearchConfig {
            safe_search: SafeSearchLevel::Off,
            autocomplete: owned(""),
            formats,
            results_per_page: 10,
            max_results_per_page: 50,
            search_timeout: 30,
            max_concurrent_engines: 5,
            default_language: owned("auto"),
            supported_languages: langs,
            time_range_support: true,
            default_time_range: None,
            aggregation: AggregationConfig::default(),
            query_processing: QueryProcessingConfig::default(),
        };
        assert(strs(c.formats@) =~= seq!["json"@, "html"@]);
        assert(strs(c.supported_languages@) =~= seq!["en"@, "zh"@, "ja"@, "ko"@, "es"@, "fr"@, "de"@, "ru"@]);
        c
    }
}

impl SearchConfig {
    /// Checks the settings. Errors: no default results, a maximum below the
    /// default, a zero timeout, no concurrent engines, no output format, a shortest
    /// query not below the longest, a correction threshold outside 0..=1. Warnings:
    /// more than 100 results, a timeout over 300 s, more than 20 concurrent engines,
    /// a shortest query of 0.
    pub fn validate(&self) -> (r: ConfigValidationResult)
        ensures
            strs(r.errors@) == search_errors(self),
            strs(r.warnings@) == search_warnings(self),
            r.is_valid == (search_errors(self).len() == 0),
    {
        let mut result = ConfigValidationResult::success();
        assert(strs(result.errors@) =~= Seq::<Seq<char>>::empty());
        assert(strs(result.warnings@) =~= Seq::<Seq<char>>::empty());
        let processing = &self.query_processing;
        result.error_if(self.results_per_page == 0, "默认结果数必须大于 0");
        result.error_if(self.max_results_per_page < self.results_per_page, "最大结果数不能小于默认结果数");
        result.warning_if(self.max_results_per_page > 100, "最大结果数过大可能影响性能");
        result.error_if(self.search_timeout == 0, "搜索超时时间必须大于 0");
        result.warning_if(self.search_timeout > 300, "搜索超时时间过长（>5分钟）");
        result.error_if(self.max_concurrent_engines == 0, "并发引擎数必须大于 0");
        result.warning_if(self.max_concurrent_engines > 20, "并发引擎数过多可能影响性能");
        result.error_if(self.formats.len() == 0, "必须指定至少一种输出格式");
        result.error_if(processing.min_query_length >= processing.max_query_length,
            "最小查询长度不能大于等于最大查询长度");
        result.warning_if(processing.min_query_length == 0, "最小查询长度为 0 可能导致空查询");
        result.error_if(processing.correction_threshold_milli < 0 || processing.correction_threshold_milli > 1000,
            "纠正阈值必须在 0.0-1.0 之间");
        assert(strs(result.errors@) =~= search_errors(self));
        assert(strs(result.warnings@) =~= search_warnings(self));
        result
    }

    /// Whether `language` is `auto` or one of the supported languages.
    pub fn is_language_supported(&self, language: &str) -> (b: bool)
        ensures
            b == (language@ == "auto"@ || strings_contain(self.supported_languages@, language@)),
    {
        str_eq(language, "auto") || vec_has_string(&self.supported_languages, language)
    }

    /// Whether `format` is one of the output formats.
    pub fn is_format_supported(&self, format: &str) -> (b: bool)
        ensures
            b == strings_contain(self.formats@, format@),
    {
        vec_has_string(&self.formats, format)
    }

    /// The requested number of results, brought into `1..=max_results_per_page`.
    pub fn get_valid_results_count(&self, requested: usize) -> (n: usize)
        requires
            self.max_results_per_page >= 1,
        ensures
            n == (if requested < 1 { 1 } else if requested > self.max_results_per_page {
                self.max_results_per_page
            } else {
                requested
            }),
    {
        if requested < 1 {
            1
        } else if requested > self.max_results_per_page {
            self.max_results_per_page
        } else {
            requested
        }
    }
}

} // verus!
