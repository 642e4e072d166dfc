//! The whole configuration, its summary, its errors and its loader.
use vstd::prelude::*;
use crate::config::cache::{CacheConfig, is_default_cache};
use crate::config::common::{ConfigValidationResult, LogLevel, strs};
use crate::config::general::{GeneralConfig, is_default_general};
use crate::config::logging::{LoggingConfig, is_default_logging};
use crate::config::privacy::{PrivacyConfig, privacy_errors, is_default_privacy};
use crate::config::search::{SearchConfig, search_errors, search_warnings, is_default_search};
use crate::config::server::{ServerConfig, server_errors, server_warnings, is_default_server};
use crate::config::types::Environment;
use crate::text::{concat2, debug_strings, owned, render_debug_strings};
use crate::clock::utc_now_secs;

verus! {

/// The whole configuration.
#[derive(Debug, Clone)]
pub struct SeeSeaConfig {
    /// General settings.
    pub general: GeneralConfig,
    /// Environment.
    pub environment: Environment,
    /// Server settings.
    pub server: ServerConfig,
    /// Search settings.
    pub search: SearchConfig,
    /// Privacy settings.
    pub privacy: PrivacyConfig,
    /// Cache settings.
    pub cache: CacheConfig,
    /// Logging settings.
    pub logging: LoggingConfig,
}

/// The errors of a whole configuration: those of the server, search and privacy
/// sections, in that order.
pub open spec fn config_errors(c: &SeeSeaConfig) -> Seq<Seq<char>> {
    server_errors(&c.server) + search_errors(&c.search) + privacy_errors(&c.privacy)
}

/// The warnings of a whole configuration, section by section.
pub open spec fn config_warnings(c: &SeeSeaConfig) -> Seq<Seq<char>> {
    server_warnings(&c.server) + search_warnings(&c.search)
}

/// The outcome of validating a whole configuration.
pub open spec fn validated(r: &ConfigValidationResult, c: &SeeSeaConfig) -> bool {
    &&& strs(r.errors@) == config_errors(c)
    &&& strs(r.warnings@) == config_warnings(c)
    &&& r.is_valid == (config_errors(c).len() == 0)
}

/// What `SeeSeaConfig::default` gives: every section at its default, in the
/// development environment.
pub open spec fn is_default_config(c: SeeSeaConfig) -> bool {
    &&& is_default_general(c.general)
    &&& c.environment == Environment::Development
    &&& is_default_server(c.server)
    &&& is_default_search(c.search)
    &&& is_default_privacy(c.privacy)
    &&& is_default_cache(c.cache)
    &&& is_default_logging(c.logging)
}

/// Whether `c` is the default configuration but for its environment, the
/// debugging switch and the log level: every other setting is a default.
pub open spec fn is_default_but_mode(c: SeeSeaConfig) -> bool {
    &&& is_default_general(GeneralConfig { debug: false, ..c.general })
    &&& is_default_server(c.server)
    &&& is_default_search(c.search)
    &&& is_default_privacy(c.privacy)
    &&& is_default_cache(c.cache)
}

impl Default for SeeSeaConfig {
    fn default() -> (c: Self)
        ensures
            is_default_config(c),
    {
        SeeSeaConfig {
            general: GeneralConfig::default(),
            environment: Environment::default(),
            server: ServerConfig::default(),
            search: SearchConfig::default(),
            privacy: PrivacyConfig::default(),
            cache: CacheConfig::default(),
            logging: LoggingConfig::default(),
        }
    }
}

/// A summary of a configuration.
#[derive(Debug, Clone)]
pub struct ConfigSummary {
    /// Path of the settings.
    pub config_path: String,
    /// Name of the environment.
    pub environment: String,
    /// Engines enabled.
    pub enabled_engines: usize,
    /// Engines known.
    pub total_engines: usize,
    /// Proxies enabled.
    pub enabled_proxies: usize,
    /// Whether the cache is on.
    pub cache_enabled: bool,
    /// Outcome of validation.
    pub validation: ConfigValidationResult,
}

impl SeeSeaConfig {
    /// The default configuration for development: debugging on, log level debug.
    pub fn development() -> (c: Self)
        ensures
            c.environment == Environment::Development,
            is_default_but_mode(c),
            c.general.debug,
            c.logging.level == LogLevel::Debug,
    {
        let mut config = Self::default();
        config.environment = Environment::Development;
        config.general.debug = true;
        config.logging.level = LogLevel::Debug;
        config
    }

    /// The default configuration for testing: debugging on, log level info.
    pub fn testing() -> (c: Self)
        ensures
            c.environment == Environment::Testing,
            is_default_but_mode(c),
            c.general.debug,
            c.logging.level == LogLevel::Info,
    {
        let mut config = Self::default();
        config.environment = Environment::Testing;
        config.general.debug = true;
        config.logging.level = LogLevel::Info;
        config
    }

    /// The default configuration for production: debugging off, log level warn.
    pub fn production() -> (c: Self)
        ensures
            c.environment == Environment::Production,
            is_default_but_mode(c),
            !c.general.debug,
            c.logging.level == LogLevel::Warn,
    {
        let mut config = Self::default();
        config.environment = Environment::Production;
        config.general.debug = false;
        config.logging.level = LogLevel::Warn;
        config
    }

    /// Validates the server, search and privacy sections and collects their
    /// errors and warnings in that order.
    pub fn validate(&self) -> (r: ConfigValidationResult)
        ensures
            validated(&r, self),
    {
        let mut result = self.server.validate();
        result.merge(self.search.validate());
        result.merge(self.privacy.validate());
        proof {
            assert(strs(result.errors@) =~= config_errors(self));
            assert(strs(result.warnings@) =~= config_warnings(self) + Seq::<Seq<char>>::empty());
            assert(config_warnings(self) + Seq::<Seq<char>>::empty() =~= config_warnings(self));
        }
        result
    }

    /// A summary: the environment's name and the outcome of validation.
    pub fn get_summary(&self) -> (s: ConfigSummary)
        ensures
            s.config_path@ == ""@,
            s.environment@ == self.environment.variant_name(),
            s.enabled_engines == 0,
            s.total_engines == 0,
            s.enabled_proxies == 0,
            s.cache_enabled,
            validated(&s.validation, self),
    {
        ConfigSummary {
            config_path: owned(""),
            environment: self.environment.variant_string(),
            enabled_engines: 0,
            total_engines: 0,
            enabled_proxies: 0,
            cache_enabled: true,
            validation: self.validate(),
        }
    }

    /// Whether validation finds no error.
    pub fn is_production_ready(&self) -> (b: bool)
        ensures
            b == (config_errors(self).len() == 0),
    {
        let validation = self.validate();
        validation.is_valid && validation.errors.len() == 0
    }

    /// The warnings of validation.
    pub fn get_config_recommendations(&self) -> (w: Vec<String>)
        ensures
            strs(w@) == config_warnings(self),
    {
        let validation = self.validate();
        validation.warnings
    }
}

/// The `Debug` rendering of a validation result.
pub open spec fn debug_validation(r: &ConfigValidationResult) -> Seq<char> {
    "ConfigValidationResult { is_valid: "@ + (if r.is_valid { "true"@ } else { "false"@ })
        + ", errors: "@ + debug_strings(strs(r.errors@))
        + ", warnings: "@ + debug_strings(strs(r.warnings@)) + " }"@
}

/// Renders a validation result as `Debug` writes it.
fn validation_debug_string(r: &ConfigValidationResult) -> (s: String)
    ensures
        s@ == debug_validation(r),
{
    let mut s = owned("ConfigValidationResult { is_valid: ");
    if r.is_valid { s.append("true"); } else { s.append("false"); }
    s.append(", errors: ");
    let e = render_debug_strings(&r.errors);
    s.append(e.as_str());
    s.append(", warnings: ");
    let w = render_debug_strings(&r.warnings);
    s.append(w.as_str());
    s.append(" }");
    s
}

/// An error of loading configuration.
#[derive(Debug, Clone)]
pub enum ConfigError {
    /// Reading failed.
    Io(String),
    /// Parsing failed.
    Parse(String),
    /// Validation found errors.
    Validation(ConfigValidationResult),
    /// The file does not exist.
    NotFound(String),
    /// Access was denied.
    Permission(String),
    /// An environment variable was wrong.
    Environment(String),
    /// Settings conflict.
    Conflict(String),
}

impl ConfigError {
    /// The message of the error.
    pub open spec fn message(&self) -> Seq<char> {
        match self {
            ConfigError::Io(m) => "IO 错误: "@ + m@,
            ConfigError::Parse(m) => "解析错误: "@ + m@,
            ConfigError::Validation(r) => "验证失败: "@ + debug_validation(r),
            ConfigError::NotFound(m) => "配置文件不存在: "@ + m@,
            ConfigError::Permission(m) => "权限错误: "@ + m@,
            ConfigError::Environment(m) => "环境变量错误: "@ + m@,
            ConfigError::Conflict(m) => "配置冲突: "@ + m@,
        }
    }

    /// The message of the error.
    pub fn to_string(&self) -> (s: String)
        ensures
            s@ == self.message(),
    {
        match self {
            ConfigError::Io(m) => concat2("IO 错误: ", m.as_str()),
            ConfigError::Parse(m) => concat2("解析错误: ", m.as_str()),
            ConfigError::Validation(r) => {
                let d = validation_debug_string(r);
                concat2("验证失败: ", d.as_str())
            },
            ConfigError::NotFound(m) => concat2("配置文件不存在: ", m.as_str()),
            ConfigError::Permission(m) => concat2("权限错误: ", m.as_str()),
            ConfigError::Environment(m) => concat2("环境变量错误: ", m.as_str()),
            ConfigError::Conflict(m) => concat2("配置冲突: ", m.as_str()),
        }
    }

    /// Same as `Io`.
    #[allow(non_snake_case)]
    pub fn IoError(msg: String) -> (e: Self)
        ensures
            e == ConfigError::Io(msg),
    {
        ConfigError::Io(msg)
    }

    /// Same as `Parse`.
    #[allow(non_snake_case)]
    pub fn ParseError(msg: String) -> (e: Self)
        ensures
            e == ConfigError::Parse(msg),
    {
        ConfigError::Parse(msg)
    }

    /// A `Validation` error holding `errors`; it is invalid unless `errors` is empty.
    #[allow(non_snake_case)]
    pub fn ValidationFailed(errors: Vec<String>) -> (e: Self)
        ensures
            e matches ConfigError::Validation(r) && strs(r.errors@) == strs(errors@)
                && r.warnings@.len() == 0 && r.is_valid == (errors@.len() == 0),
    {
        let mut result = ConfigValidationResult::default();
        assert(strs(result.errors@) =~= strs(errors@).take(0));
        let mut i: usize = 0;
        while i < errors.len()
            invariant
                i <= errors.len(),
                strs(result.errors@) == strs(errors@).take(i as int),
                result.warnings@.len() == 0,
                result.is_valid == (i == 0),
            decreases errors.len() - i,
        {
            let e = errors[i].clone();
            result.add_error(e);
            assert(strs(errors@).take(i + 1) =~= strs(errors@).take(i as int).push(errors@[i as int]@));
            i = i + 1;
        }
        assert(strs(errors@).take(i as int) =~= strs(errors@));
        ConfigError::Validation(result)
    }

    /// Same as `NotFound`.
    #[allow(non_snake_case)]
    pub fn FileNotFound(path: String) -> (e: Self)
        ensures
            e == ConfigError::NotFound(path),
    {
        ConfigError::NotFound(path)
    }

    /// Same as `Environment`.
    #[allow(non_snake_case)]
    pub fn EnvironmentError(msg: String) -> (e: Self)
        ensures
            e == ConfigError::Environment(msg),
    {
        ConfigError::Environment(msg)
    }
}

/// A source of configuration.
#[derive(Debug, Clone)]
pub enum ConfigSource {
    /// A settings file at this path.
    File(String),
    /// Environment variables.
    Environment,
    /// The defaults.
    Default,
    /// Command-line arguments.
    CommandLine,
}

/// What loading produced.
#[derive(Debug, Clone)]
pub struct ConfigLoadResult {
    /// The configuration.
    pub config: SeeSeaConfig,
    /// Its summary.
    pub summary: ConfigSummary,
    /// When it was loaded, in seconds since the Unix epoch.
    pub load_time_secs: u64,
    /// Path of the file.
    pub file_path: String,
    /// Whether defaults were used.
    pub used_defaults: bool,
    /// Warnings of validation.
    pub warnings: Vec<String>,
}

/// Loads configuration from its sources in order.
#[derive(Debug, Clone)]
pub struct ConfigLoader {
    /// Sources, applied in order.
    pub sources: Vec<ConfigSource>,
    /// Environment, when set.
    pub environment: Option<Environment>,
    /// Whether the result is validated.
    pub validate: bool,
}

impl Default for ConfigLoader {
    fn default() -> (l: Self)
        ensures
            l.sources@.len() == 3,
            l.sources@[0] is Default,
            l.sources@[1] is Environment,
            l.sources@[2] matches ConfigSource::File(p) && p@ == "config/default.toml"@,
            l.environment is None,
            l.validate,
    {
        ConfigLoader {
            sources: vec![
                ConfigSource::Default,
                ConfigSource::Environment,
                ConfigSource::File(owned("config/default.toml")),
            ],
            environment: None,
            validate: true,
        }
    }
}

/// What reading one source gave: for a file that exists, its parsed contents;
/// nothing for other sources and for files that do not exist; or the error of
/// reading or parsing it.
pub type SourceRead = Result<Option<SeeSeaConfig>, ConfigError>;

/// The first position of an error among `reads`, if any.
pub open spec fn first_error(reads: Seq<SourceRead>) -> Option<int>
    decreases reads.len(),
{
    if reads.len() == 0 {
        None
    } else {
        match first_error(reads.drop_last()) {
            Some(i) => Some(i),
            None => if reads.last() is Err { Some(reads.len() - 1) } else { None },
        }
    }
}

/// The last file read among `reads`, if any.
pub open spec fn last_read(reads: Seq<SourceRead>) -> Option<SeeSeaConfig>
    decreases reads.len(),
{
    if reads.len() == 0 {
        None
    } else {
        match reads.last() {
            Ok(Some(c)) => Some(c),
            _ => last_read(reads.drop_last()),
        }
    }
}

/// Whether `c` is what loading `reads` gives: the last file read, or the defaults
/// when no file was read.
pub open spec fn loaded_config(reads: Seq<SourceRead>, c: SeeSeaConfig) -> bool {
    match last_read(reads) {
        Some(x) => c == x,
        None => is_default_config(c),
    }
}

proof fn lemma_first_error_prefix(s: Seq<SourceRead>, k: int)
    requires
        0 <= k <= s.len(),
        first_error(s.take(k)) is Some,
    ensures
        first_error(s) == first_error(s.take(k)),
    decreases s.len(),
{
    if k == s.len() {
        assert(s.take(k) =~= s);
    } else {
        assert(s.drop_last().take(k) =~= s.take(k));
        lemma_first_error_prefix(s.drop_last(), k);
    }
}

/// What loading from `reads` at time `t` gives, with validation on or off: the
/// first error read, if any; otherwise the configuration of the last file read
/// (the defaults when none was), refused with `Validation` when validation is on
/// and it has errors.
pub open spec fn load_outcome(validate: bool, reads: Seq<SourceRead>, t: u64, r: Result<ConfigLoadResult, ConfigError>) -> bool {
    match first_error(reads) {
        Some(i) => r == Err::<ConfigLoadResult, ConfigError>(reads[i]->Err_0),
        None => {
            match r {
                Ok(res) => {
                    &&& loaded_config(reads, res.config)
                    &&& (validate ==> config_errors(&res.config).len() == 0)
                    &&& strs(res.warnings@) == (if validate { config_warnings(&res.config) } else { Seq::empty() })
                    &&& res.load_time_secs == t
                    &&& res.file_path@ == ""@
                    &&& !res.used_defaults
                    &&& res.summary.config_path@ == "config"@
                    &&& res.summary.environment@ == res.config.environment.variant_name()
                },
                Err(e) => validate && (e matches ConfigError::Validation(v)
                    && exists|c: SeeSeaConfig| #[trigger] loaded_config(reads, c) && validated(&v, &c)
                        && config_errors(&c).len() > 0),
            }
        },
    }
}

impl ConfigLoader {
    /// A loader with the default sources.
    pub fn new() -> (l: Self)
        ensures
            l.sources@.len() == 3,
            l.sources@[0] is Default,
            l.sources@[1] is Environment,
            l.sources@[2] matches ConfigSource::File(p) && p@ == "config/default.toml"@,
            l.environment is None,
            l.validate,
    {
        Self::default()
    }

    /// Sets the environment.
    pub fn with_environment(self, env: Environment) -> (l: Self)
        ensures
            l.environment == Some(env),
            l.sources@ == self.sources@,
            l.validate == self.validate,
    {
        let mut l = self;
        l.environment = Some(env);
        l
    }

    /// Appends a source.
    pub fn with_source(self, source: ConfigSource) -> (l: Self)
        ensures
            l.sources@ == self.sources@.push(source),
            l.environment == self.environment,
            l.validate == self.validate,
    {
        let mut l = self;
        l.sources.push(source);
        l
    }

    /// Switches validation on or off.
    pub fn with_validation(self, validate: bool) -> (l: Self)
        ensures
            l.validate == validate,
            l.sources@ == self.sources@,
            l.environment == self.environment,
    {
        let mut l = self;
        l.validate = validate;
        l
    }

    /// Finishes loading as `load_from` does, stamped with the time of the UTC
    /// clock (0 before the Unix epoch).
    pub fn load(self, reads: Vec<SourceRead>) -> (r: Result<ConfigLoadResult, ConfigError>)
        requires
            reads@.len() == self.sources@.len(),
        ensures
            exists|t: u64| #[trigger] load_outcome(self.validate, reads@, t, r),
    {
        let now = utc_now_secs();
        let t: u64 = if now < 0 { 0 } else { now as u64 };
        let validate = self.validate;
        let r = self.load_from(reads, t);
        assert(load_outcome(validate, reads@, t, r));
        r
    }

    /// Finishes loading from what was read of each source (`reads[i]` for
    /// `sources[i]`): the first error stops loading and is returned; otherwise each
    /// file read replaces the configuration so far, starting from the defaults.
    /// With validation on, an invalid result is refused with `Validation`.
    pub fn load_from(self, reads: Vec<SourceRead>, load_time_secs: u64) -> (r: Result<ConfigLoadResult, ConfigError>)
        requires
            reads@.len() == self.sources@.len(),
        ensures
            load_outcome(self.validate, reads@, load_time_secs, r),
    {
        let mut config = SeeSeaConfig::default();
        let ghost all = reads@;
        let mut rest = reads;
        let mut i: usize = 0;
        assert(all.take(0) =~= Seq::<SourceRead>::empty());
        assert(all.skip(0) =~= all);
        let ghost n = rest.len();
        while rest.len() > 0
            invariant
                all.len() == n,
                n <= usize::MAX,
                i + rest@.len() == all.len(),
                all == reads@,
                rest@ == all.skip(i as int),
                first_error(all.take(i as int)) is None,
                loaded_config(all.take(i as int), config),
            decreases rest.len(),
        {
            let item = rest.remove(0);
            assert(all.take(i + 1).drop_last() =~= all.take(i as int));
            assert(item == all[i as int]);
            match item {
                Err(e) => {
                    proof {
                        assert(first_error(all.take(i + 1)) == Some(i as int));
                        lemma_first_error_prefix(all, i + 1);
                        assert(first_error(all) == Some(i as int));
                        assert(all[i as int]->Err_0 == e);
                    }
                    return Err(e);
                },
                Ok(Some(c)) => {
                    config = c;
                },
                Ok(None) => {},
            }
            i = i + 1;
            assert(rest@ =~= all.skip(i as int));
        }
        assert(all.take(i as int) =~= all);
        let validation = if self.validate { config.validate() } else { ConfigValidationResult::valid() };
        if !validation.is_valid {
            return Err(ConfigError::Validation(validation));
        }
        let warnings = validation.warnings.clone();
        let summary = ConfigSummary {
            config_path: owned("config"),
            environment: config.environment.variant_string(),
            enabled_engines: 0,
            total_engines: 0,
            enabled_proxies: 0,
            cache_enabled: true,
            validation,
        };
        let res = ConfigLoadResult {
            config,
            summary,
            load_time_secs,
            file_path: owned(""),
            used_defaults: false,
            warnings,
        };
        proof {
            assert(first_error(all) is None);
            assert(loaded_config(all, res.config));
            assert(self.validate ==> config_errors(&res.config).len() == 0);
            assert(strs(res.warnings@) == (if self.validate { config_warnings(&res.config) } else { Seq::empty() }));
            assert(res.summary.environment@ == res.config.environment.variant_name());
        }
        Ok(res)
    }
}

} // verus!
