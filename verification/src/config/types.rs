//! The environment the application runs in, its metadata and the formats of
//! settings files.
use vstd::prelude::*;
use crate::text::owned;
use crate::clock::utc_now_secs;

verus! {

/// The environment the application runs in.
#[derive(Debug, Clone, Copy, PartialEq, Eq, Hash, Structural)]
pub enum Environment {
    /// Development.
    Development,
    /// Testing.
    Testing,
    /// Staging.
    Staging,
    /// Production.
    Production,
}

impl Environment {
    /// The lower-case name of the environment.
    pub open spec fn name(self) -> Seq<char> {
        match self {
            Environment::Development => "development"@,
            Environment::Testing => "testing"@,
            Environment::Staging => "staging"@,
            Environment::Production => "production"@,
        }
    }

    /// The variant's name as written in the source (`Development`, ...).
    pub open spec fn variant_name(self) -> Seq<char> {
        match self {
            Environment::Development => "Development"@,
            Environment::Testing => "Testing"@,
            Environment::Staging => "Staging"@,
            Environment::Production => "Production"@,
        }
    }

    /// The lower-case name of the environment.
    pub fn to_string(&self) -> (s: String)
        ensures
            s@ == self.name(),
    {
        match self {
            Environment::Development => owned("development"),
            Environment::Testing => owned("testing"),
            Environment::Staging => owned("staging"),
            Environment::Production => owned("production"),
        }
    }

    /// The variant's name as written in the source.
    pub fn variant_string(&self) -> (s: String)
        ensures
            s@ == self.variant_name(),
    {
        match self {
            Environment::Development => owned("Development"),
            Environment::Testing => owned("Testing"),
            Environment::Staging => owned("Staging"),
            Environment::Production => owned("Production"),
        }
    }
}

impl Default for Environment {
    fn default() -> (e: Self)
        ensures
            e == Environment::Development,
    {
        Environment::Development
    }
}

/// Metadata of the application.
#[derive(Debug, Clone)]
pub struct ApplicationMeta {
    /// Name.
    pub name: String,
    /// Version.
    pub version: String,
    /// Description.
    pub description: String,
    /// Author.
    pub author: String,
    /// Home page.
    pub homepage: Option<String>,
    /// Licence.
    pub license: Option<String>,
    /// Repository.
    pub repository: Option<String>,
}

impl Default for ApplicationMeta {
    fn default() -> (m: Self)
        ensures
            m.name@ == "SeeSea"@,
            m.version@ == "0.1.0"@,
            m.description@ == "隐私保护的 Rust 元搜索引擎"@,
            m.author@ == "SeeSea Team"@,
            m.homepage matches Some(h) && h@ == "https://seesea.example.com"@,
            m.license matches Some(l) && l@ == "MIT"@,
            m.repository matches Some(r) && r@ == "https://github.com/seesea/seesea"@,
    {
        ApplicationMeta {
            name: owned("SeeSea"),
            version: owned("0.1.0"),
            description: owned("隐私保护的 Rust 元搜索引擎"),
            author: owned("SeeSea Team"),
            homepage: Some(owned("https://seesea.example.com")),
            license: Some(owned("MIT")),
            repository: Some(owned("https://github.com/seesea/seesea")),
        }
    }
}

/// The format of a settings file.
#[derive(Debug, Clone, Copy, PartialEq, Eq, Hash, Structural)]
pub enum ConfigFormat {
    /// TOML.
    Toml,
    /// JSON.
    Json,
    /// YAML.
    Yaml,
}

impl Default for ConfigFormat {
    fn default() -> (f: Self)
        ensures
            f == ConfigFormat::Toml,
    {
        ConfigFormat::Toml
    }
}

/// Metadata of a settings file. Times are seconds since the Unix epoch.
#[derive(Debug, Clone)]
pub struct ConfigMetadata {
    /// Version of the settings.
    pub version: String,
    /// When they were created.
    pub created_at_secs: Option<i64>,
    /// When they were last changed.
    pub updated_at_secs: Option<i64>,
    /// Format of the file.
    pub format: ConfigFormat,
    /// Notes.
    pub notes: Option<String>,
}

impl Default for ConfigMetadata {
    /// Version 1.0 in TOML without notes, created and changed now.
    fn default() -> (m: Self)
        ensures
            m.version@ == "1.0"@,
            m.created_at_secs is Some,
            m.updated_at_secs is Some,
            m.format == ConfigFormat::Toml,
            m.notes is None,
    {
        ConfigMetadata {
            version: owned("1.0"),
            created_at_secs: Some(utc_now_secs()),
            updated_at_secs: Some(utc_now_secs()),
            format: ConfigFormat::Toml,
            notes: None,
        }
    }
}

} // verus!
