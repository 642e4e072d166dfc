//! General settings of an instance.
use vstd::prelude::*;
use crate::config::common::EngineLoadingMode;
use crate::config::types::Environment;
use crate::text::owned;

verus! {

impl Default for EngineLoadingMode {
    fn default() -> (m: Self)
        ensures
            m == EngineLoadingMode::Settings,
    {
        EngineLoadingMode::Settings
    }
}

/// General settings of an instance.
#[derive(Debug, Clone)]
pub struct GeneralConfig {
    /// Name of the instance.
    pub instance_name: String,
    /// Whether debugging is on.
    pub debug: bool,
    /// Directory of the settings files.
    pub config_directory: String,
    /// Directory of the data.
    pub data_directory: String,
    /// Directory of temporary files; `None` stands for the `seesea` directory
    /// under the system's temporary directory, which the caller resolves.
    pub temp_directory: Option<String>,
    /// Environment.
    pub environment: Environment,
    /// Where the list of engines comes from.
    pub engine_loading_mode: EngineLoadingMode,
    /// Whether metrics are collected.
    pub enable_metrics: bool,
}

/// What `GeneralConfig::default` gives.
pub open spec fn is_default_general(c: GeneralConfig) -> bool {
    &&& c.instance_name@ == "SeeSea"@
    &&& !c.debug
    &&& c.config_directory@ == "config"@
    &&& c.data_directory@ == "data"@
    &&& c.temp_directory is None
    &&& c.environment == Environment::Development
    &&& c.engine_loading_mode == EngineLoadingMode::Settings
    &&& !c.enable_metrics
}

impl Default for GeneralConfig {
    fn default() -> (c: Self)
        ensures
            is_default_general(c),
    {
        GeneralConfig {
            instance_name: owned("SeeSea"),
            debug: false,
            config_directory: owned("config"),
            data_directory: owned("data"),
            temp_directory: None,
            environment: Environment::default(),
            engine_loading_mode: EngineLoadingMode::default(),
            enable_metrics: false,
        }
    }
}

} // verus!
