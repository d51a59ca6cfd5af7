use crate::errors::{ErrorView, PluginError};
use vstd::prelude::*;
use vstd::string::StringExecFns;

verus! {

/// Name of the setting that holds the API base address.
pub const API_BASE_VARIABLE: &'static str = "API_BASE";

/// Name of the setting that holds the plugin root directory.
pub const PLUGIN_PATH_VARIABLE: &'static str = "PLUGIN_BASE_PATH";

/// The two values the host needs before it can discover plugins.
#[derive(Debug, PartialEq, Eq)]
pub struct Config {
    pub api_base: String,
    pub plugin_path: String,
}

impl Config {
    /// Builds the configuration from the two settings as they were found.
    ///
    /// Both are required. A missing API base is reported before a missing
    /// plugin root.
    pub fn new(api_base: Option<String>, plugin_path: Option<String>) -> (config: Result<
        Config,
        PluginError,
    >)
        ensures
            match (api_base, plugin_path) {
                (Some(base), Some(path)) => config == Ok::<Config, PluginError>(
                    Config { api_base: base, plugin_path: path },
                ),
                (None, _) => config is Err && config->Err_0@ == (ErrorView::ConfigMissing {
                    variable: API_BASE_VARIABLE@,
                }),
                (Some(_), None) => config is Err && config->Err_0@ == (ErrorView::ConfigMissing {
                    variable: PLUGIN_PATH_VARIABLE@,
                }),
            },
    {
        match api_base {
            None => Err(PluginError::ConfigMissing { variable: String::from_str(API_BASE_VARIABLE) }),
            Some(base) => match plugin_path {
                None => Err(
                    PluginError::ConfigMissing { variable: String::from_str(PLUGIN_PATH_VARIABLE) },
                ),
                Some(path) => Ok(Config { api_base: base, plugin_path: path }),
            },
        }
    }
}

} // verus!
