//! How the application reaches the model: through the API with a key, or
//! through a local command-line agent.

use crate::text::{string_of, to_chars};
use vstd::prelude::*;

verus! {

/// The way the model is reached.
#[derive(Clone, Copy, Debug, PartialEq, Eq, Structural)]
pub enum AuthMode {
    /// Direct API access; needs an API key.
    Api,
    /// A local command-line agent.
    Cli,
}

impl Default for AuthMode {
    fn default() -> (r: Self)
        ensures
            r == AuthMode::Api,
    {
        AuthMode::Api
    }
}

/// The access settings.
#[derive(Debug)]
pub struct AuthConfig {
    pub mode: AuthMode,
    pub api_key: Option<String>,
    pub api_base: Option<String>,
    pub cli_path: Option<String>,
}

impl Default for AuthConfig {
    fn default() -> (r: Self)
        ensures
            r.mode == AuthMode::Api,
            r.api_key is None,
            r.api_base is None,
            r.cli_path is None,
    {
        AuthConfig { mode: AuthMode::Api, api_key: None, api_base: None, cli_path: None }
    }
}

/// The API base that is used where none is configured.
pub open spec fn default_api_base() -> Seq<char> {
    "https://api.moonshot.cn/v1"@
}

impl AuthConfig {
    /// What [`AuthConfig::is_configured`] returns.
    pub open spec fn configured(&self) -> bool {
        match self.mode {
            AuthMode::Api => self.api_key matches Some(k) && k@.len() > 0,
            AuthMode::Cli => true,
        }
    }

    /// What [`AuthConfig::effective_api_base`] returns.
    pub open spec fn api_base_spec(&self) -> Seq<char> {
        match self.api_base {
            Some(b) => if b@.len() > 0 {
                b@
            } else {
                default_api_base()
            },
            None => default_api_base(),
        }
    }

    /// Whether the settings suffice to reach the model: API mode needs a
    /// key that is not empty; whether a command-line agent is there is found
    /// out when it is run.
    pub fn is_configured(&self) -> (r: bool)
        ensures
            r == self.configured(),
    {
        match self.mode {
            AuthMode::Api => match &self.api_key {
                Some(k) => k.as_str().unicode_len() > 0,
                None => false,
            },
            AuthMode::Cli => true,
        }
    }

    /// The API base to use: the configured one unless it is missing or
    /// empty.
    pub fn effective_api_base(&self) -> (r: String)
        ensures
            r@ == self.api_base_spec(),
    {
        match &self.api_base {
            Some(b) => {
                if b.as_str().unicode_len() > 0 {
                    b.clone()
                } else {
                    string_of(&to_chars("https://api.moonshot.cn/v1"))
                }
            },
            None => string_of(&to_chars("https://api.moonshot.cn/v1")),
        }
    }
}

} // verus!
