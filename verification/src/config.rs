//! The application's configuration: where to serve, which database, which chains.

use vstd::prelude::*;
use vstd::string::*;

verus! {

/// A chain to listen on.
#[derive(Debug, Clone)]
pub struct Chain {
    pub rpc: String,
    pub name: String,
    pub chain_id: i64,
}

/// The application's configuration.
#[derive(Debug, Clone)]
pub struct AppConfig {
    pub host: [u8; 4],
    pub port: u16,
    pub db: String,
    pub chains: Vec<Chain>,
}

/// Why the configuration could not be set up.
#[derive(Debug, Clone, Copy, PartialEq, Eq, Structural)]
pub enum AppConfigError {
    BuildConfigFromFile,
    DeserializeConfigIntoStruct,
    FailedToCreateDB,
}

impl AppConfigError {
    /// The human-readable message of each error.
    pub open spec fn message_text(self) -> Seq<char> {
        match self {
            AppConfigError::BuildConfigFromFile => "Failed to build config from file"@,
            AppConfigError::DeserializeConfigIntoStruct => "Failed to deserialize config into struct"@,
            AppConfigError::FailedToCreateDB => "Failed to create Database pool"@,
        }
    }

    /// The human-readable message of this error.
    pub fn message(&self) -> (s: String)
        ensures
            s@ == self.message_text(),
    {
        match self {
            AppConfigError::BuildConfigFromFile => String::from_str("Failed to build config from file"),
            AppConfigError::DeserializeConfigIntoStruct => String::from_str(
                "Failed to deserialize config into struct",
            ),
            AppConfigError::FailedToCreateDB => String::from_str("Failed to create Database pool"),
        }
    }
}

} // verus!
