//! Failures of a chain listener.

use vstd::prelude::*;
use vstd::string::*;

verus! {

/// Why a chain listener failed.
#[derive(Debug, Clone, Copy, PartialEq, Eq, Structural)]
pub enum ListenerError {
    Erc165ResError,
    ProviderError,
}

impl ListenerError {
    /// The human-readable message of each error.
    pub open spec fn message_text(self) -> Seq<char> {
        match self {
            ListenerError::Erc165ResError => "Listener error"@,
            ListenerError::ProviderError => "Provider error"@,
        }
    }

    /// The human-readable message of this error.
    pub fn message(&self) -> (s: String)
        ensures
            s@ == self.message_text(),
    {
        match self {
            ListenerError::Erc165ResError => String::from_str("Listener error"),
            ListenerError::ProviderError => String::from_str("Provider error"),
        }
    }
}

} // verus!
