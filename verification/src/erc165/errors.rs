//! Failures of interface detection.

use vstd::prelude::*;
use vstd::string::*;

verus! {

/// Why interface detection failed.
#[derive(Debug, Clone, Copy, PartialEq, Eq, Structural)]
pub enum Erc165ServiceErrors {
    FailedToQueryChain,
    FailedToQueryDB,
}

impl Erc165ServiceErrors {
    /// The human-readable message of each error (both read the same).
    pub open spec fn message_text(self) -> Seq<char> {
        match self {
            Erc165ServiceErrors::FailedToQueryChain => "Failed to query the chain for the data"@,
            Erc165ServiceErrors::FailedToQueryDB => "Failed to query the chain for the data"@,
        }
    }

    /// The human-readable message of this error.
    pub fn message(&self) -> (s: String)
        ensures
            s@ == self.message_text(),
    {
        match self {
            Erc165ServiceErrors::FailedToQueryChain => String::from_str(
                "Failed to query the chain for the data",
            ),
            Erc165ServiceErrors::FailedToQueryDB => String::from_str(
                "Failed to query the chain for the data",
            ),
        }
    }
}

} // verus!
