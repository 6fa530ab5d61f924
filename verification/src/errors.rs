//! Failures of the application as a whole.

use vstd::prelude::*;
use vstd::string::*;
use crate::text::{i64_decimal, signed_decimal_text};

verus! {

/// Why the application stopped.
#[derive(Debug, Clone, Copy, PartialEq, Eq, Structural)]
pub enum FormulaErrors {
    ConfigError,
    ListenerError(i64),
}

impl FormulaErrors {
    /// The human-readable message of each error.
    pub open spec fn message_text(self) -> Seq<char> {
        match self {
            FormulaErrors::ConfigError => "Encountered an error while configuring the application"@,
            FormulaErrors::ListenerError(cid) => "Encountered an error while setting up the listener for chain id "@
                + signed_decimal_text(cid as int),
        }
    }

    /// The human-readable message of this error.
    pub fn message(&self) -> (s: String)
        ensures
            s@ == self.message_text(),
    {
        match self {
            FormulaErrors::ConfigError => String::from_str(
                "Encountered an error while configuring the application",
            ),
            FormulaErrors::ListenerError(cid) => {
                let mut s = String::from_str(
                    "Encountered an error while setting up the listener for chain id ",
                );
                s.append(i64_decimal(*cid).as_str());
                s
            },
        }
    }
}

} // verus!
