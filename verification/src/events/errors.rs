//! Why an event log could not be read as a transfer.

use vstd::prelude::*;
use vstd::string::*;
use crate::ethereum::{debug_text, debug_text_of};
use crate::text::{decimal_text, u64_decimal};

verus! {

/// Why an event log could not be read as a transfer.
#[derive(Debug)]
#[allow(inconsistent_fields)]
pub enum EventParsingError {
    IncorrectTopicsLength { got: usize },
    IncorrectTopic { got: String, expected: String },
    FailedEventDecoding,
}

impl EventParsingError {
    /// The human-readable message of each error.
    pub open spec fn message_text(&self) -> Seq<char> {
        match self {
            EventParsingError::IncorrectTopicsLength { got } => "The no of topics was incorrect. Got: "@
                + decimal_text(*got as nat) + " Topics"@,
            EventParsingError::IncorrectTopic { got, expected } => "The topics was incorrect. Got: "@
                + debug_text_of(got@) + " Expected: "@ + debug_text_of(expected@),
            EventParsingError::FailedEventDecoding => "Event decoding Failed"@,
        }
    }

    /// The human-readable message of this error.
    pub fn message(&self) -> (s: String)
        ensures
            s@ == self.message_text(),
    {
        match self {
            EventParsingError::IncorrectTopicsLength { got } => {
                let mut s = String::from_str("The no of topics was incorrect. Got: ");
                s.append(u64_decimal(*got as u64).as_str());
                s.append(" Topics");
                s
            },
            EventParsingError::IncorrectTopic { got, expected } => {
                let mut s = String::from_str("The topics was incorrect. Got: ");
                s.append(debug_text(got.as_str()).as_str());
                s.append(" Expected: ");
                s.append(debug_text(expected.as_str()).as_str());
                s
            },
            EventParsingError::FailedEventDecoding => String::from_str("Event decoding Failed"),
        }
    }
}

} // verus!
