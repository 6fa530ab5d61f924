//! The ERC-721 transfer as the listener first read it: addresses as display text
//! and the amount from the log's data.

use vstd::prelude::*;
use vstd::arithmetic::power2::pow2;
use vstd::utf8::{valid_utf8, decode_utf8};
use crate::ethereum::{
    address_display, address_display_text, address_from_word, be_value, hash_display,
    hash_display_text, keccak256, string_from_utf8, u256_abi_decode, u256_as_u128,
};
use crate::events::errors::EventParsingError;
use crate::events::log::Log;
use crate::events::transfer::transfer_topic;

verus! {

/// A transfer: sender and receiver as (abbreviated) display text, and the amount.
#[derive(Debug)]
pub struct Transfer {
    pub from: String,
    pub to: String,
    pub value: i128,
}

/// Where `Transfer::try_from` gets past its two checks and reads the log's data.
pub open spec fn transfer_reads_data(log: &Log) -> bool {
    log.topics@.len() == 4 && hash_display_text(log.topics@[1]@) != decode_utf8(transfer_topic())
}

/// Where `Transfer::try_from` has an answer: the topic text must exist once the
/// topics are four, and the data read must hold a word below 2^128.
pub open spec fn transfer_answers(log: &Log) -> bool {
    &&& log.topics@.len() == 4 ==> valid_utf8(transfer_topic())
    &&& transfer_reads_data(log) ==> log.data@.len() >= 32 && be_value(log.data@.subrange(0, 32))
        < pow2(128)
}

/// What `Transfer::try_from` gives for a log: the topic count error, the topic error,
/// or the transfer read from topics 1 and 2 and the first data word (as `i128`).
pub open spec fn transfer_result(log: &Log, r: Result<Transfer, EventParsingError>) -> bool {
    &&& log.topics@.len() != 4 ==> (r matches Err(EventParsingError::IncorrectTopicsLength { got })
        && got == log.topics@.len())
    &&& log.topics@.len() == 4 && !transfer_reads_data(log) ==> (r matches Err(
        EventParsingError::IncorrectTopic { got, expected },
    ) && got@ == hash_display_text(log.topics@[1]@) && expected@ == decode_utf8(transfer_topic()))
    &&& transfer_reads_data(log) ==> (r matches Ok(t) && t.from@ == address_display_text(
        log.topics@[1]@.subrange(12, 32),
    ) && t.to@ == address_display_text(log.topics@[2]@.subrange(12, 32)) && t.value == (be_value(
        log.data@.subrange(0, 32),
    ) as u128) as i128)
}

impl Transfer {
    /// Reads a transfer from a log with four topics; a log whose first indexed topic
    /// displays like the topic text is refused.
    pub fn try_from(log: &Log) -> (r: Result<Self, EventParsingError>)
        requires
            transfer_answers(log),
        ensures
            transfer_result(log, r),
    {
        if log.topics.len() != 4 {
            return Err(EventParsingError::IncorrectTopicsLength { got: log.topics.len() });
        }
        let shown = hash_display(&log.topics[1]);
        if shown == Transfer::topic_str() {
            return Err(
                EventParsingError::IncorrectTopic {
                    got: hash_display(&log.topics[1]),
                    expected: Transfer::topic_str(),
                },
            );
        }
        let word = match u256_abi_decode(log.data.as_slice()) {
            Some(w) => w,
            None => {
                assert(false);
                [0u8; 32]
            },
        };
        let amount = u256_as_u128(&word);
        Ok(
            Transfer {
                from: address_display(&address_from_word(&log.topics[1])),
                to: address_display(&address_from_word(&log.topics[2])),
                value: amount as i128,
            },
        )
    }

    /// `try_from` where it has an answer, `None` where it has none.
    pub fn try_from_checked(log: &Log) -> (r: Option<Result<Self, EventParsingError>>)
        ensures
            r is Some <==> transfer_answers(log),
            r matches Some(res) ==> transfer_result(log, res),
    {
        if log.topics.len() == 4 {
            match Transfer::try_topic_str() {
                None => return None,
                Some(text) => {
                    let shown = hash_display(&log.topics[1]);
                    if shown != text {
                        match u256_abi_decode(log.data.as_slice()) {
                            None => return None,
                            Some(w) => {
                                if !crate::ethereum::word_below_2_128(&w) {
                                    return None;
                                }
                            },
                        }
                    }
                },
            }
        }
        Some(Transfer::try_from(log))
    }

    /// The event's topic (Keccak-256 of its signature).
    pub fn topic() -> (t: [u8; 32])
        ensures
            t@ == transfer_topic(),
    {
        keccak256("Transfer(address,address,uint256)".as_bytes())
    }

    /// The topic's bytes read as UTF-8 text, which the hash must happen to be.
    pub fn topic_str() -> (s: String)
        requires
            valid_utf8(transfer_topic()),
        ensures
            s@ == decode_utf8(transfer_topic()),
    {
        let t = Transfer::topic();
        match string_from_utf8(vstd::slice::slice_to_vec(&t)) {
            Some(s) => s,
            None => {
                assert(false);
                String::new()
            },
        }
    }

    /// The topic's bytes read as UTF-8 text (`topic_str`), or `None` where they are not
    /// UTF-8 and `topic_str` has no answer.
    pub fn try_topic_str() -> (r: Option<String>)
        ensures
            r is Some <==> valid_utf8(transfer_topic()),
            r matches Some(s) ==> s@ == decode_utf8(transfer_topic()),
    {
        let t = Transfer::topic();
        match string_from_utf8(vstd::slice::slice_to_vec(&t)) {
            Some(_) => Some(Transfer::topic_str()),
            None => None,
        }
    }
}

} // verus!
