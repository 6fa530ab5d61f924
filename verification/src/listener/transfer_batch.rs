//! The ERC-1155 batch transfer as the listener reads it.

use vstd::prelude::*;
use vstd::utf8::{valid_utf8, decode_utf8};
use crate::ethereum::{abi_uint_array_pair, words_view};
use crate::events::errors::EventParsingError;
use crate::events::log::Log;
use crate::events::transfer_batch::{decodes_as_transfer_batch, transfer_batch_topic};

verus! {

/// A decoded ERC-1155 batch transfer: token ids and the amount of each.
#[derive(Debug)]
pub struct TransferBatchEvent {
    pub operator: [u8; 20],
    pub from: [u8; 20],
    pub to: [u8; 20],
    pub id: Vec<[u8; 32]>,
    pub value: Vec<[u8; 32]>,
}

impl TransferBatchEvent {
    /// Decodes a log as the event; every failure is `FailedEventDecoding`.
    pub fn try_from(log: &Log) -> (r: Result<Self, EventParsingError>)
        ensures
            r is Ok <==> decodes_as_transfer_batch(log),
            r matches Err(e) ==> e is FailedEventDecoding,
            r matches Ok(e) ==> {
                &&& e.operator@ == log.topics@[1]@.subrange(12, 32)
                &&& e.from@ == log.topics@[2]@.subrange(12, 32)
                &&& e.to@ == log.topics@[3]@.subrange(12, 32)
                &&& abi_uint_array_pair(log.data@) == Some((words_view(e.id@), words_view(e.value@)))
            },
    {
        match crate::events::transfer_batch::TransferBatchEvent::try_from(log) {
            Ok(e) => Ok(
                TransferBatchEvent {
                    operator: e.operator,
                    from: e.from,
                    to: e.to,
                    id: e.id,
                    value: e.value,
                },
            ),
            Err(_) => Err(EventParsingError::FailedEventDecoding),
        }
    }

    /// The event's topic (Keccak-256 of its signature).
    pub fn topic() -> (t: [u8; 32])
        ensures
            t@ == transfer_batch_topic(),
    {
        crate::events::transfer_batch::TransferBatchEvent::topic()
    }

    /// The event's topic, as a hash.
    pub fn topic_h256() -> (t: [u8; 32])
        ensures
            t@ == transfer_batch_topic(),
    {
        crate::events::transfer_batch::TransferBatchEvent::topic_h256()
    }

    /// The topic's bytes read as UTF-8 text, which the hash must happen to be.
    pub fn topic_str() -> (s: String)
        requires
            valid_utf8(transfer_batch_topic()),
        ensures
            s@ == decode_utf8(transfer_batch_topic()),
    {
        crate::events::transfer_batch::TransferBatchEvent::topic_str()
    }

    /// The topic's bytes read as UTF-8 text (`topic_str`), or `None` where they are not
    /// UTF-8 and `topic_str` has no answer.
    pub fn try_topic_str() -> (r: Option<String>)
        ensures
            r is Some <==> valid_utf8(transfer_batch_topic()),
            r matches Some(s) ==> s@ == decode_utf8(transfer_batch_topic()),
    {
        match crate::events::transfer_batch::TransferBatchEvent::try_topic_str() {
            Some(_) => Some(TransferBatchEvent::topic_str()),
            None => None,
        }
    }
}

} // verus!
