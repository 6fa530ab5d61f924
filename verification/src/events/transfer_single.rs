//! The ERC-1155 `TransferSingle` event.

use vstd::prelude::*;
use vstd::utf8::{encode_utf8, valid_utf8, decode_utf8};
use crate::ethereum::{keccak256, keccak256_of, string_from_utf8, u256_pair_abi_decode};
use super::errors::EventParsingError;
use super::log::{Log, has_three_indexed_topics, indexed_addresses};

verus! {

/// The ABI signature of the ERC-1155 single transfer event.
pub open spec fn transfer_single_signature() -> Seq<char> {
    "TransferSingle(address,address,address,uint256,uint256)"@
}

/// The event's topic: the Keccak-256 hash of its signature.
pub open spec fn transfer_single_topic() -> Seq<u8> {
    keccak256_of(encode_utf8(transfer_single_signature()))
}

/// Whether a log decodes as a `TransferSingle` event: the topic layout of the event
/// and at least two data words (id and value).
pub open spec fn decodes_as_transfer_single(log: &Log) -> bool {
    has_three_indexed_topics(log, transfer_single_topic()) && log.data@.len() >= 64
}

/// A decoded ERC-1155 single transfer.
#[derive(Debug)]
pub struct TransferSingleEvent {
    pub operator: [u8; 20],
    pub from: [u8; 20],
    pub to: [u8; 20],
    pub id: [u8; 32],
    pub value: [u8; 32],
}

impl TransferSingleEvent {
    /// Decodes a log as the event; every failure is `FailedEventDecoding`.
    pub fn try_from(log: &Log) -> (r: Result<Self, EventParsingError>)
        ensures
            r is Ok <==> decodes_as_transfer_single(log),
            r matches Err(e) ==> e is FailedEventDecoding,
            r matches Ok(e) ==> {
                &&& e.operator@ == log.topics@[1]@.subrange(12, 32)
                &&& e.from@ == log.topics@[2]@.subrange(12, 32)
                &&& e.to@ == log.topics@[3]@.subrange(12, 32)
                &&& e.id@ == log.data@.subrange(0, 32)
                &&& e.value@ == log.data@.subrange(32, 64)
            },
    {
        let topic = TransferSingleEvent::topic();
        let addresses = indexed_addresses(log, &topic);
        let words = u256_pair_abi_decode(log.data.as_slice());
        match (addresses, words) {
            (Some((operator, from, to)), Some((id, value))) => Ok(
                TransferSingleEvent { operator, from, to, id, value },
            ),
            _ => Err(EventParsingError::FailedEventDecoding),
        }
    }

    /// The event's topic (Keccak-256 of its signature).
    pub fn topic() -> (t: [u8; 32])
        ensures
            t@ == transfer_single_topic(),
    {
        keccak256("TransferSingle(address,address,address,uint256,uint256)".as_bytes())
    }

    /// The event's topic, as a hash.
    pub fn topic_h256() -> (t: [u8; 32])
        ensures
            t@ == transfer_single_topic(),
    {
        keccak256("TransferSingle(address,address,address,uint256,uint256)".as_bytes())
    }

    /// The topic's bytes read as UTF-8 text, which the hash must happen to be.
    pub fn topic_str() -> (s: String)
        requires
            valid_utf8(transfer_single_topic()),
        ensures
            s@ == decode_utf8(transfer_single_topic()),
    {
        let t = TransferSingleEvent::topic();
        match string_from_utf8(vstd::slice::slice_to_vec(&t)) {
            Some(s) => s,
            None => {
                assert(false);
                String::new()
            },
        }
    }

    /// The topic's bytes read as UTF-8 text (`topic_str`), or `None` where they are not
    /// UTF-8 and `topic_str` has no answer.
    pub fn try_topic_str() -> (r: Option<String>)
        ensures
            r is Some <==> valid_utf8(transfer_single_topic()),
            r matches Some(s) ==> s@ == decode_utf8(transfer_single_topic()),
    {
        let t = TransferSingleEvent::topic();
        match string_from_utf8(vstd::slice::slice_to_vec(&t)) {
            Some(_) => Some(TransferSingleEvent::topic_str()),
            None => None,
        }
    }
}

} // verus!
