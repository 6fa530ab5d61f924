//! The ERC-721 `Transfer(address,address,uint256)` event.

use vstd::prelude::*;
use vstd::utf8::encode_utf8;
use crate::ethereum::{
    address_from_word, hash_display, hash_display_text, keccak256, keccak256_of, u256_abi_decode,
    words_equal,
};
use super::errors::EventParsingError;
use super::log::Log;

verus! {

/// The ABI signature of the ERC-721 transfer event.
pub open spec fn transfer_signature() -> Seq<char> {
    "Transfer(address,address,uint256)"@
}

/// The event's topic: the Keccak-256 hash of its signature.
pub open spec fn transfer_topic() -> Seq<u8> {
    keccak256_of(encode_utf8(transfer_signature()))
}

/// A decoded ERC-721 transfer: sender, receiver and token id (big-endian).
#[derive(Debug)]
pub struct TransferEvent {
    pub from: [u8; 20],
    pub to: [u8; 20],
    pub value: [u8; 32],
}

impl TransferEvent {
    /// Reads a transfer from a log with four topics whose first topic is the event's
    /// own; a log of another event is refused with `IncorrectTopic`.
    pub fn try_from(log: &Log) -> (r: Result<Self, EventParsingError>)
        ensures
            log.topics@.len() != 4 ==> (r matches Err(
                EventParsingError::IncorrectTopicsLength { got },
            ) && got == log.topics@.len()),
            log.topics@.len() == 4 && log.topics@[0]@ != transfer_topic() ==> (r matches Err(
                EventParsingError::IncorrectTopic { got, expected },
            ) && got@ == hash_display_text(log.topics@[0]@) && expected@ == hash_display_text(
                transfer_topic(),
            )),
            log.topics@.len() == 4 && log.topics@[0]@ == transfer_topic() ==> (r matches Ok(e)
                && e.from@ == log.topics@[1]@.subrange(12, 32) && e.to@ == log.topics@[2]@.subrange(
                12,
                32,
            ) && e.value@ == log.topics@[3]@),
    {
        if log.topics.len() != 4 {
            return Err(EventParsingError::IncorrectTopicsLength { got: log.topics.len() });
        }
        let topic = TransferEvent::topic_h256();
        if !words_equal(&log.topics[0], &topic) {
            return Err(
                EventParsingError::IncorrectTopic {
                    got: hash_display(&log.topics[0]),
                    expected: TransferEvent::topic_str(),
                },
            );
        }
        let value = match u256_abi_decode(&log.topics[3]) {
            Some(v) => v,
            None => {
                assert(false);
                log.topics[3]
            },
        };
        assert(log.topics@[3]@.subrange(0, 32) =~= log.topics@[3]@);
        Ok(
            TransferEvent {
                from: address_from_word(&log.topics[1]),
                to: address_from_word(&log.topics[2]),
                value,
            },
        )
    }

    /// The event's topic (Keccak-256 of its signature).
    pub fn topic() -> (t: [u8; 32])
        ensures
            t@ == transfer_topic(),
    {
        keccak256("Transfer(address,address,uint256)".as_bytes())
    }

    /// The event's topic, as a hash.
    pub fn topic_h256() -> (t: [u8; 32])
        ensures
            t@ == transfer_topic(),
    {
        keccak256("Transfer(address,address,uint256)".as_bytes())
    }

    /// The event's topic as the (abbreviating) `Display` of a hash renders it.
    pub fn topic_str() -> (s: String)
        ensures
            s@ == hash_display_text(transfer_topic()),
    {
        let t = keccak256("Transfer(address,address,uint256)".as_bytes());
        hash_display(&t)
    }
}

} // verus!
