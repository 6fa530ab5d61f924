//! An event log as the chain reports it.

use vstd::prelude::*;
use crate::ethereum::{address_from_word, words_equal};

verus! {

/// An emitted event: the emitting contract, the indexed topics, and the
/// ABI-encoded non-indexed data.
#[derive(Debug)]
pub struct Log {
    pub address: [u8; 20],
    pub topics: Vec<[u8; 32]>,
    pub data: Vec<u8>,
}

/// The bytes of each topic of a log.
pub open spec fn topic_views(log: &Log) -> Seq<Seq<u8>> {
    crate::ethereum::words_view(log.topics@)
}

/// The topic layout of a non-anonymous event with three indexed addresses, as the
/// `EthEvent` decoder reads it: exactly four topics, the first being the event's
/// signature topic.
pub open spec fn has_three_indexed_topics(log: &Log, signature_topic: Seq<u8>) -> bool {
    log.topics@.len() == 4 && log.topics@[0]@ == signature_topic
}

/// The three indexed addresses of such a log: the last 20 bytes of topics 1 to 3.
pub fn indexed_addresses(log: &Log, signature_topic: &[u8; 32]) -> (r: Option<
    ([u8; 20], [u8; 20], [u8; 20]),
>)
    ensures
        r is Some <==> has_three_indexed_topics(log, signature_topic@),
        r matches Some(a) ==> {
            &&& a.0@ == log.topics@[1]@.subrange(12, 32)
            &&& a.1@ == log.topics@[2]@.subrange(12, 32)
            &&& a.2@ == log.topics@[3]@.subrange(12, 32)
        },
{
    if log.topics.len() != 4 {
        return None;
    }
    if !words_equal(&log.topics[0], signature_topic) {
        return None;
    }
    Some(
        (
            address_from_word(&log.topics[1]),
            address_from_word(&log.topics[2]),
            address_from_word(&log.topics[3]),
        ),
    )
}

} // verus!
