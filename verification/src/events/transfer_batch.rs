//! The ERC-1155 `TransferBatch` event.

use vstd::prelude::*;
use vstd::utf8::{encode_utf8, valid_utf8, decode_utf8};
use vstd::arithmetic::power2::pow2;
use crate::ethereum::{
    abi_encode_uint_array_pair, abi_uint_array_pair, keccak256, lemma_abi_pair_decoding_inverts_encoding, keccak256_of, string_from_utf8, u256_array_pair_abi_decode,
    words_view,
};
use super::errors::EventParsingError;
use super::log::{Log, has_three_indexed_topics, indexed_addresses};

verus! {

/// The ABI signature of the ERC-1155 batch transfer event.
pub open spec fn transfer_batch_signature() -> Seq<char> {
    "TransferBatch(address,address,address,uint256[],uint256[])"@
}

/// The event's topic: the Keccak-256 hash of its signature.
pub open spec fn transfer_batch_topic() -> Seq<u8> {
    keccak256_of(encode_utf8(transfer_batch_signature()))
}

/// Whether a log decodes as a `TransferBatch` event: the topic layout of the event
/// and data holding two `uint256[]` (ids and values).
pub open spec fn decodes_as_transfer_batch(log: &Log) -> bool {
    has_three_indexed_topics(log, transfer_batch_topic()) && abi_uint_array_pair(log.data@) is Some
}

/// A decoded ERC-1155 batch transfer: token ids and the amount of each.
#[derive(Debug)]
pub struct TransferBatchEvent {
    pub operator: [u8; 20],
    pub from: [u8; 20],
    pub to: [u8; 20],
    pub id: Vec<[u8; 32]>,
    pub value: Vec<[u8; 32]>,
}

impl TransferBatchEvent {
    /// Decodes a log as the event; every failure is `FailedEventDecoding`.
    pub fn try_from(log: &Log) -> (r: Result<Self, EventParsingError>)
        ensures
            r is Ok <==> decodes_as_transfer_batch(log),
            r matches Err(e) ==> e is FailedEventDecoding,
            r matches Ok(e) ==> {
                &&& e.operator@ == log.topics@[1]@.subrange(12, 32)
                &&& e.from@ == log.topics@[2]@.subrange(12, 32)
                &&& e.to@ == log.topics@[3]@.subrange(12, 32)
                &&& abi_uint_array_pair(log.data@) == Some((words_view(e.id@), words_view(e.value@)))
            },
    {
        let topic = TransferBatchEvent::topic();
        let addresses = indexed_addresses(log, &topic);
        let arrays = u256_array_pair_abi_decode(log.data.as_slice());
        match (addresses, arrays) {
            (Some((operator, from, to)), Some((id, value))) => Ok(
                TransferBatchEvent { operator, from, to, id, value },
            ),
            _ => Err(EventParsingError::FailedEventDecoding),
        }
    }

    /// The event's topic (Keccak-256 of its signature).
    pub fn topic() -> (t: [u8; 32])
        ensures
            t@ == transfer_batch_topic(),
    {
        keccak256("TransferBatch(address,address,address,uint256[],uint256[])".as_bytes())
    }

    /// The event's topic, as a hash.
    pub fn topic_h256() -> (t: [u8; 32])
        ensures
            t@ == transfer_batch_topic(),
    {
        keccak256("TransferBatch(address,address,address,uint256[],uint256[])".as_bytes())
    }

    /// The topic's bytes read as UTF-8 text, which the hash must happen to be.
    pub fn topic_str() -> (s: String)
        requires
            valid_utf8(transfer_batch_topic()),
        ensures
            s@ == decode_utf8(transfer_batch_topic()),
    {
        let t = TransferBatchEvent::topic();
        match string_from_utf8(vstd::slice::slice_to_vec(&t)) {
            Some(s) => s,
            None => {
                assert(false);
                String::new()
            },
        }
    }

    /// The topic's bytes read as UTF-8 text (`topic_str`), or `None` where they are not
    /// UTF-8 and `topic_str` has no answer.
    pub fn try_topic_str() -> (r: Option<String>)
        ensures
            r is Some <==> valid_utf8(transfer_batch_topic()),
            r matches Some(s) ==> s@ == decode_utf8(transfer_batch_topic()),
    {
        let t = TransferBatchEvent::topic();
        match string_from_utf8(vstd::slice::slice_to_vec(&t)) {
            Some(_) => Some(TransferBatchEvent::topic_str()),
            None => None,
        }
    }
}

/// A batch log whose data is the standard ABI encoding of two arrays of words decodes
/// as the event, giving back exactly those arrays as ids and amounts (so
/// `TransferBatchEvent::try_from` reads them), wherever the encoding's offsets and
/// lengths fit in 32 bits.
pub proof fn lemma_batch_log_decodes_its_encoding(
    log: &Log,
    ids: Seq<Seq<u8>>,
    values: Seq<Seq<u8>>,
)
    requires
        has_three_indexed_topics(log, transfer_batch_topic()),
        log.data@ == abi_encode_uint_array_pair(ids, values),
        forall|k: int| 0 <= k < ids.len() ==> (#[trigger] ids[k]).len() == 32,
        forall|k: int| 0 <= k < values.len() ==> (#[trigger] values[k]).len() == 32,
        96 + 32 * ids.len() < pow2(32),
        values.len() < pow2(32),
    ensures
        decodes_as_transfer_batch(log),
        abi_uint_array_pair(log.data@) == Some((ids, values)),
{
    lemma_abi_pair_decoding_inverts_encoding(ids, values);
}

} // verus!
