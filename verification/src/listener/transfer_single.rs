//! The transfer read straight from a log's topics and data, without checks.

use vstd::prelude::*;
use vstd::arithmetic::power2::pow2;
use crate::ethereum::{
    address_display, address_display_text, address_from_word, be_value, keccak256,
    u256_abi_decode, u256_as_u128,
};
use crate::events::log::Log;
use crate::events::transfer::transfer_topic;

verus! {

/// A transfer: sender and receiver as (abbreviated) display text, and the amount.
#[derive(Debug)]
pub struct Transfer {
    pub from: String,
    pub to: String,
    pub value: i128,
}

impl Transfer {
    /// Reads topics 1 and 2 as the addresses and the first data word as the amount.
    pub fn from(log: &Log) -> (t: Self)
        requires
            log.topics@.len() >= 3,
            log.data@.len() >= 32,
            be_value(log.data@.subrange(0, 32)) < pow2(128),
        ensures
            t.from@ == address_display_text(log.topics@[1]@.subrange(12, 32)),
            t.to@ == address_display_text(log.topics@[2]@.subrange(12, 32)),
            t.value == (be_value(log.data@.subrange(0, 32)) as u128) as i128,
    {
        let word = match u256_abi_decode(log.data.as_slice()) {
            Some(w) => w,
            None => {
                assert(false);
                [0u8; 32]
            },
        };
        let amount = u256_as_u128(&word);
        Transfer {
            from: address_display(&address_from_word(&log.topics[1])),
            to: address_display(&address_from_word(&log.topics[2])),
            value: amount as i128,
        }
    }

    /// The ERC-721 transfer topic (Keccak-256 of its signature).
    pub fn topic() -> (t: [u8; 32])
        ensures
            t@ == transfer_topic(),
    {
        keccak256("Transfer(address,address,uint256)".as_bytes())
    }
}

} // verus!
