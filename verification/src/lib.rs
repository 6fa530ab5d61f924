//! Verified core of an NFT event indexer for EVM chains: ERC-165 interface
//! detection, transfer-event decoding, the interface cache rows, and the
//! decisions that turn decoded events into database writes.

pub mod text;
pub mod config;
pub mod errors;
pub mod ethereum;
pub mod erc165;
pub mod events;
pub mod listener;
pub mod ethdto;
