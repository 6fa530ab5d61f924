//! Decoding of the NFT transfer events that the indexer listens for.

pub mod errors;
pub mod log;
pub mod transfer;
pub mod transfer_single;
pub mod transfer_batch;
