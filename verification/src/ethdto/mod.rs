//! NFT ownership records and the writes that keep them current.

pub mod dto;
pub mod errors;
pub mod repo;
