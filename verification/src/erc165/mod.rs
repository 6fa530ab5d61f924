//! ERC-165 interface detection: which NFT standards a contract reports.

pub mod erc165_interfaces;
pub mod errors;
pub mod model;
pub mod service;
pub mod network_service;
pub mod cache_service;
