//! The identity of one NFT whose owner changed.

use vstd::prelude::*;

verus! {

/// A token of a contract on a chain, and its (new) owner.
#[derive(Debug, Clone)]
pub struct EthNftId {
    pub contract: String,
    pub token_id: String,
    pub owner: String,
    pub chain_id: i64,
}

/// The mathematical counterpart of [`EthNftId`].
pub struct EthNftIdView {
    pub contract: Seq<char>,
    pub token_id: Seq<char>,
    pub owner: Seq<char>,
    pub chain_id: i64,
}

impl View for EthNftId {
    type V = EthNftIdView;

    open spec fn view(&self) -> EthNftIdView {
        EthNftIdView {
            contract: self.contract@,
            token_id: self.token_id@,
            owner: self.owner@,
            chain_id: self.chain_id,
        }
    }
}

} // verus!
