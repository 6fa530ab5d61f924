//! Rows of the interface cache table, and their conversion to and from sets.

use vstd::prelude::*;
use super::erc165_interfaces::{Erc165Interface, Erc165InterfaceSet};

verus! {

/// A cached row: which interfaces a contract on a chain reports.
#[derive(Debug)]
pub struct Erc165Dto {
    pub id: i32,
    pub contract: String,
    pub chain_id: i64,
    pub erc721: bool,
    pub erc721_enumerable: bool,
    pub erc721_metadata: bool,
    pub erc1155: bool,
    pub erc1155_metadata: bool,
}

/// A row to insert into the interface cache.
#[derive(Debug)]
pub struct NewErc165Dto {
    pub contract: String,
    pub chain_id: i64,
    pub erc721: bool,
    pub erc721_enumerable: bool,
    pub erc721_metadata: bool,
    pub erc1155: bool,
    pub erc1155_metadata: bool,
}

/// The set of interfaces that five flags mark.
pub open spec fn flags_set(
    erc721: bool,
    erc721_enumerable: bool,
    erc721_metadata: bool,
    erc1155: bool,
    erc1155_metadata: bool,
) -> Set<Erc165Interface> {
    Set::new(
        |i: Erc165Interface|
            match i {
                Erc165Interface::ERC721 => erc721,
                Erc165Interface::ERC721Enumerable => erc721_enumerable,
                Erc165Interface::ERC721Metadata => erc721_metadata,
                Erc165Interface::ERC1155 => erc1155,
                Erc165Interface::ERC1155Metadata => erc1155_metadata,
            },
    )
}

impl Erc165Dto {
    /// The interfaces that this row marks.
    pub open spec fn interfaces(self) -> Set<Erc165Interface> {
        flags_set(
            self.erc721,
            self.erc721_enumerable,
            self.erc721_metadata,
            self.erc1155,
            self.erc1155_metadata,
        )
    }

    /// The contract and the set of interfaces that the row marks.
    pub fn into(self) -> (r: (String, Erc165InterfaceSet))
        ensures
            r.0@ == self.contract@,
            r.1@ == self.interfaces(),
    {
        let mut traits = Erc165InterfaceSet::new();
        if self.erc721 {
            traits.insert(Erc165Interface::ERC721);
        }
        if self.erc721_enumerable {
            traits.insert(Erc165Interface::ERC721Enumerable);
        }
        if self.erc721_metadata {
            traits.insert(Erc165Interface::ERC721Metadata);
        }
        if self.erc1155 {
            traits.insert(Erc165Interface::ERC1155);
        }
        if self.erc1155_metadata {
            traits.insert(Erc165Interface::ERC1155Metadata);
        }
        assert(traits@ =~= self.interfaces());
        (self.contract, traits)
    }
}

impl NewErc165Dto {
    /// A row for `contract` on `chain_id` whose flags mark exactly the interfaces in `traits`.
    pub fn new(contract: String, chain_id: i64, traits: &Erc165InterfaceSet) -> (row: Self)
        ensures
            row.contract == contract,
            row.chain_id == chain_id,
            row.erc721 == traits@.contains(Erc165Interface::ERC721),
            row.erc721_enumerable == traits@.contains(Erc165Interface::ERC721Enumerable),
            row.erc721_metadata == traits@.contains(Erc165Interface::ERC721Metadata),
            row.erc1155 == traits@.contains(Erc165Interface::ERC1155),
            row.erc1155_metadata == traits@.contains(Erc165Interface::ERC1155Metadata),
    {
        NewErc165Dto {
            contract,
            chain_id,
            erc721: traits.contains(&Erc165Interface::ERC721),
            erc721_enumerable: traits.contains(&Erc165Interface::ERC721Enumerable),
            erc721_metadata: traits.contains(&Erc165Interface::ERC721Metadata),
            erc1155: traits.contains(&Erc165Interface::ERC1155),
            erc1155_metadata: traits.contains(&Erc165Interface::ERC1155Metadata),
        }
    }

    /// The interfaces that this row marks.
    pub open spec fn interfaces(self) -> Set<Erc165Interface> {
        flags_set(
            self.erc721,
            self.erc721_enumerable,
            self.erc721_metadata,
            self.erc1155,
            self.erc1155_metadata,
        )
    }

    /// The row that the database gives back for this one once stored under `id`.
    pub open spec fn stored_as(self, id: i32) -> Erc165Dto {
        Erc165Dto {
            id,
            contract: self.contract,
            chain_id: self.chain_id,
            erc721: self.erc721,
            erc721_enumerable: self.erc721_enumerable,
            erc721_metadata: self.erc721_metadata,
            erc1155: self.erc1155,
            erc1155_metadata: self.erc1155_metadata,
        }
    }
}

/// Writing a set into a cache row and reading the row back gives the same set and
/// the same contract: the cache forgets nothing about the interfaces.
pub proof fn lemma_cache_row_roundtrip(
    contract: String,
    chain_id: i64,
    traits: Set<Erc165Interface>,
    row: NewErc165Dto,
    id: i32,
)
    requires
        row.contract == contract,
        row.chain_id == chain_id,
        row.erc721 == traits.contains(Erc165Interface::ERC721),
        row.erc721_enumerable == traits.contains(Erc165Interface::ERC721Enumerable),
        row.erc721_metadata == traits.contains(Erc165Interface::ERC721Metadata),
        row.erc1155 == traits.contains(Erc165Interface::ERC1155),
        row.erc1155_metadata == traits.contains(Erc165Interface::ERC1155Metadata),
    ensures
        row.stored_as(id).interfaces() == traits,
        row.stored_as(id).contract@ == contract@,
        row.stored_as(id).chain_id == chain_id,
{
    assert(row.stored_as(id).interfaces() =~= traits) by {
        assert forall|i: Erc165Interface| row.stored_as(id).interfaces().contains(i) == traits.contains(i) by {
            match i {
                Erc165Interface::ERC721 => {},
                Erc165Interface::ERC721Enumerable => {},
                Erc165Interface::ERC721Metadata => {},
                Erc165Interface::ERC1155 => {},
                Erc165Interface::ERC1155Metadata => {},
            }
        }
    }
}

} // verus!
