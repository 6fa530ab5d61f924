//! The interfaces that the indexer asks contracts about, and sets of them.

use vstd::prelude::*;

verus! {

/// An NFT interface that a contract can report through ERC-165.
#[derive(Clone, Copy, Debug, PartialEq, Eq, Structural, Hash)]
pub enum Erc165Interface {
    ERC721,
    ERC721Metadata,
    ERC721Enumerable,
    ERC1155,
    ERC1155Metadata,
}

/// `supportsInterface` id of ERC-165 itself.
pub const ERC165: u32 = 0x01ffc9a7u32;

/// The id that an ERC-165 contract must deny (`0xffffffff`).
pub const ERC165N: u32 = 0xffffffffu32;

/// `supportsInterface` id of ERC-721.
pub const ERC721: u32 = 0x80ac58cdu32;

/// `supportsInterface` id of the ERC-721 metadata extension.
pub const ERC721_METADATA: u32 = 0x5b5e139fu32;

/// `supportsInterface` id of the ERC-721 enumerable extension.
pub const ERC721_ENUMERABLE: u32 = 0x780e9d63u32;

/// `supportsInterface` id of ERC-1155.
pub const ERC1155: u32 = 0xd9b67a26u32;

/// `supportsInterface` id of the ERC-1155 metadata URI extension.
pub const ERC1155_METADATA: u32 = 0x0e89341cu32;

impl Erc165Interface {
    /// The interface id of each interface.
    pub open spec fn spec_id(self) -> u32 {
        match self {
            Erc165Interface::ERC721 => ERC721,
            Erc165Interface::ERC721Metadata => ERC721_METADATA,
            Erc165Interface::ERC721Enumerable => ERC721_ENUMERABLE,
            Erc165Interface::ERC1155 => ERC1155,
            Erc165Interface::ERC1155Metadata => ERC1155_METADATA,
        }
    }

    /// The `supportsInterface` id of this interface.
    pub fn id(&self) -> (r: u32)
        ensures
            r == self.spec_id(),
    {
        match self {
            Erc165Interface::ERC721 => ERC721,
            Erc165Interface::ERC721Metadata => ERC721_METADATA,
            Erc165Interface::ERC721Enumerable => ERC721_ENUMERABLE,
            Erc165Interface::ERC1155 => ERC1155,
            Erc165Interface::ERC1155Metadata => ERC1155_METADATA,
        }
    }
}

/// A set of interfaces (what a contract supports).
pub struct Erc165InterfaceSet {
    members: Vec<Erc165Interface>,
}

impl View for Erc165InterfaceSet {
    type V = Set<Erc165Interface>;

    closed spec fn view(&self) -> Set<Erc165Interface> {
        self.members@.to_set()
    }
}

impl Erc165InterfaceSet {
    #[verifier::type_invariant]
    closed spec fn members_distinct(self) -> bool {
        self.members@.no_duplicates()
    }

    /// The empty set.
    pub fn new() -> (s: Self)
        ensures
            s@ == Set::<Erc165Interface>::empty(),
    {
        let s = Erc165InterfaceSet { members: Vec::new() };
        assert(s.members@.to_set() =~= Set::<Erc165Interface>::empty());
        s
    }

    /// Whether `i` is in the set.
    pub fn contains(&self, i: &Erc165Interface) -> (r: bool)
        ensures
            r == self@.contains(*i),
    {
        let mut k: usize = 0;
        while k < self.members.len()
            invariant
                k <= self.members@.len(),
                forall|j: int| 0 <= j < k ==> self.members@[j] != *i,
            decreases self.members@.len() - k,
        {
            if self.members[k] == *i {
                assert(self.members@.contains(*i));
                return true;
            }
            k = k + 1;
        }
        false
    }

    /// Adds `i`; returns whether it was not in the set before.
    pub fn insert(&mut self, i: Erc165Interface) -> (added: bool)
        ensures
            final(self)@ == old(self)@.insert(i),
            added == !old(self)@.contains(i),
    {
        proof {
            use_type_invariant(&*self);
        }
        if self.contains(&i) {
            assert(self@.insert(i) =~= self@);
            false
        } else {
            let ghost before = self.members@;
            let mut members = self.members.clone();
            members.push(i);
            assert(members@ == before.push(i));
            assert(members@.to_set() =~= before.to_set().insert(i)) by {
                assert forall|x: Erc165Interface| #[trigger] members@.contains(x)
                    <==> before.contains(x) || x == i by {
                    if members@.contains(x) {
                        let j = choose|j: int| 0 <= j < members@.len() && members@[j] == x;
                        if j < before.len() {
                            assert(before[j] == x);
                        }
                    }
                    if before.contains(x) {
                        let j = choose|j: int| 0 <= j < before.len() && before[j] == x;
                        assert(members@[j] == x);
                    }
                    if x == i {
                        assert(members@[before.len() as int] == i);
                    }
                }
            }
            assert(members@.no_duplicates()) by {
                assert forall|a: int, b: int| 0 <= a < b < members@.len() implies members@[a] != members@[b] by {
                    if b == before.len() {
                        assert(before[a] == members@[a]);
                        assert(before.contains(members@[a]));
                    }
                }
            }
            *self = Erc165InterfaceSet { members };
            true
        }
    }

    /// A second set with the same members.
    pub fn copied(&self) -> (r: Self)
        ensures
            r@ == self@,
    {
        proof {
            use_type_invariant(self);
        }
        Erc165InterfaceSet { members: self.members.clone() }
    }

    /// The number of interfaces in the set.
    pub fn len(&self) -> (n: usize)
        ensures
            n == self@.len(),
    {
        proof {
            use_type_invariant(self);
            self.members@.unique_seq_to_set();
        }
        self.members.len()
    }
}

} // verus!
