//! The answer of interface detection: for each contract (by its checksummed
//! address text), the set of interfaces it supports.

use vstd::prelude::*;
use super::erc165_interfaces::{Erc165Interface, Erc165InterfaceSet};
use super::model::NewErc165Dto;

verus! {

/// A map from contract address text to the interfaces that the contract supports.
pub struct Erc165Res {
    keys: Vec<String>,
    sets: Vec<Erc165InterfaceSet>,
}

impl Erc165Res {
    /// The texts of the keys, in storage order.
    pub closed spec fn key_views(self) -> Seq<Seq<char>> {
        self.keys@.map_values(|s: String| s@)
    }

    #[verifier::type_invariant]
    closed spec fn keys_distinct(self) -> bool {
        &&& self.keys@.len() == self.sets@.len()
        &&& self.key_views().no_duplicates()
    }
}

impl View for Erc165Res {
    type V = Map<Seq<char>, Set<Erc165Interface>>;

    closed spec fn view(&self) -> Map<Seq<char>, Set<Erc165Interface>> {
        Map::new(
            |k: Seq<char>| self.key_views().contains(k),
            |k: Seq<char>| self.sets@[self.key_views().index_of(k)]@,
        )
    }
}

/// In a sequence without duplicates, the only index holding `k` is `i`.
proof fn lemma_index_of_unique(s: Seq<Seq<char>>, i: int, k: Seq<char>)
    requires
        s.no_duplicates(),
        0 <= i < s.len(),
        s[i] == k,
    ensures
        s.contains(k),
        s.index_of(k) == i,
{
    assert(s.contains(k));
    let j = s.index_of(k);
    assert(0 <= j < s.len() && s[j] == k);
}

impl Erc165Res {
    /// The empty map.
    pub fn new() -> (r: Self)
        ensures
            r@ == Map::<Seq<char>, Set<Erc165Interface>>::empty(),
    {
        let r = Erc165Res { keys: Vec::new(), sets: Vec::new() };
        assert(r.key_views() =~= Seq::<Seq<char>>::empty());
        assert(r@ =~= Map::<Seq<char>, Set<Erc165Interface>>::empty());
        r
    }

    /// Where `key` is stored, if it is.
    fn find(&self, key: &String) -> (r: Option<usize>)
        ensures
            r is None <==> !self.key_views().contains(key@),
            r matches Some(i) ==> i < self.keys@.len() && self.key_views()[i as int] == key@,
    {
        let mut i: usize = 0;
        while i < self.keys.len()
            invariant
                i <= self.keys@.len(),
                forall|j: int| 0 <= j < i ==> self.key_views()[j] != key@,
            decreases self.keys@.len() - i,
        {
            if self.keys[i] == *key {
                assert(self.key_views()[i as int] == key@);
                return Some(i);
            }
            i = i + 1;
        }
        assert(!self.key_views().contains(key@));
        None
    }

    /// The interfaces recorded for `key` (`HashMap::get`).
    pub fn get(&self, key: &String) -> (r: Option<&Erc165InterfaceSet>)
        ensures
            r is Some <==> self@.contains_key(key@),
            r matches Some(s) ==> s@ == self@[key@],
    {
        proof {
            use_type_invariant(self);
        }
        match self.find(key) {
            Some(i) => {
                proof {
                    lemma_index_of_unique(self.key_views(), i as int, key@);
                }
                Some(&self.sets[i])
            },
            None => None,
        }
    }

    /// Whether `key` has an entry.
    pub fn contains_key(&self, key: &String) -> (r: bool)
        ensures
            r == self@.contains_key(key@),
    {
        self.find(key).is_some()
    }

    /// Records `set` for `key`, replacing what was there (`HashMap::insert`).
    pub fn insert(&mut self, key: String, set: Erc165InterfaceSet)
        ensures
            final(self)@ == old(self)@.insert(key@, set@),
    {
        proof {
            use_type_invariant(&*self);
        }
        let ghost before = *self;
        let found = self.find(&key);
        let mut taken = Erc165Res::new();
        std::mem::swap(self, &mut taken);
        let Erc165Res { mut keys, mut sets } = taken;
        proof {
            assert(keys@.map_values(|s: String| s@) == before.key_views());
        }
        match found {
            Some(i) => {
                let ghost kv = keys@.map_values(|s: String| s@);
                sets.set(i, set);
                let r = Erc165Res { keys, sets };
                proof {
                    assert(r.key_views() == kv);
                    assert(r@ =~= before@.insert(key@, set@)) by {
                        lemma_index_of_unique(kv, i as int, key@);
                        assert forall|k: Seq<char>| #[trigger] r@.contains_key(k) implies r@[k]
                            == before@.insert(key@, set@)[k] by {
                            let j = kv.index_of(k);
                            if k != key@ {
                                assert(kv.contains(k));
                                assert(j != i as int);
                            }
                        }
                    }
                }
                *self = r;
            },
            None => {
                let ghost kv = keys@.map_values(|s: String| s@);
                let ghost key_view = key@;
                keys.push(key);
                sets.push(set);
                proof {
                    let nk = kv.push(key_view);
                    assert(keys@.map_values(|s: String| s@) =~= nk);
                    assert(nk.no_duplicates()) by {
                        assert forall|a: int, b: int| 0 <= a < b < nk.len() implies nk[a] != nk[b] by {
                            if b == kv.len() {
                                assert(kv[a] == nk[a]);
                                assert(kv.contains(kv[a]));
                            }
                        }
                    }
                }
                let r = Erc165Res { keys, sets };
                proof {
                    assert(r.key_views() =~= kv.push(key_view));
                    lemma_index_of_unique(r.key_views(), kv.len() as int, key_view);
                    assert(r@ =~= before@.insert(key_view, set@)) by {
                        assert forall|k: Seq<char>| #[trigger] r@.contains_key(k) implies r@[k]
                            == before@.insert(key_view, set@)[k] by {
                            if k != key_view {
                                let j = r.key_views().index_of(k);
                                assert(r.key_views()[j] == k);
                                assert(j < kv.len());
                                assert(kv[j] == k);
                                lemma_index_of_unique(kv, j, k);
                            }
                        }
                        assert forall|k: Seq<char>| #[trigger] before@.insert(key_view, set@).contains_key(k)
                            implies r@.contains_key(k) by {
                            if k != key_view {
                                let j = kv.index_of(k);
                                assert(r.key_views()[j] == k);
                            }
                        }
                    }
                }
                *self = r;
            },
        }
    }
}

impl Erc165Res {
    /// The map of the first `n` stored entries.
    closed spec fn prefix_map(self, n: int) -> Map<Seq<char>, Set<Erc165Interface>> {
        Map::new(
            |k: Seq<char>| self.key_views().take(n).contains(k),
            |k: Seq<char>| self.sets@[self.key_views().index_of(k)]@,
        )
    }

    proof fn lemma_prefix_map_ends(self)
        requires
            self.keys_distinct(),
        ensures
            self.prefix_map(0) == Map::<Seq<char>, Set<Erc165Interface>>::empty(),
            self.prefix_map(self.keys@.len() as int) == self@,
    {
        let kv = self.key_views();
        assert(kv.take(self.keys@.len() as int) =~= kv);
        assert(self.prefix_map(self.keys@.len() as int) =~= self@);
        assert(self.prefix_map(0) =~= Map::<Seq<char>, Set<Erc165Interface>>::empty());
    }

    proof fn lemma_prefix_map_step(self, i: int)
        requires
            self.keys_distinct(),
            0 <= i < self.keys@.len(),
        ensures
            self.prefix_map(i + 1) == self.prefix_map(i).insert(
                self.key_views()[i],
                self.sets@[i]@,
            ),
    {
        let kv = self.key_views();
        lemma_index_of_unique(kv, i, kv[i]);
        let lhs = self.prefix_map(i + 1);
        let rhs = self.prefix_map(i).insert(kv[i], self.sets@[i]@);
        assert(lhs =~= rhs) by {
            assert forall|k: Seq<char>| #[trigger] lhs.contains_key(k) <==> rhs.contains_key(k) by {
                if kv.take(i + 1).contains(k) {
                    let j = choose|j: int| 0 <= j < i + 1 && #[trigger] kv.take(i + 1)[j] == k;
                    if j < i {
                        assert(kv.take(i)[j] == k);
                    }
                }
                if kv.take(i).contains(k) {
                    let j = choose|j: int| 0 <= j < i && #[trigger] kv.take(i)[j] == k;
                    assert(kv.take(i + 1)[j] == k);
                }
                if k == kv[i] {
                    assert(kv.take(i + 1)[i] == k);
                }
            }
            assert forall|k: Seq<char>| #[trigger] lhs.contains_key(k) implies lhs[k] == rhs[k] by {
                if k == kv[i] {
                    assert(lhs[k] == self.sets@[i]@);
                }
            }
        }
    }

    /// Adds every entry of `other`, its sets replacing those of equal keys (`Extend`).
    pub fn extend(&mut self, other: Erc165Res)
        ensures
            final(self)@ == old(self)@.union_prefer_right(other@),
    {
        proof {
            use_type_invariant(&other);
            other.lemma_prefix_map_ends();
        }
        let n = other.keys.len();
        let mut i: usize = 0;
        assert(old(self)@.union_prefer_right(other.prefix_map(0)) =~= old(self)@);
        while i < n
            invariant
                n == other.keys@.len(),
                other.keys_distinct(),
                i <= n,
                self@ == old(self)@.union_prefer_right(other.prefix_map(i as int)),
            decreases n - i,
        {
            let key = other.keys[i].clone();
            let set = other.sets[i].copied();
            proof {
                other.lemma_prefix_map_step(i as int);
            }
            self.insert(key, set);
            assert(self@ =~= old(self)@.union_prefer_right(other.prefix_map(i + 1)));
            i = i + 1;
        }
        proof {
            other.lemma_prefix_map_ends();
        }
    }

    /// One cache row per entry, for `chain_id`.
    pub fn to_rows(&self, chain_id: i64) -> (rows: Vec<NewErc165Dto>)
        ensures
            forall|i: int| #![trigger rows@[i]] 0 <= i < rows@.len() ==> {
                &&& self@.contains_key(rows@[i].contract@)
                &&& rows@[i].interfaces() == self@[rows@[i].contract@]
                &&& rows@[i].chain_id == chain_id
            },
            forall|k: Seq<char>| #[trigger] self@.contains_key(k) ==> exists|i: int|
                0 <= i < rows@.len() && rows@[i].contract@ == k,
            forall|i: int, j: int|
                0 <= i < j < rows@.len() ==> rows@[i].contract@ != rows@[j].contract@,
    {
        proof {
            use_type_invariant(self);
        }
        let mut rows: Vec<NewErc165Dto> = Vec::new();
        let n = self.keys.len();
        let mut i: usize = 0;
        while i < n
            invariant
                n == self.keys@.len(),
                self.keys_distinct(),
                i <= n,
                rows@.len() == i,
                forall|j: int| #![trigger rows@[j]] 0 <= j < i ==> {
                    &&& rows@[j].contract@ == self.key_views()[j]
                    &&& rows@[j].interfaces() == self.sets@[j]@
                    &&& rows@[j].chain_id == chain_id
                },
            decreases n - i,
        {
            let row = NewErc165Dto::new(self.keys[i].clone(), chain_id, &self.sets[i]);
            proof {
                assert(row.interfaces() =~= self.sets@[i as int]@) by {
                    assert forall|x: Erc165Interface| row.interfaces().contains(x)
                        == self.sets@[i as int]@.contains(x) by {
                        match x {
                            Erc165Interface::ERC721 => {},
                            Erc165Interface::ERC721Enumerable => {},
                            Erc165Interface::ERC721Metadata => {},
                            Erc165Interface::ERC1155 => {},
                            Erc165Interface::ERC1155Metadata => {},
                        }
                    }
                }
            }
            rows.push(row);
            i = i + 1;
        }
        proof {
            let kv = self.key_views();
            assert forall|j: int| #![trigger rows@[j]] 0 <= j < rows@.len() implies {
                &&& self@.contains_key(rows@[j].contract@)
                &&& rows@[j].interfaces() == self@[rows@[j].contract@]
            } by {
                lemma_index_of_unique(kv, j, kv[j]);
            }
            assert forall|k: Seq<char>| #[trigger] self@.contains_key(k) implies exists|j: int|
                0 <= j < rows@.len() && rows@[j].contract@ == k by {
                let j = kv.index_of(k);
                assert(rows@[j].contract@ == k);
            }
        }
        rows
    }
}

} // verus!
