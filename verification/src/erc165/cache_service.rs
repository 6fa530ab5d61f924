//! The decisions of the cached interface lookup: which contracts the cache
//! already answers, what to store of a fresh network answer, and the combined
//! answer.

use vstd::prelude::*;
use super::erc165_interfaces::Erc165Interface;
use super::errors::Erc165ServiceErrors;
use super::model::{Erc165Dto, NewErc165Dto};
use super::service::Erc165Res;
use super::network_service::{
    any_detection_fails, detect_all, detected, expected_outcome, lemma_detect_all, ProbeOutcomeView,
};
use crate::ethereum::{checksum_text, to_checksum};

verus! {

/// The text under which the cache stores a contract: its checksummed address.
pub fn cache_key(contract: &[u8; 20]) -> (k: String)
    ensures
        k@ == checksum_text(contract@),
{
    to_checksum(contract)
}

/// The map that the cache rows found so far give, later rows winning.
pub open spec fn cached_map(hits: Seq<Option<Erc165Dto>>) -> Map<Seq<char>, Set<Erc165Interface>>
    decreases hits.len(),
{
    if hits.len() == 0 {
        Map::empty()
    } else {
        let before = cached_map(hits.drop_last());
        match hits.last() {
            Some(d) => before.insert(d.contract@, d.interfaces()),
            None => before,
        }
    }
}

/// The contracts whose cache lookup found nothing, in their order.
pub open spec fn cache_misses(contracts: Seq<[u8; 20]>, hits: Seq<Option<Erc165Dto>>) -> Seq<
    [u8; 20],
>
    decreases contracts.len(),
{
    if contracts.len() == 0 || hits.len() == 0 {
        Seq::empty()
    } else {
        let before = cache_misses(contracts.drop_last(), hits.drop_last());
        if hits.last() is None {
            before.push(contracts.last())
        } else {
            before
        }
    }
}

/// Splits the contracts by the cache lookup made for each (`hits[i]` for
/// `contracts[i]`, `None` where the lookup found no row or failed): the answer the
/// cache gives, and the contracts still to ask the chain about.
pub fn split_cached(contracts: &[[u8; 20]], hits: Vec<Option<Erc165Dto>>) -> (r: (
    Erc165Res,
    Vec<[u8; 20]>,
))
    requires
        contracts@.len() == hits@.len(),
    ensures
        r.0@ == cached_map(hits@),
        r.1@ == cache_misses(contracts@, hits@),
        forall|i: int| 0 <= i < hits@.len() && #[trigger] hits@[i] is Some ==> r.0@.contains_key(
            hits@[i].unwrap().contract@,
        ),
        forall|i: int| 0 <= i < hits@.len() && #[trigger] hits@[i] is None ==> r.1@.contains(
            contracts@[i],
        ),
{
    proof {
        lemma_cached_map_holds_every_hit(hits@);
        lemma_misses_are_the_unfound(contracts@, hits@);
    }
    let ghost all_hits = hits@;
    let mut result = Erc165Res::new();
    let mut to_find: Vec<[u8; 20]> = Vec::new();
    let n = contracts.len();
    let mut i: usize = 0;
    let mut hits = hits;
    assert(hits@ =~= all_hits.skip(0));
    assert(cached_map(all_hits.take(0)) =~= Map::<Seq<char>, Set<Erc165Interface>>::empty());
    while i < n
        invariant
            n == contracts@.len(),
            all_hits.len() == n,
            i <= n,
            hits@ =~= all_hits.skip(i as int),
            result@ == cached_map(all_hits.take(i as int)),
            to_find@ == cache_misses(contracts@.take(i as int), all_hits.take(i as int)),
        decreases n - i,
    {
        let hit = hits.remove(0);
        proof {
            assert(hits@ =~= all_hits.skip(i + 1));
            assert(all_hits.take(i + 1).drop_last() =~= all_hits.take(i as int));
            assert(contracts@.take(i + 1).drop_last() =~= contracts@.take(i as int));
        }
        match hit {
            Some(e) => {
                let (k, set) = e.into();
                result.insert(k, set);
            },
            _ => {
                to_find.push(contracts[i]);
            },
        }
        i = i + 1;
    }
    assert(all_hits.take(n as int) =~= all_hits);
    assert(contracts@.take(n as int) =~= contracts@);
    (result, to_find)
}

proof fn lemma_hit_is_cached(hits: Seq<Option<Erc165Dto>>, i: int)
    requires
        0 <= i < hits.len(),
        hits[i] is Some,
    ensures
        cached_map(hits).contains_key(hits[i].unwrap().contract@),
    decreases hits.len(),
{
    if i < hits.len() - 1 {
        let rest = hits.drop_last();
        assert(rest[i] == hits[i]);
        lemma_hit_is_cached(rest, i);
    }
}

proof fn lemma_last_hit_value(hits: Seq<Option<Erc165Dto>>, i: int)
    requires
        0 <= i < hits.len(),
        hits[i] is Some,
        forall|j: int|
            i < j < hits.len() && #[trigger] hits[j] is Some ==> hits[j].unwrap().contract@
                != hits[i].unwrap().contract@,
    ensures
        cached_map(hits)[hits[i].unwrap().contract@] == hits[i].unwrap().interfaces(),
    decreases hits.len(),
{
    let n = hits.len() - 1;
    if i < n {
        let rest = hits.drop_last();
        assert(rest[i] == hits[i]);
        assert forall|j: int| i < j < rest.len() && #[trigger] rest[j] is Some implies rest[j].unwrap().contract@
            != rest[i].unwrap().contract@ by {
            assert(rest[j] == hits[j]);
        }
        lemma_last_hit_value(rest, i);
        if hits[n] is Some {
            assert(hits[n].unwrap().contract@ != hits[i].unwrap().contract@);
        }
    }
}

proof fn lemma_cached_key_is_a_hit(hits: Seq<Option<Erc165Dto>>, k: Seq<char>)
    requires
        cached_map(hits).contains_key(k),
    ensures
        exists|i: int| 0 <= i < hits.len() && #[trigger] hits[i] is Some && hits[i].unwrap().contract@ == k,
    decreases hits.len(),
{
    let n = hits.len() - 1;
    let rest = hits.drop_last();
    if cached_map(rest).contains_key(k) {
        lemma_cached_key_is_a_hit(rest, k);
        let i = choose|i: int| 0 <= i < rest.len() && #[trigger] rest[i] is Some && rest[i].unwrap().contract@ == k;
        assert(hits[i] == rest[i]);
    } else {
        assert(hits[n] is Some && hits[n].unwrap().contract@ == k);
    }
}

/// Every row the cache lookups found is in the cached answer, whatever the other
/// lookups gave: under its contract, with its interfaces unless a later row names the
/// same contract; and the cached answer holds nothing else.
pub proof fn lemma_cached_map_holds_every_hit(hits: Seq<Option<Erc165Dto>>)
    ensures
        forall|i: int| 0 <= i < hits.len() && #[trigger] hits[i] is Some ==> cached_map(hits).contains_key(
            hits[i].unwrap().contract@,
        ),
        forall|i: int|
            0 <= i < hits.len() && #[trigger] hits[i] is Some && (forall|j: int|
                i < j < hits.len() && #[trigger] hits[j] is Some ==> hits[j].unwrap().contract@
                    != hits[i].unwrap().contract@) ==> cached_map(hits)[hits[i].unwrap().contract@]
                == hits[i].unwrap().interfaces(),
        forall|k: Seq<char>| #[trigger] cached_map(hits).contains_key(k) ==> exists|i: int|
            0 <= i < hits.len() && #[trigger] hits[i] is Some && hits[i].unwrap().contract@ == k,
{
    assert forall|i: int| 0 <= i < hits.len() && #[trigger] hits[i] is Some implies cached_map(
        hits,
    ).contains_key(hits[i].unwrap().contract@) by {
        lemma_hit_is_cached(hits, i);
    }
    assert forall|i: int|
        0 <= i < hits.len() && #[trigger] hits[i] is Some && (forall|j: int|
            i < j < hits.len() && #[trigger] hits[j] is Some ==> hits[j].unwrap().contract@
                != hits[i].unwrap().contract@) implies cached_map(hits)[hits[i].unwrap().contract@]
        == hits[i].unwrap().interfaces() by {
        lemma_last_hit_value(hits, i);
    }
    assert forall|k: Seq<char>| #[trigger] cached_map(hits).contains_key(k) implies exists|i: int|
        0 <= i < hits.len() && #[trigger] hits[i] is Some && hits[i].unwrap().contract@ == k by {
        lemma_cached_key_is_a_hit(hits, k);
    }
}

/// Every contract is either answered from the cache or listed as a miss: the misses
/// are exactly the contracts whose lookup found no row.
pub proof fn lemma_misses_are_the_unfound(contracts: Seq<[u8; 20]>, hits: Seq<Option<Erc165Dto>>)
    requires
        contracts.len() == hits.len(),
    ensures
        forall|i: int| 0 <= i < hits.len() && #[trigger] hits[i] is None ==> cache_misses(
            contracts,
            hits,
        ).contains(contracts[i]),
        forall|x: [u8; 20]| #[trigger] cache_misses(contracts, hits).contains(x) ==> exists|i: int|
            0 <= i < hits.len() && hits[i] is None && contracts[i] == x,
    decreases hits.len(),
{
    if hits.len() > 0 {
        let cr = contracts.drop_last();
        let hr = hits.drop_last();
        lemma_misses_are_the_unfound(cr, hr);
        let n = hits.len() - 1;
        let before = cache_misses(cr, hr);
        let m = cache_misses(contracts, hits);
        assert forall|i: int| 0 <= i < hits.len() && #[trigger] hits[i] is None implies m.contains(
            contracts[i],
        ) by {
            if i < n {
                assert(hr[i] == hits[i]);
                assert(cr[i] == contracts[i]);
                let j = choose|j: int| 0 <= j < before.len() && before[j] == contracts[i];
                assert(m[j] == before[j]);
            } else {
                assert(m[m.len() - 1] == contracts[i]);
            }
        }
        assert forall|x: [u8; 20]| #[trigger] m.contains(x) implies exists|i: int|
            0 <= i < hits.len() && hits[i] is None && contracts[i] == x by {
            let j = choose|j: int| 0 <= j < m.len() && m[j] == x;
            if j < before.len() {
                assert(before[j] == x);
                assert(before.contains(x));
                let i = choose|i: int| 0 <= i < hr.len() && hr[i] is None && cr[i] == x;
                assert(hits[i] == hr[i] && contracts[i] == cr[i]);
            } else {
                assert(hits[n] is None && contracts[n] == x);
            }
        }
    }
}

/// The rows to store of a fresh network answer for `chain_id`.
pub fn rows_to_store(fresh: &Erc165Res, chain_id: i64) -> (rows: Vec<NewErc165Dto>)
    ensures
        forall|i: int| #![trigger rows@[i]] 0 <= i < rows@.len() ==> {
            &&& fresh@.contains_key(rows@[i].contract@)
            &&& rows@[i].interfaces() == fresh@[rows@[i].contract@]
            &&& rows@[i].chain_id == chain_id
        },
        forall|k: Seq<char>| #[trigger] fresh@.contains_key(k) ==> exists|i: int|
            0 <= i < rows@.len() && rows@[i].contract@ == k,
        forall|i: int, j: int|
            0 <= i < j < rows@.len() ==> rows@[i].contract@ != rows@[j].contract@,
{
    fresh.to_rows(chain_id)
}

/// The answer of the cached lookup: the cache's answer overridden by the fresh one,
/// or `FailedToQueryDB` when storing the fresh rows failed.
pub fn merge_lookup(cached: Erc165Res, fresh: Erc165Res, stored: bool) -> (r: Result<
    Erc165Res,
    Erc165ServiceErrors,
>)
    ensures
        stored ==> (r matches Ok(m) && m@ == cached@.union_prefer_right(fresh@)),
        !stored ==> r == Err::<Erc165Res, Erc165ServiceErrors>(Erc165ServiceErrors::FailedToQueryDB),
{
    if !stored {
        return Err(Erc165ServiceErrors::FailedToQueryDB);
    }
    let mut result = cached;
    result.extend(fresh);
    Ok(result)
}

/// The rows stored for a fresh answer, each read back as a cache hit.
pub open spec fn rows_read_back(rows: Seq<NewErc165Dto>, ids: Seq<i32>) -> Seq<Option<Erc165Dto>> {
    Seq::new(rows.len(), |i: int| Some(rows[i].stored_as(ids[i])))
}

/// What the first `n` rows map contracts to.
pub open spec fn rows_map(rows: Seq<NewErc165Dto>, n: int) -> Map<Seq<char>, Set<Erc165Interface>> {
    Map::new(
        |k: Seq<char>| exists|i: int| 0 <= i < n && rows[i].contract@ == k,
        |k: Seq<char>| rows[choose|i: int| 0 <= i < n && rows[i].contract@ == k].interfaces(),
    )
}

proof fn lemma_cached_map_of_rows(rows: Seq<NewErc165Dto>, ids: Seq<i32>, n: int)
    requires
        0 <= n <= rows.len(),
        ids.len() == rows.len(),
        forall|i: int, j: int| 0 <= i < j < rows.len() ==> rows[i].contract@ != rows[j].contract@,
    ensures
        cached_map(rows_read_back(rows, ids).take(n)) == rows_map(rows, n),
    decreases n,
{
    let hits = rows_read_back(rows, ids);
    if n == 0 {
        assert(hits.take(0) =~= Seq::<Option<Erc165Dto>>::empty());
        assert(rows_map(rows, 0) =~= Map::<Seq<char>, Set<Erc165Interface>>::empty());
    } else {
        lemma_cached_map_of_rows(rows, ids, n - 1);
        assert(hits.take(n).drop_last() =~= hits.take(n - 1));
        let r = rows[n - 1];
        assert(hits.take(n).last() == Some(r.stored_as(ids[n - 1])));
        let lhs = cached_map(hits.take(n));
        let rhs = rows_map(rows, n);
        assert(lhs == rows_map(rows, n - 1).insert(r.contract@, r.interfaces()));
        assert(lhs =~= rhs) by {
            assert forall|k: Seq<char>| #[trigger] lhs.contains_key(k) <==> rhs.contains_key(k) by {
                if lhs.contains_key(k) {
                    if k == r.contract@ {
                        assert(0 <= n - 1 < n && rows[n - 1].contract@ == k);
                    } else {
                        let i = choose|i: int| 0 <= i < n - 1 && rows[i].contract@ == k;
                        assert(0 <= i < n && rows[i].contract@ == k);
                    }
                }
                if rhs.contains_key(k) {
                    let i = choose|i: int| 0 <= i < n && rows[i].contract@ == k;
                    if i < n - 1 {
                        assert(rows_map(rows, n - 1).contains_key(k));
                    }
                }
            }
            assert forall|k: Seq<char>| #[trigger] lhs.contains_key(k) implies lhs[k] == rhs[k] by {
                let i = choose|i: int| 0 <= i < n && rows[i].contract@ == k;
                if k == r.contract@ {
                    assert(i == n - 1);
                } else {
                    assert(i != n - 1);
                    let j = choose|j: int| 0 <= j < n - 1 && rows[j].contract@ == k;
                    assert(i == j);
                }
            }
        }
    }
}

/// A fresh answer, once stored as `rows_to_store` gives it, is exactly what the cache
/// answers for those contracts when its rows are read back (under whatever ids the
/// database gave them).
pub proof fn lemma_cache_answers_what_was_stored(
    fresh: Map<Seq<char>, Set<Erc165Interface>>,
    rows: Seq<NewErc165Dto>,
    ids: Seq<i32>,
    chain_id: i64,
)
    requires
        ids.len() == rows.len(),
        forall|i: int| #![trigger rows[i]] 0 <= i < rows.len() ==> {
            &&& fresh.contains_key(rows[i].contract@)
            &&& rows[i].interfaces() == fresh[rows[i].contract@]
            &&& rows[i].chain_id == chain_id
        },
        forall|k: Seq<char>| #[trigger] fresh.contains_key(k) ==> exists|i: int|
            0 <= i < rows.len() && rows[i].contract@ == k,
        forall|i: int, j: int| 0 <= i < j < rows.len() ==> rows[i].contract@ != rows[j].contract@,
    ensures
        cached_map(rows_read_back(rows, ids)) == fresh,
{
    lemma_cached_map_of_rows(rows, ids, rows.len() as int);
    assert(rows_read_back(rows, ids).take(rows.len() as int) =~= rows_read_back(rows, ids));
    let m = rows_map(rows, rows.len() as int);
    assert(m =~= fresh) by {
        assert forall|k: Seq<char>| #[trigger] m.contains_key(k) <==> fresh.contains_key(k) by {
            if m.contains_key(k) {
                let i = choose|i: int| 0 <= i < rows.len() && rows[i].contract@ == k;
                assert(fresh.contains_key(rows[i].contract@));
            }
        }
        assert forall|k: Seq<char>| #[trigger] m.contains_key(k) implies m[k] == fresh[k] by {
            let i = choose|i: int| 0 <= i < rows.len() && rows[i].contract@ == k;
            assert(rows[i].interfaces() == fresh[rows[i].contract@]);
        }
    }
}

/// What the cache holds for a list of contracts: its entry under the checksummed
/// address of each contract of the list that it holds.
pub open spec fn cache_answer(
    cache: Map<Seq<char>, Set<Erc165Interface>>,
    contracts: Seq<Seq<u8>>,
) -> Map<Seq<char>, Set<Erc165Interface>> {
    Map::new(
        |k: Seq<char>|
            cache.contains_key(k) && exists|c: Seq<u8>|
                contracts.contains(c) && #[trigger] checksum_text(c) == k,
        |k: Seq<char>| cache[k],
    )
}

/// The contracts of a list whose checksummed address the cache does not hold.
pub open spec fn uncached(
    cache: Map<Seq<char>, Set<Erc165Interface>>,
    contracts: Seq<Seq<u8>>,
) -> Seq<Seq<u8>> {
    contracts.filter(|c: Seq<u8>| !cache.contains_key(checksum_text(c)))
}

/// One cached lookup of `contracts` (of one chain) against the cache's entries for
/// that chain, where contract `c` answers `answers(c)`: the contracts the cache does not
/// hold are detected (`detect_all`), their rows are stored without replacing a held
/// one, and the answer is the cache's overridden by the fresh one. `None` where the
/// detection fails; otherwise the answer and the cache after.
pub open spec fn cached_lookup(
    cache: Map<Seq<char>, Set<Erc165Interface>>,
    contracts: Seq<Seq<u8>>,
    answers: spec_fn(Seq<u8>) -> spec_fn(u32) -> Option<bool>,
) -> Option<(Map<Seq<char>, Set<Erc165Interface>>, Map<Seq<char>, Set<Erc165Interface>>)> {
    match detect_all(uncached(cache, contracts), answers, Map::empty()) {
        None => None,
        Some(fresh) => Some(
            (cache_answer(cache, contracts).union_prefer_right(fresh), fresh.union_prefer_right(cache)),
        ),
    }
}

/// The uncached contracts are those of the list whose address the cache does not hold.
pub proof fn lemma_uncached(cache: Map<Seq<char>, Set<Erc165Interface>>, contracts: Seq<Seq<u8>>)
    requires
        forall|i: int| 0 <= i < contracts.len() ==> (#[trigger] contracts[i]).len() == 20,
    ensures
        forall|c: Seq<u8>| #[trigger] uncached(cache, contracts).contains(c) <==> (contracts.contains(c)
            && !cache.contains_key(checksum_text(c))),
        forall|i: int| 0 <= i < uncached(cache, contracts).len() ==> (#[trigger] uncached(
            cache,
            contracts,
        )[i]).len() == 20,
{
    broadcast use Seq::lemma_filter_contains_rev;
    let pred = |c: Seq<u8>| !cache.contains_key(checksum_text(c));
    let m = uncached(cache, contracts);
    contracts.filter_lemma(pred);
    assert forall|c: Seq<u8>| #[trigger] m.contains(c) <==> (contracts.contains(c)
        && !cache.contains_key(checksum_text(c))) by {
        if m.contains(c) {
            let i = choose|i: int| 0 <= i < m.len() && m[i] == c;
            assert(pred(m[i]));
        }
        if contracts.contains(c) && !cache.contains_key(checksum_text(c)) {
            let i = choose|i: int| 0 <= i < contracts.len() && contracts[i] == c;
            assert(pred(contracts[i]));
        }
    }
    assert forall|i: int| 0 <= i < m.len() implies (#[trigger] m[i]).len() == 20 by {
        assert(m.contains(m[i]));
        let j = choose|j: int| 0 <= j < contracts.len() && contracts[j] == m[i];
        assert(contracts[j].len() == 20);
    }
}

/// A second cached lookup of the same contracts, with nothing else writing the cache
/// in between and the chain answering as before, gives the same answer and leaves the
/// cache as it was. It asks the chain only about the contracts the first answer left
/// out, each of which does not implement ERC-165.
pub proof fn lemma_second_lookup_answers_the_same(
    cache: Map<Seq<char>, Set<Erc165Interface>>,
    contracts: Seq<Seq<u8>>,
    answers: spec_fn(Seq<u8>) -> spec_fn(u32) -> Option<bool>,
)
    requires
        forall|i: int| 0 <= i < contracts.len() ==> (#[trigger] contracts[i]).len() == 20,
        cached_lookup(cache, contracts, answers) is Some,
    ensures
        ({
            let (m1, cache1) = cached_lookup(cache, contracts, answers).unwrap();
            &&& cached_lookup(cache1, contracts, answers) == Some((m1, cache1))
            &&& forall|c: Seq<u8>| #[trigger] uncached(cache1, contracts).contains(c) <==> (
            contracts.contains(c) && !m1.contains_key(checksum_text(c)))
            &&& forall|c: Seq<u8>| #[trigger] uncached(cache1, contracts).contains(c)
                ==> expected_outcome(answers(c)) is NotErc165
        }),
{
    let m = uncached(cache, contracts);
    lemma_uncached(cache, contracts);
    lemma_detect_all(m, answers, Map::empty());
    let fresh = detected(m, answers);
    assert(Map::<Seq<char>, Set<Erc165Interface>>::empty().union_prefer_right(fresh) =~= fresh);
    let m1 = cache_answer(cache, contracts).union_prefer_right(fresh);
    let cache1 = fresh.union_prefer_right(cache);
    assert(cached_lookup(cache, contracts, answers) == Some((m1, cache1)));
    let m2 = uncached(cache1, contracts);
    lemma_uncached(cache1, contracts);
    assert forall|c: Seq<u8>| #[trigger] m2.contains(c) implies m.contains(c) && expected_outcome(
        answers(c),
    ) is NotErc165 by {
        assert(!cache1.contains_key(checksum_text(c)));
        assert(m.contains(c));
        assert(!(expected_outcome(answers(c)) is Failed));
        if expected_outcome(answers(c)) is Supported {
            assert(fresh.contains_key(checksum_text(c)));
        }
    }
    lemma_detect_all(m2, answers, Map::empty());
    assert(!any_detection_fails(m2, answers));
    assert(detected(m2, answers) =~= Map::<Seq<char>, Set<Erc165Interface>>::empty());
    let fresh2 = Map::<Seq<char>, Set<Erc165Interface>>::empty().union_prefer_right(
        detected(m2, answers),
    );
    assert(fresh2 =~= Map::<Seq<char>, Set<Erc165Interface>>::empty());
    assert(fresh2.union_prefer_right(cache1) =~= cache1);
    let a2 = cache_answer(cache1, contracts);
    assert(a2.union_prefer_right(fresh2) =~= a2);
    assert(a2 =~= m1) by {
        assert forall|k: Seq<char>| #[trigger] fresh.contains_key(k) implies !cache.contains_key(k)
            && exists|c: Seq<u8>| contracts.contains(c) && #[trigger] checksum_text(c) == k by {
            let c = choose|c: Seq<u8>|
                m.contains(c) && #[trigger] checksum_text(c) == k && expected_outcome(
                    answers(c),
                ) is Supported;
            assert(contracts.contains(c));
        }
    }
    assert forall|c: Seq<u8>| #[trigger] m2.contains(c) <==> (contracts.contains(c)
        && !m1.contains_key(checksum_text(c))) by {
        if contracts.contains(c) {
            assert(cache1.contains_key(checksum_text(c)) <==> m1.contains_key(checksum_text(c)));
        }
    }
}

} // verus!
