//! Which writes bring the store in line with a freshly observed record.

use vstd::prelude::*;
use vstd::string::*;
use super::dto::{EthDto, NewEthDto, Timestamp, later_than};
use super::errors::RepoError;
use crate::listener::uri_getter::opt_view;

verus! {

/// The owner text of a burned token.
pub open spec fn zero_address_text() -> Seq<char> {
    "0x0000000000000000000000000000000000000000"@
}

/// One write to the record store.
#[derive(Debug)]
pub enum WriteOp {
    /// Insert the record.
    Insert(NewEthDto),
    /// Insert the record; where one with its chain, token and contract exists, set that
    /// one's owner instead.
    Upsert(NewEthDto),
    /// Set the owner of the stored record `id`.
    UpdateOwner { id: i32, owner: String },
    /// Delete the stored record `id`.
    Delete { id: i32 },
}

/// The writes for a newly observed record (`nft`), given the stored record of its
/// chain, contract and token, if any:
/// - none stored: upsert the new record;
/// - stored, and the new one is strictly later: set the owner, deleting the record
///   first when the new owner is the zero address (a burn);
/// - stored and not older than the new one: nothing.
/// The writes run in order and stop at the first failure.
pub fn plan_upsert(nft: NewEthDto, existing: Option<&EthDto>) -> (ops: Vec<WriteOp>)
    ensures
        existing is None ==> ops@.len() == 1 && ops@[0] == WriteOp::Upsert(nft),
        existing matches Some(ent) ==> {
            &&& !later_than(nft.updated_at, ent.updated_at) ==> ops@.len() == 0
            &&& later_than(nft.updated_at, ent.updated_at) && nft.owner@ == zero_address_text()
                ==> ops@.len() == 2 && ops@[0] == WriteOp::Delete { id: ent.id } && (
            ops@[1] matches WriteOp::UpdateOwner { id, owner } && id == ent.id && owner@
                == nft.owner@)
            &&& later_than(nft.updated_at, ent.updated_at) && nft.owner@ != zero_address_text()
                ==> ops@.len() == 1 && (ops@[0] matches WriteOp::UpdateOwner { id, owner } && id
                == ent.id && owner@ == nft.owner@)
        },
{
    let mut ops: Vec<WriteOp> = Vec::new();
    match existing {
        None => {
            ops.push(WriteOp::Upsert(nft));
        },
        Some(ent) => {
            if nft.updated_at.is_after(&ent.updated_at) {
                let burn = String::from_str("0x0000000000000000000000000000000000000000");
                if nft.owner == burn {
                    ops.push(WriteOp::Delete { id: ent.id });
                }
                ops.push(WriteOp::UpdateOwner { id: ent.id, owner: nft.owner });
            }
        },
    }
    ops
}

/// The write for a record in a full refresh: set the stored record's owner where one
/// exists for its chain, contract and token, insert it otherwise.
pub fn plan_full_upsert(nft: NewEthDto, existing: Option<&EthDto>) -> (op: WriteOp)
    ensures
        existing is None ==> op == WriteOp::Insert(nft),
        existing matches Some(ent) ==> (op matches WriteOp::UpdateOwner { id, owner } && id
            == ent.id && owner@ == nft.owner@),
{
    match existing {
        None => WriteOp::Insert(nft),
        Some(ent) => WriteOp::UpdateOwner { id: ent.id, owner: nft.owner },
    }
}

/// How one observed record fared in a pass that writes observed transfers.
#[derive(Debug, Clone, Copy, PartialEq, Eq, Structural)]
pub enum RecordPass {
    /// No connection could be had for it.
    NoConnection,
    /// Its query or one of its writes failed with this error.
    Failed(RepoError),
    /// The task that made its writes did not complete.
    TaskLost,
    /// Its writes were made (or it needed none).
    Written,
}

/// Whether a pass over observed records goes on after one record (`Ok`) or ends with
/// an error: a missing connection or a lost task ends it; the failure of one record's
/// query or writes is dropped, and the pass goes on with the next record.
pub fn after_record(pass: RecordPass) -> (r: Result<(), RepoError>)
    ensures
        pass == RecordPass::NoConnection ==> r == Err::<(), RepoError>(
            RepoError::FailedToGetConnection,
        ),
        pass == RecordPass::TaskLost ==> r == Err::<(), RepoError>(RepoError::DatabaseError),
        pass is Failed || pass is Written ==> r is Ok,
{
    match pass {
        RecordPass::NoConnection => Err(RepoError::FailedToGetConnection),
        RecordPass::TaskLost => Err(RepoError::DatabaseError),
        RecordPass::Failed(_) => Ok(()),
        RecordPass::Written => Ok(()),
    }
}

/// What the store keeps of a record besides its chain, contract and token.
pub struct StoredRecord {
    pub contract_type: Seq<char>,
    pub owner: Seq<char>,
    pub uri: Option<Seq<char>>,
    pub name: Option<Seq<char>>,
    pub symbol: Option<Seq<char>>,
    pub updated_at: Timestamp,
}

/// The identity of a record in the store: its chain, contract and token.
pub open spec fn record_key(nft: NewEthDto) -> (i64, Seq<char>, Seq<char>) {
    (nft.chain_id, nft.contract@, nft.token_id@)
}

/// What the store keeps of a new record.
pub open spec fn stored_record(nft: NewEthDto) -> StoredRecord {
    StoredRecord {
        contract_type: nft.contract_type@,
        owner: nft.owner@,
        uri: opt_view(nft.uri),
        name: opt_view(nft.name),
        symbol: opt_view(nft.symbol),
        updated_at: nft.updated_at,
    }
}

/// A stored record with its owner set.
pub open spec fn with_owner(r: StoredRecord, owner: Seq<char>) -> StoredRecord {
    StoredRecord {
        contract_type: r.contract_type,
        owner,
        uri: r.uri,
        name: r.name,
        symbol: r.symbol,
        updated_at: r.updated_at,
    }
}

/// The store after the write that `plan_full_upsert` plans for `nft`: the owner of the
/// record stored under its identity is set, or the record is inserted.
pub open spec fn full_refresh_step(
    t: Map<(i64, Seq<char>, Seq<char>), StoredRecord>,
    nft: NewEthDto,
) -> Map<(i64, Seq<char>, Seq<char>), StoredRecord> {
    let k = record_key(nft);
    if t.contains_key(k) {
        t.insert(k, with_owner(t[k], nft.owner@))
    } else {
        t.insert(k, stored_record(nft))
    }
}

/// The store after a full refresh with `nfts`, written in order, every write succeeding.
pub open spec fn full_refresh(
    t: Map<(i64, Seq<char>, Seq<char>), StoredRecord>,
    nfts: Seq<NewEthDto>,
) -> Map<(i64, Seq<char>, Seq<char>), StoredRecord>
    decreases nfts.len(),
{
    if nfts.len() == 0 {
        t
    } else {
        full_refresh_step(full_refresh(t, nfts.drop_last()), nfts.last())
    }
}

/// Whether some record of `nfts` has the identity `k`.
pub open spec fn names_key(nfts: Seq<NewEthDto>, k: (i64, Seq<char>, Seq<char>)) -> bool
    decreases nfts.len(),
{
    nfts.len() > 0 && (record_key(nfts.last()) == k || names_key(nfts.drop_last(), k))
}

/// The owner of the last record of `nfts` with the identity `k`.
pub open spec fn last_owner(nfts: Seq<NewEthDto>, k: (i64, Seq<char>, Seq<char>)) -> Seq<char>
    decreases nfts.len(),
{
    if nfts.len() == 0 {
        Seq::empty()
    } else if record_key(nfts.last()) == k {
        nfts.last().owner@
    } else {
        last_owner(nfts.drop_last(), k)
    }
}

/// After a full refresh every record of the list is stored, owned by the last owner
/// the list gives it, and nothing stored before is gone.
pub proof fn lemma_full_refresh_owners(
    t: Map<(i64, Seq<char>, Seq<char>), StoredRecord>,
    nfts: Seq<NewEthDto>,
)
    ensures
        forall|k: (i64, Seq<char>, Seq<char>)| t.contains_key(k) ==> #[trigger] full_refresh(
            t,
            nfts,
        ).contains_key(k),
        forall|k: (i64, Seq<char>, Seq<char>)| #[trigger] names_key(nfts, k) ==> full_refresh(
            t,
            nfts,
        ).contains_key(k) && full_refresh(t, nfts)[k].owner == last_owner(nfts, k),
    decreases nfts.len(),
{
    if nfts.len() > 0 {
        let rest = nfts.drop_last();
        lemma_full_refresh_owners(t, rest);
        assert forall|k: (i64, Seq<char>, Seq<char>)| #[trigger] names_key(nfts, k) implies full_refresh(
            t,
            nfts,
        ).contains_key(k) && full_refresh(t, nfts)[k].owner == last_owner(nfts, k) by {
            if record_key(nfts.last()) != k {
                assert(names_key(rest, k));
            }
        }
    }
}

/// A full refresh of a store that already holds every record of the list only sets
/// owners: each record of the list gets the last owner the list gives it.
pub proof fn lemma_full_refresh_of_stored(
    t: Map<(i64, Seq<char>, Seq<char>), StoredRecord>,
    nfts: Seq<NewEthDto>,
)
    requires
        forall|k: (i64, Seq<char>, Seq<char>)| #[trigger] names_key(nfts, k) ==> t.contains_key(k),
    ensures
        full_refresh(t, nfts) == Map::new(
            |k: (i64, Seq<char>, Seq<char>)| t.contains_key(k),
            |k: (i64, Seq<char>, Seq<char>)|
                if names_key(nfts, k) {
                    with_owner(t[k], last_owner(nfts, k))
                } else {
                    t[k]
                },
        ),
    decreases nfts.len(),
{
    let want = Map::new(
        |k: (i64, Seq<char>, Seq<char>)| t.contains_key(k),
        |k: (i64, Seq<char>, Seq<char>)|
            if names_key(nfts, k) {
                with_owner(t[k], last_owner(nfts, k))
            } else {
                t[k]
            },
    );
    if nfts.len() == 0 {
        assert(full_refresh(t, nfts) =~= want);
    } else {
        let rest = nfts.drop_last();
        assert forall|k: (i64, Seq<char>, Seq<char>)| #[trigger] names_key(rest, k) implies t.contains_key(k) by {
            assert(names_key(nfts, k));
        }
        lemma_full_refresh_of_stored(t, rest);
        assert(names_key(nfts, record_key(nfts.last())));
        assert(full_refresh(t, nfts) =~= want);
    }
}

/// A full refresh is idempotent: refreshing again with the same records, every write
/// succeeding, leaves the store as the first refresh left it.
pub proof fn lemma_full_refresh_idempotent(
    t: Map<(i64, Seq<char>, Seq<char>), StoredRecord>,
    nfts: Seq<NewEthDto>,
)
    ensures
        full_refresh(full_refresh(t, nfts), nfts) == full_refresh(t, nfts),
{
    let r = full_refresh(t, nfts);
    lemma_full_refresh_owners(t, nfts);
    lemma_full_refresh_of_stored(r, nfts);
    assert(full_refresh(r, nfts) =~= r);
}

} // verus!
