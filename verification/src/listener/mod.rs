//! What a chain listener makes of the logs it watches: the NFTs whose owner
//! changed, and the contracts to ask about.

pub mod errors;
pub mod ethnftid;
pub mod transfer;
pub mod transfer_single;
pub mod transfer_batch;
pub mod uri_getter;

use vstd::prelude::*;
use vstd::arithmetic::power2::pow2;
use crate::ethereum::{
    lemma_be_value_bound, lemma_checksum_parses, abi_uint_array_pair, address_from_str, be_value, checksum_text, parse_address_text,
    to_checksum, u256_decimal, word_is_one,
};
use crate::events::log::Log;
use crate::events::transfer::{TransferEvent, transfer_topic};
use crate::events::transfer_single::{TransferSingleEvent, decodes_as_transfer_single, transfer_single_topic};
use crate::events::transfer_batch::{TransferBatchEvent, decodes_as_transfer_batch, transfer_batch_topic};
use crate::text::{all_decimal_digits, decimal_text, decimal_value, lemma_decimal_text_roundtrip};
use ethnftid::{EthNftId, EthNftIdView};

verus! {

/// The NFT record for `token` (big-endian) of `contract`, now owned by `owner`.
pub open spec fn nft_id_view(chain_id: i64, contract: Seq<u8>, owner: Seq<u8>, token: Seq<u8>) -> EthNftIdView {
    EthNftIdView {
        chain_id,
        contract: checksum_text(contract),
        owner: checksum_text(owner),
        token_id: decimal_text(be_value(token)),
    }
}

/// Whether a log reads as an ERC-721 transfer (`TransferEvent::try_from` succeeds):
/// four topics, the first being the `Transfer` topic.
pub open spec fn reads_as_transfer(log: &Log) -> bool {
    log.topics@.len() == 4 && log.topics@[0]@ == transfer_topic()
}

/// The record of an ERC-721 transfer log: the token of topic 3, owned by the address in topic 2.
pub open spec fn transfer_ids(log: &Log, chain_id: i64) -> Seq<EthNftIdView> {
    if reads_as_transfer(log) {
        seq![
            nft_id_view(
                chain_id,
                log.address@,
                log.topics@[2]@.subrange(12, 32),
                log.topics@[3]@,
            ),
        ]
    } else {
        Seq::empty()
    }
}

/// The record of an ERC-1155 single transfer whose amount is exactly one: the token
/// of the first data word, owned by the address in topic 3.
pub open spec fn single_ids(log: &Log, chain_id: i64) -> Seq<EthNftIdView> {
    if decodes_as_transfer_single(log) && be_value(log.data@.subrange(32, 64)) == 1 {
        seq![
            nft_id_view(
                chain_id,
                log.address@,
                log.topics@[3]@.subrange(12, 32),
                log.data@.subrange(0, 32),
            ),
        ]
    } else {
        Seq::empty()
    }
}

/// The records of the first `n` entries of a batch whose amount is exactly one.
pub open spec fn batch_ids_upto(
    chain_id: i64,
    contract: Seq<u8>,
    owner: Seq<u8>,
    ids: Seq<Seq<u8>>,
    values: Seq<Seq<u8>>,
    n: int,
) -> Seq<EthNftIdView>
    decreases n,
{
    if n <= 0 {
        Seq::empty()
    } else {
        let before = batch_ids_upto(chain_id, contract, owner, ids, values, n - 1);
        if be_value(values[n - 1]) == 1 {
            before.push(nft_id_view(chain_id, contract, owner, ids[n - 1]))
        } else {
            before
        }
    }
}

/// The records of an ERC-1155 batch transfer: one per id whose amount is exactly one.
pub open spec fn batch_ids(log: &Log, chain_id: i64) -> Seq<EthNftIdView> {
    if decodes_as_transfer_batch(log) {
        let (ids, values) = abi_uint_array_pair(log.data@).unwrap();
        batch_ids_upto(
            chain_id,
            log.address@,
            log.topics@[3]@.subrange(12, 32),
            ids,
            values,
            ids.len() as int,
        )
    } else {
        Seq::empty()
    }
}

/// A decoded batch has an amount for each id (reading amounts by the ids' positions
/// does not run past the end).
pub open spec fn batch_well_shaped(log: &Log) -> bool {
    decodes_as_transfer_batch(log) ==> abi_uint_array_pair(log.data@).unwrap().0.len()
        <= abi_uint_array_pair(log.data@).unwrap().1.len()
}

/// Everything a watched log yields, in the order the listener sends it.
pub open spec fn log_ids(log: &Log, chain_id: i64) -> Seq<EthNftIdView> {
    transfer_ids(log, chain_id) + single_ids(log, chain_id) + batch_ids(log, chain_id)
}

/// The NFT records that one watched log yields: an ERC-721 transfer, an ERC-1155
/// single transfer of one token, and the one-token entries of an ERC-1155 batch.
pub fn ids_from_log(log: &Log, chain_id: i64) -> (ids: Vec<EthNftId>)
    requires
        batch_well_shaped(log),
    ensures
        ids@.map_values(|i: EthNftId| i@) == log_ids(log, chain_id),
        log.topics@.len() == 4 && log.topics@[0]@ == transfer_topic() ==> ids@.len() >= 1
            && ids@[0]@ == record_of(chain_id, log.address@, log.topics@[2]@, log.topics@[3]@),
        decodes_as_transfer_single(log) && be_value(log.data@.subrange(32, 64)) == 1 ==> exists|
            i: int,
        |
            0 <= i < ids@.len() && #[trigger] ids@[i]@ == record_of(
                chain_id,
                log.address@,
                log.topics@[3]@,
                log.data@.subrange(0, 32),
            ),
{
    let mut ids: Vec<EthNftId> = Vec::new();
    if let Ok(event) = TransferEvent::try_from(log) {
        ids.push(
            EthNftId {
                chain_id,
                contract: to_checksum(&log.address),
                owner: to_checksum(&event.to),
                token_id: u256_decimal(&event.value),
            },
        );
    }
    assert(ids@.map_values(|i: EthNftId| i@) =~= transfer_ids(log, chain_id));
    let ghost after_transfer = ids@.map_values(|i: EthNftId| i@);
    if let Ok(event) = TransferSingleEvent::try_from(log) {
        if word_is_one(&event.value) {
            ids.push(
                EthNftId {
                    chain_id,
                    contract: to_checksum(&log.address),
                    owner: to_checksum(&event.to),
                    token_id: u256_decimal(&event.id),
                },
            );
        }
    }
    assert(ids@.map_values(|i: EthNftId| i@) =~= after_transfer + single_ids(log, chain_id));
    let ghost after_single = ids@.map_values(|i: EthNftId| i@);
    if let Ok(event) = TransferBatchEvent::try_from(log) {
        let ghost pair = abi_uint_array_pair(log.data@).unwrap();
        let n = event.id.len();
        let mut i: usize = 0;
        assert(ids@.map_values(|i: EthNftId| i@) =~= after_single + batch_ids_upto(
            chain_id,
            log.address@,
            event.to@,
            pair.0,
            pair.1,
            0,
        ));
        while i < n
            invariant
                n == event.id@.len(),
                pair.0 == crate::ethereum::words_view(event.id@),
                pair.1 == crate::ethereum::words_view(event.value@),
                n <= event.value@.len(),
                i <= n,
                ids@.map_values(|i: EthNftId| i@) == after_single + batch_ids_upto(
                    chain_id,
                    log.address@,
                    event.to@,
                    pair.0,
                    pair.1,
                    i as int,
                ),
            decreases n - i,
        {
            assert(pair.1[i as int] == event.value@[i as int]@);
            assert(pair.0[i as int] == event.id@[i as int]@);
            let ghost before = ids@.map_values(|i: EthNftId| i@);
            let ghost prev = batch_ids_upto(chain_id, log.address@, event.to@, pair.0, pair.1, i as int);
            assert(batch_ids_upto(chain_id, log.address@, event.to@, pair.0, pair.1, i + 1) == if be_value(
                pair.1[i as int],
            ) == 1 {
                prev.push(nft_id_view(chain_id, log.address@, event.to@, pair.0[i as int]))
            } else {
                prev
            });
            if word_is_one(&event.value[i]) {
                let rec = EthNftId {
                    chain_id,
                    contract: to_checksum(&log.address),
                    owner: to_checksum(&event.to),
                    token_id: u256_decimal(&event.id[i]),
                };
                assert(rec@ == nft_id_view(chain_id, log.address@, event.to@, pair.0[i as int]));
                ids.push(rec);
                assert(ids@.map_values(|i: EthNftId| i@) =~= before.push(rec@));
            }
            assert(ids@.map_values(|i: EthNftId| i@) =~= after_single + batch_ids_upto(
                chain_id,
                log.address@,
                event.to@,
                pair.0,
                pair.1,
                i + 1,
            ));
            i = i + 1;
        }
    } else {
        assert(ids@.map_values(|i: EthNftId| i@) =~= after_single + batch_ids(log, chain_id));
    }
    proof {
        let all = ids@.map_values(|i: EthNftId| i@);
        if log.topics@.len() == 4 && log.topics@[0]@ == transfer_topic() {
            lemma_transfer_log_yields_its_record(log, chain_id);
            assert(all[0] == ids@[0]@);
        }
        if decodes_as_transfer_single(log) && be_value(log.data@.subrange(32, 64)) == 1 {
            lemma_single_log_yields_its_record(log, chain_id);
            let r = record_of(chain_id, log.address@, log.topics@[3]@, log.data@.subrange(0, 32));
            let k = choose|k: int| 0 <= k < all.len() && all[k] == r;
            assert(ids@[k]@ == all[k]);
        }
    }
    ids
}

/// The record of `token` (a big-endian word) of the contract `contract`, now owned by
/// the address in the last 20 bytes of the word `owner_word`.
pub open spec fn record_of(chain_id: i64, contract: Seq<u8>, owner_word: Seq<u8>, token: Seq<u8>) -> EthNftIdView {
    EthNftIdView {
        chain_id,
        contract: checksum_text(contract),
        owner: checksum_text(owner_word.subrange(12, 32)),
        token_id: decimal_text(be_value(token)),
    }
}

/// A log that reads as an ERC-721 transfer (four topics, the first being the Transfer
/// topic) yields, first, the record of the token in topic 3, owned by the address in
/// topic 2, whatever topic 1 (the sender) holds: the zero address of a mint included.
pub proof fn lemma_transfer_log_yields_its_record(log: &Log, chain_id: i64)
    requires
        log.topics@.len() == 4,
        log.topics@[0]@ == transfer_topic(),
    ensures
        log_ids(log, chain_id).len() >= 1,
        log_ids(log, chain_id)[0] == record_of(
            chain_id,
            log.address@,
            log.topics@[2]@,
            log.topics@[3]@,
        ),
{
}

/// Where the three event topics differ, an ERC-721 transfer log yields exactly one
/// record: its token, owned by the address in topic 2.
pub proof fn lemma_transfer_log_yields_one_record(log: &Log, chain_id: i64)
    requires
        log.topics@.len() == 4,
        log.topics@[0]@ == transfer_topic(),
        transfer_topic() != transfer_single_topic(),
        transfer_topic() != transfer_batch_topic(),
    ensures
        log_ids(log, chain_id) == seq![
            record_of(chain_id, log.address@, log.topics@[2]@, log.topics@[3]@),
        ],
{
    assert(log_ids(log, chain_id) =~= seq![
        record_of(chain_id, log.address@, log.topics@[2]@, log.topics@[3]@),
    ]);
}

/// A log that decodes as an ERC-1155 single transfer of amount one yields the record of
/// the id in the first data word, owned by the address in topic 3, whoever the operator
/// (topic 1) and the sender (topic 2) are.
pub proof fn lemma_single_log_yields_its_record(log: &Log, chain_id: i64)
    requires
        decodes_as_transfer_single(log),
        be_value(log.data@.subrange(32, 64)) == 1,
    ensures
        log_ids(log, chain_id).contains(
            record_of(chain_id, log.address@, log.topics@[3]@, log.data@.subrange(0, 32)),
        ),
{
    let t = transfer_ids(log, chain_id);
    let r = record_of(chain_id, log.address@, log.topics@[3]@, log.data@.subrange(0, 32));
    assert(single_ids(log, chain_id)[0] == r);
    assert(log_ids(log, chain_id)[t.len() as int] == r);
}

/// Where the three event topics differ, a single-transfer log yields exactly the
/// record of its id when its amount is one, and nothing otherwise.
pub proof fn lemma_single_log_yields_one_record(log: &Log, chain_id: i64)
    requires
        decodes_as_transfer_single(log),
        transfer_single_topic() != transfer_topic(),
        transfer_single_topic() != transfer_batch_topic(),
    ensures
        be_value(log.data@.subrange(32, 64)) == 1 ==> log_ids(log, chain_id) == seq![
            record_of(chain_id, log.address@, log.topics@[3]@, log.data@.subrange(0, 32)),
        ],
        be_value(log.data@.subrange(32, 64)) != 1 ==> log_ids(log, chain_id).len() == 0,
{
    if be_value(log.data@.subrange(32, 64)) == 1 {
        assert(log_ids(log, chain_id) =~= seq![
            record_of(chain_id, log.address@, log.topics@[3]@, log.data@.subrange(0, 32)),
        ]);
    }
}

/// The records of a log that is not an ERC-721 transfer do not depend on its topics 1
/// and 2 (the operator and the sender of an ERC-1155 transfer).
pub proof fn lemma_records_ignore_operator_and_sender(l1: &Log, l2: &Log, chain_id: i64)
    requires
        l1.topics@.len() == 4,
        l2.topics@.len() == 4,
        l1.address@ == l2.address@,
        l1.data@ == l2.data@,
        l1.topics@[0]@ == l2.topics@[0]@,
        l1.topics@[3]@ == l2.topics@[3]@,
        l1.topics@[0]@ != transfer_topic(),
    ensures
        log_ids(l1, chain_id) == log_ids(l2, chain_id),
{
    assert(transfer_ids(l1, chain_id) =~= transfer_ids(l2, chain_id));
    assert(single_ids(l1, chain_id) =~= single_ids(l2, chain_id));
    assert(batch_ids(l1, chain_id) =~= batch_ids(l2, chain_id));
}

/// The records that a watched log yields, or `None` for a batch with fewer amounts
/// than ids (where `ids_from_log` has no answer).
pub fn try_ids_from_log(log: &Log, chain_id: i64) -> (r: Option<Vec<EthNftId>>)
    ensures
        r is Some <==> batch_well_shaped(log),
        r matches Some(ids) ==> ids@.map_values(|i: EthNftId| i@) == log_ids(log, chain_id),
{
    if let Ok(event) = TransferBatchEvent::try_from(log) {
        if event.value.len() < event.id.len() {
            return None;
        }
    }
    Some(ids_from_log(log, chain_id))
}

/// Whether every record's contract text parses as an address.
pub fn contracts_parse(ids: &[EthNftId]) -> (r: bool)
    ensures
        r == forall|i: int| 0 <= i < ids@.len() ==> parse_address_text(#[trigger] ids@[i].contract@) is Some,
{
    let mut i: usize = 0;
    while i < ids.len()
        invariant
            i <= ids@.len(),
            forall|j: int| 0 <= j < i ==> parse_address_text(#[trigger] ids@[j].contract@) is Some,
        decreases ids@.len() - i,
    {
        if address_from_str(ids[i].contract.as_str()).is_none() {
            return false;
        }
        i = i + 1;
    }
    true
}

/// The addresses of the records' contracts, parsed back from their text.
pub fn contracts_of(ids: &[EthNftId]) -> (contracts: Vec<[u8; 20]>)
    requires
        forall|i: int| 0 <= i < ids@.len() ==> parse_address_text(#[trigger] ids@[i].contract@) is Some,
    ensures
        contracts@.len() == ids@.len(),
        forall|i: int| 0 <= i < ids@.len() ==> parse_address_text(#[trigger] ids@[i].contract@)
            == Some(contracts@[i]@),
{
    let mut contracts: Vec<[u8; 20]> = Vec::new();
    let mut i: usize = 0;
    while i < ids.len()
        invariant
            i <= ids@.len(),
            forall|j: int| 0 <= j < ids@.len() ==> parse_address_text(#[trigger] ids@[j].contract@) is Some,
            contracts@.len() == i,
            forall|j: int| 0 <= j < i ==> parse_address_text(#[trigger] ids@[j].contract@) == Some(
                contracts@[j]@,
            ),
        decreases ids@.len() - i,
    {
        let c = match address_from_str(ids[i].contract.as_str()) {
            Some(c) => c,
            None => {
                assert(parse_address_text(ids@[i as int].contract@) is Some);
                [0u8; 20]
            },
        };
        contracts.push(c);
        i = i + 1;
    }
    contracts
}

/// A record built from a 20-byte contract, a 20-byte owner and a 32-byte token.
pub open spec fn well_formed_record(r: EthNftIdView, chain_id: i64, contract: Seq<u8>) -> bool {
    &&& parse_address_text(r.contract) == Some(contract)
    &&& parse_address_text(r.owner) is Some
    &&& all_decimal_digits(r.token_id)
    &&& decimal_value(r.token_id) < pow2(256)
    &&& r.chain_id == chain_id
}

proof fn lemma_nft_id_view_well_formed(chain_id: i64, contract: Seq<u8>, owner: Seq<u8>, token: Seq<u8>)
    requires
        contract.len() == 20,
        owner.len() == 20,
        token.len() == 32,
    ensures
        well_formed_record(nft_id_view(chain_id, contract, owner, token), chain_id, contract),
{
    lemma_checksum_parses(contract);
    lemma_checksum_parses(owner);
    lemma_be_value_bound(token);
    lemma_decimal_text_roundtrip(be_value(token));
}

proof fn lemma_batch_ids_well_formed(
    chain_id: i64,
    contract: Seq<u8>,
    owner: Seq<u8>,
    ids: Seq<Seq<u8>>,
    values: Seq<Seq<u8>>,
    n: int,
)
    requires
        contract.len() == 20,
        owner.len() == 20,
        n <= ids.len(),
        forall|k: int| 0 <= k < ids.len() ==> (#[trigger] ids[k]).len() == 32,
    ensures
        forall|j: int| 0 <= j < batch_ids_upto(chain_id, contract, owner, ids, values, n).len()
            ==> well_formed_record(
            #[trigger] batch_ids_upto(chain_id, contract, owner, ids, values, n)[j],
            chain_id,
            contract,
        ),
    decreases n,
{
    if n > 0 {
        lemma_batch_ids_well_formed(chain_id, contract, owner, ids, values, n - 1);
        lemma_nft_id_view_well_formed(chain_id, contract, owner, ids[n - 1]);
        let prev = batch_ids_upto(chain_id, contract, owner, ids, values, n - 1);
        let cur = batch_ids_upto(chain_id, contract, owner, ids, values, n);
        assert forall|j: int| 0 <= j < cur.len() implies well_formed_record(
            #[trigger] cur[j],
            chain_id,
            contract,
        ) by {
            if j < prev.len() {
                assert(cur[j] == prev[j]);
            }
        }
    }
}

/// Every record that a log yields names its contract by text that parses back to the
/// emitting address and its owner by parseable text, and renders its token in decimal
/// digits of a number below 2^256; so the listener can always turn its records back
/// into addresses (`contracts_of`) and token numbers (`U256::from_dec_str`).
pub proof fn lemma_log_ids_parse_back(log: &Log, chain_id: i64)
    ensures
        forall|j: int| 0 <= j < log_ids(log, chain_id).len() ==> well_formed_record(
            #[trigger] log_ids(log, chain_id)[j],
            chain_id,
            log.address@,
        ),
{
    if reads_as_transfer(log) {
        lemma_nft_id_view_well_formed(
            chain_id,
            log.address@,
            log.topics@[2]@.subrange(12, 32),
            log.topics@[3]@,
        );
    }
    if decodes_as_transfer_single(log) && be_value(log.data@.subrange(32, 64)) == 1 {
        lemma_nft_id_view_well_formed(
            chain_id,
            log.address@,
            log.topics@[3]@.subrange(12, 32),
            log.data@.subrange(0, 32),
        );
    }
    if decodes_as_transfer_batch(log) {
        let (ids, values) = abi_uint_array_pair(log.data@).unwrap();
        lemma_batch_ids_well_formed(
            chain_id,
            log.address@,
            log.topics@[3]@.subrange(12, 32),
            ids,
            values,
            ids.len() as int,
        );
    }
    let t = transfer_ids(log, chain_id);
    let si = single_ids(log, chain_id);
    let b = batch_ids(log, chain_id);
    assert forall|j: int| 0 <= j < log_ids(log, chain_id).len() implies well_formed_record(
        #[trigger] log_ids(log, chain_id)[j],
        chain_id,
        log.address@,
    ) by {
        if j < t.len() {
            assert(log_ids(log, chain_id)[j] == t[j]);
        } else if j < t.len() + si.len() {
            assert(log_ids(log, chain_id)[j] == si[j - t.len()]);
        } else {
            assert(log_ids(log, chain_id)[j] == b[j - t.len() - si.len()]);
        }
    }
}

/// The contracts that the listener asks about for a log's records (what `contracts_of`
/// parses back from them) are the contract that emitted the log, once per record.
pub proof fn lemma_records_name_the_emitting_contract(
    log: &Log,
    chain_id: i64,
    contracts: Seq<Seq<u8>>,
)
    requires
        contracts.len() == log_ids(log, chain_id).len(),
        forall|i: int| 0 <= i < contracts.len() ==> parse_address_text(
            #[trigger] log_ids(log, chain_id)[i].contract,
        ) == Some(contracts[i]),
    ensures
        forall|i: int| 0 <= i < contracts.len() ==> #[trigger] contracts[i] == log.address@,
{
    lemma_log_ids_parse_back(log, chain_id);
    assert forall|i: int| 0 <= i < contracts.len() implies #[trigger] contracts[i] == log.address@ by {
        assert(well_formed_record(log_ids(log, chain_id)[i], chain_id, log.address@));
    }
}

} // verus!
