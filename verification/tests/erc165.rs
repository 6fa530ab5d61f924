use formula::erc165::cache_service::{cache_key, merge_lookup, rows_to_store, split_cached};
use formula::erc165::erc165_interfaces::{
    Erc165Interface, Erc165InterfaceSet, ERC1155, ERC1155_METADATA, ERC165, ERC165N, ERC721,
    ERC721_ENUMERABLE, ERC721_METADATA,
};
use formula::erc165::errors::Erc165ServiceErrors;
use formula::erc165::model::{Erc165Dto, NewErc165Dto};
use formula::erc165::network_service::{record_outcome, Erc165Probe, ProbeOutcome, ProbeStep};
use formula::erc165::service::Erc165Res;

fn set_of(items: &[Erc165Interface]) -> Erc165InterfaceSet {
    let mut s = Erc165InterfaceSet::new();
    for i in items {
        s.insert(*i);
    }
    s
}

fn members(s: &Erc165InterfaceSet) -> Vec<Erc165Interface> {
    let all = [
        Erc165Interface::ERC721,
        Erc165Interface::ERC721Metadata,
        Erc165Interface::ERC721Enumerable,
        Erc165Interface::ERC1155,
        Erc165Interface::ERC1155Metadata,
    ];
    all.iter().copied().filter(|i| s.contains(i)).collect()
}

/// Runs the probe against fixed answers; `None` marks a failing call.
fn run_probe(answer: impl Fn(u32) -> Option<bool>) -> (ProbeOutcome, Vec<u32>) {
    let mut asked = Vec::new();
    let mut step = Erc165Probe::start();
    loop {
        match step {
            ProbeStep::Ask { probe, interface_id } => {
                asked.push(interface_id);
                step = probe.on_reply(answer(interface_id));
            }
            ProbeStep::Done(outcome) => return (outcome, asked),
        }
    }
}

#[test]
fn interface_ids_match_the_standards() {
    assert_eq!(Erc165Interface::ERC721.id(), 0x80ac58cd);
    assert_eq!(Erc165Interface::ERC721Metadata.id(), 0x5b5e139f);
    assert_eq!(Erc165Interface::ERC721Enumerable.id(), 0x780e9d63);
    assert_eq!(Erc165Interface::ERC1155.id(), 0xd9b67a26);
    assert_eq!(Erc165Interface::ERC1155Metadata.id(), 0x0e89341c);
    assert_eq!(ERC165, 0x01ffc9a7);
    assert_eq!(ERC165N, 0xffffffff);
}

#[test]
fn interface_set_inserts_once() {
    let mut s = Erc165InterfaceSet::new();
    assert_eq!(s.len(), 0);
    assert!(s.insert(Erc165Interface::ERC721));
    assert!(!s.insert(Erc165Interface::ERC721));
    assert!(s.insert(Erc165Interface::ERC1155Metadata));
    assert_eq!(s.len(), 2);
    assert!(s.contains(&Erc165Interface::ERC721));
    assert!(!s.contains(&Erc165Interface::ERC1155));
    assert_eq!(members(&s.copied()), members(&s));
}

#[test]
fn cache_row_roundtrip() {
    let s = set_of(&[Erc165Interface::ERC721, Erc165Interface::ERC721Enumerable]);
    let row = NewErc165Dto::new("0xAbc".to_string(), 5, &s);
    assert!(row.erc721 && row.erc721_enumerable);
    assert!(!row.erc721_metadata && !row.erc1155 && !row.erc1155_metadata);
    let stored = Erc165Dto {
        id: 9,
        contract: row.contract.clone(),
        chain_id: row.chain_id,
        erc721: row.erc721,
        erc721_enumerable: row.erc721_enumerable,
        erc721_metadata: row.erc721_metadata,
        erc1155: row.erc1155,
        erc1155_metadata: row.erc1155_metadata,
    };
    let (contract, back) = stored.into();
    assert_eq!(contract, "0xAbc");
    assert_eq!(members(&back), members(&s));
}

#[test]
fn res_insert_get_extend() {
    let mut a = Erc165Res::new();
    a.insert("x".to_string(), set_of(&[Erc165Interface::ERC721]));
    a.insert("y".to_string(), set_of(&[Erc165Interface::ERC1155]));
    a.insert("x".to_string(), set_of(&[Erc165Interface::ERC721Metadata]));
    assert_eq!(members(a.get(&"x".to_string()).unwrap()), vec![Erc165Interface::ERC721Metadata]);
    assert!(a.get(&"z".to_string()).is_none());
    let mut b = Erc165Res::new();
    b.insert("y".to_string(), Erc165InterfaceSet::new());
    b.insert("z".to_string(), set_of(&[Erc165Interface::ERC1155]));
    a.extend(b);
    assert_eq!(members(a.get(&"y".to_string()).unwrap()), vec![]);
    assert_eq!(members(a.get(&"z".to_string()).unwrap()), vec![Erc165Interface::ERC1155]);
    assert!(a.contains_key(&"x".to_string()));
}

#[test]
fn probe_non_erc165_contract_is_skipped() {
    let (o, asked) = run_probe(|_| Some(false));
    assert!(matches!(o, ProbeOutcome::NotErc165));
    assert_eq!(asked, vec![ERC165]);
    // A failing first call counts as "no".
    let (o, _) = run_probe(|_| None);
    assert!(matches!(o, ProbeOutcome::NotErc165));
}

#[test]
fn probe_erc165n_gives_empty_set() {
    let (o, asked) = run_probe(|_| Some(true));
    match o {
        ProbeOutcome::Supported(s) => assert_eq!(s.len(), 0),
        _ => panic!("expected a recorded contract"),
    }
    assert_eq!(asked, vec![ERC165, ERC165N]);
}

#[test]
fn probe_erc721_with_metadata() {
    let (o, asked) = run_probe(|id| Some(id == ERC165 || id == ERC721 || id == ERC721_METADATA));
    match o {
        ProbeOutcome::Supported(s) => assert_eq!(
            members(&s),
            vec![Erc165Interface::ERC721, Erc165Interface::ERC721Metadata]
        ),
        _ => panic!("expected a recorded contract"),
    }
    assert_eq!(asked, vec![ERC165, ERC165N, ERC721, ERC721_METADATA, ERC721_ENUMERABLE]);
}

#[test]
fn probe_erc1155_with_metadata() {
    let (o, asked) = run_probe(|id| Some(id == ERC165 || id == ERC1155 || id == ERC1155_METADATA));
    match o {
        ProbeOutcome::Supported(s) => assert_eq!(
            members(&s),
            vec![Erc165Interface::ERC1155, Erc165Interface::ERC1155Metadata]
        ),
        _ => panic!("expected a recorded contract"),
    }
    assert_eq!(asked, vec![ERC165, ERC165N, ERC721, ERC1155, ERC1155_METADATA]);
}

#[test]
fn probe_neither_standard_gives_empty_set() {
    let (o, _) = run_probe(|id| Some(id == ERC165));
    match o {
        ProbeOutcome::Supported(s) => assert_eq!(s.len(), 0),
        _ => panic!("expected a recorded contract"),
    }
}

#[test]
fn probe_failure_after_first_call_fails() {
    let (o, _) = run_probe(|id| if id == ERC721 { None } else { Some(id == ERC165) });
    assert!(matches!(o, ProbeOutcome::Failed(Erc165ServiceErrors::FailedToQueryChain)));
}

#[test]
fn record_outcome_uses_checksummed_key() {
    let addr = [0x11u8; 20];
    let mut res = Erc165Res::new();
    assert!(record_outcome(&mut res, &addr, ProbeOutcome::NotErc165).is_ok());
    assert!(!res.contains_key(&cache_key(&addr)));
    let set = set_of(&[Erc165Interface::ERC721]);
    assert!(record_outcome(&mut res, &addr, ProbeOutcome::Supported(set)).is_ok());
    assert_eq!(
        members(res.get(&cache_key(&addr)).unwrap()),
        vec![Erc165Interface::ERC721]
    );
    let r = record_outcome(
        &mut res,
        &addr,
        ProbeOutcome::Failed(Erc165ServiceErrors::FailedToQueryChain),
    );
    assert_eq!(r, Err(Erc165ServiceErrors::FailedToQueryChain));
}

fn dto(contract: &str, erc721: bool, erc1155: bool) -> Erc165Dto {
    Erc165Dto {
        id: 1,
        contract: contract.to_string(),
        chain_id: 1,
        erc721,
        erc721_enumerable: false,
        erc721_metadata: false,
        erc1155,
        erc1155_metadata: false,
    }
}

#[test]
fn cache_split_store_and_merge() {
    let a = [1u8; 20];
    let b = [2u8; 20];
    let c = [3u8; 20];
    let (cached, misses) = split_cached(&[a, b, c], vec![Some(dto("A", true, false)), None, None]);
    assert_eq!(misses, vec![b, c]);
    assert_eq!(members(cached.get(&"A".to_string()).unwrap()), vec![Erc165Interface::ERC721]);

    let mut fresh = Erc165Res::new();
    fresh.insert("B".to_string(), set_of(&[Erc165Interface::ERC1155]));
    fresh.insert("A".to_string(), Erc165InterfaceSet::new());
    let rows = rows_to_store(&fresh, 7);
    assert_eq!(rows.len(), 2);
    assert!(rows.iter().all(|r| r.chain_id == 7));
    let b_row = rows.iter().find(|r| r.contract == "B").unwrap();
    assert!(b_row.erc1155 && !b_row.erc721);

    let merged = merge_lookup(cached, fresh, true).ok().unwrap();
    assert_eq!(members(merged.get(&"A".to_string()).unwrap()), vec![]);
    assert_eq!(members(merged.get(&"B".to_string()).unwrap()), vec![Erc165Interface::ERC1155]);

    let failed = merge_lookup(Erc165Res::new(), Erc165Res::new(), false);
    assert!(matches!(failed, Err(Erc165ServiceErrors::FailedToQueryDB)));
}

#[test]
fn erc165_error_messages() {
    assert_eq!(
        Erc165ServiceErrors::FailedToQueryChain.message(),
        "Failed to query the chain for the data"
    );
    assert_eq!(
        Erc165ServiceErrors::FailedToQueryDB.message(),
        "Failed to query the chain for the data"
    );
}

#[test]
fn cache_key_is_eip55_checksum() {
    let raw = ethers::utils::hex::decode("5aaeb6053f3e94c9b9a09f33669435e7ef1beaed").unwrap();
    let mut a = [0u8; 20];
    a.copy_from_slice(&raw);
    assert_eq!(cache_key(&a), "0x5aAeb6053F3E94C9b9A09f33669435E7Ef1BeAed");
}

#[test]
fn stored_rows_read_back_as_the_fresh_answer() {
    let mut fresh = Erc165Res::new();
    fresh.insert("0xA".to_string(), set_of(&[Erc165Interface::ERC721, Erc165Interface::ERC721Metadata]));
    fresh.insert("0xB".to_string(), set_of(&[Erc165Interface::ERC1155]));
    fresh.insert("0xC".to_string(), Erc165InterfaceSet::new());
    let rows = rows_to_store(&fresh, 3);
    let hits: Vec<Option<Erc165Dto>> = rows
        .into_iter()
        .enumerate()
        .map(|(i, r)| {
            Some(Erc165Dto {
                id: i as i32 + 100,
                contract: r.contract,
                chain_id: r.chain_id,
                erc721: r.erc721,
                erc721_enumerable: r.erc721_enumerable,
                erc721_metadata: r.erc721_metadata,
                erc1155: r.erc1155,
                erc1155_metadata: r.erc1155_metadata,
            })
        })
        .collect();
    let contracts = vec![[0u8; 20]; hits.len()];
    let (cached, misses) = split_cached(&contracts, hits);
    assert!(misses.is_empty());
    for k in ["0xA", "0xB", "0xC"] {
        let key = k.to_string();
        assert_eq!(members(cached.get(&key).unwrap()), members(fresh.get(&key).unwrap()));
    }
}

/// Detects each contract in turn, contract `c` answering `answer(c, id)`, recording
/// each outcome as the network service does.
fn detect(
    contracts: &[[u8; 20]],
    answer: &dyn Fn([u8; 20], u32) -> Option<bool>,
) -> Result<Erc165Res, Erc165ServiceErrors> {
    let mut res = Erc165Res::new();
    for c in contracts {
        let (o, _) = run_probe(|id| answer(*c, id));
        record_outcome(&mut res, c, o)?;
    }
    Ok(res)
}

fn answers_by_contract(c: [u8; 20], id: u32) -> Option<bool> {
    match c[0] {
        1 => Some(id == ERC165 || id == ERC721 || id == ERC721_ENUMERABLE),
        2 => Some(id == ERC165 || id == ERC1155),
        3 => Some(false),
        _ => if id == ERC165 { Some(true) } else { None },
    }
}

fn same_answer(a: &Erc165Res, b: &Erc165Res, contracts: &[[u8; 20]]) -> bool {
    contracts.iter().all(|c| {
        let k = cache_key(c);
        match (a.get(&k), b.get(&k)) {
            (Some(x), Some(y)) => members(x) == members(y),
            (None, None) => true,
            _ => false,
        }
    })
}

#[test]
fn detection_ignores_order_and_repetition() {
    let (a, b, c) = ([1u8; 20], [2u8; 20], [3u8; 20]);
    let first = detect(&[a, b, c], &answers_by_contract).ok().unwrap();
    let second = detect(&[c, b, a, b, c], &answers_by_contract).ok().unwrap();
    assert!(same_answer(&first, &second, &[a, b, c]));
    assert!(first.contains_key(&cache_key(&a)) && !first.contains_key(&cache_key(&c)));
    let failing = [4u8; 20];
    assert!(detect(&[a, failing], &answers_by_contract).is_err());
    assert!(detect(&[failing, b, a], &answers_by_contract).is_err());
}

fn row_copy(r: &Erc165Dto) -> Erc165Dto {
    Erc165Dto {
        id: r.id,
        contract: r.contract.clone(),
        chain_id: r.chain_id,
        erc721: r.erc721,
        erc721_enumerable: r.erc721_enumerable,
        erc721_metadata: r.erc721_metadata,
        erc1155: r.erc1155,
        erc1155_metadata: r.erc1155_metadata,
    }
}

/// One cached lookup against an in-memory cache; gives the answer and the contracts
/// asked about on the chain.
fn cached_lookup(
    cache: &mut Vec<Erc165Dto>,
    contracts: &[[u8; 20]],
) -> (Erc165Res, Vec<[u8; 20]>) {
    let hits: Vec<Option<Erc165Dto>> = contracts
        .iter()
        .map(|c| cache.iter().find(|r| r.contract == cache_key(c)).map(row_copy))
        .collect();
    let (cached, misses) = split_cached(contracts, hits);
    let fresh = detect(&misses, &answers_by_contract).ok().unwrap();
    for row in rows_to_store(&fresh, 1) {
        if !cache.iter().any(|r| r.contract == row.contract) {
            let id = cache.len() as i32 + 1;
            cache.push(Erc165Dto {
                id,
                contract: row.contract,
                chain_id: row.chain_id,
                erc721: row.erc721,
                erc721_enumerable: row.erc721_enumerable,
                erc721_metadata: row.erc721_metadata,
                erc1155: row.erc1155,
                erc1155_metadata: row.erc1155_metadata,
            });
        }
    }
    (merge_lookup(cached, fresh, true).ok().unwrap(), misses)
}

#[test]
fn second_cached_lookup_gives_the_same_answer() {
    let (a, b, c) = ([1u8; 20], [2u8; 20], [3u8; 20]);
    let mut cache = Vec::new();
    let (first, asked_first) = cached_lookup(&mut cache, &[a, b, c]);
    assert_eq!(asked_first, vec![a, b, c]);
    assert_eq!(cache.len(), 2);
    let (second, asked_second) = cached_lookup(&mut cache, &[a, b, c]);
    assert!(same_answer(&first, &second, &[a, b, c]));
    assert_eq!(asked_second, vec![c]);
    assert_eq!(cache.len(), 2);
}
