use ethers::abi::{encode, Token};
use ethers::types::U256;
use formula::erc165::erc165_interfaces::{Erc165Interface, Erc165InterfaceSet};
use formula::erc165::service::Erc165Res;
use formula::ethdto::dto::Timestamp;
use formula::erc165::cache_service::cache_key as to_checksum;
use formula::events::errors::EventParsingError;
use formula::events::log::Log;
use formula::listener::errors::ListenerError;
use formula::listener::ethnftid::EthNftId;
use formula::listener::transfer::Transfer;
use formula::listener::transfer_batch::TransferBatchEvent;
use formula::listener::transfer_single::Transfer as PlainTransfer;
use formula::listener::uri_getter::{
    non_empty, plan_uri_lookup, record_for_erc1155, record_for_erc721, uri_lookup_ok, UriLookup,
};
use formula::listener::{contracts_of, contracts_parse, ids_from_log, try_ids_from_log};

fn hex32(s: &str) -> [u8; 32] {
    let v = ethers::utils::hex::decode(s).unwrap();
    let mut w = [0u8; 32];
    w.copy_from_slice(&v);
    w
}

fn addr_word(a: [u8; 20]) -> [u8; 32] {
    let mut w = [0u8; 32];
    w[12..].copy_from_slice(&a);
    w
}

fn num_word(n: u64) -> [u8; 32] {
    <[u8; 32]>::from(U256::from(n))
}

const TRANSFER: &str = "ddf252ad1be2c89b69c2b068fc378daa952ba7f163c4a11628f55a4df523b3ef";
const SINGLE: &str = "c3d58168c5ae7397731d063d5bbf3d657854427343f4c083240f7aacaa2d0f62";
const BATCH: &str = "4a39dc06d4c0dbc64b70af90fd698a233a518aa5d07e595d983b8c0526c8f7fb";

#[test]
fn erc721_transfer_yields_its_token() {
    let contract = [0xaa; 20];
    let log = Log {
        address: contract,
        topics: vec![hex32(TRANSFER), addr_word([2; 20]), addr_word([3; 20]), num_word(42)],
        data: vec![],
    };
    let ids = ids_from_log(&log, 1);
    assert_eq!(ids.len(), 1);
    assert_eq!(ids[0].contract, to_checksum(&contract));
    assert_eq!(ids[0].owner, to_checksum(&[3; 20]));
    assert_eq!(ids[0].token_id, "42");
    assert_eq!(ids[0].chain_id, 1);
}

#[test]
fn single_transfer_of_one_yields_its_token() {
    let data = encode(&[Token::Uint(U256::from(77)), Token::Uint(U256::from(1))]);
    let log = Log {
        address: [0xbb; 20],
        topics: vec![hex32(SINGLE), addr_word([4; 20]), addr_word([5; 20]), addr_word([6; 20])],
        data,
    };
    let ids = ids_from_log(&log, 137);
    assert_eq!(ids.len(), 1);
    assert_eq!(ids[0].token_id, "77");
    assert_eq!(ids[0].owner, to_checksum(&[6; 20]));
    assert_eq!(ids[0].contract, to_checksum(&[0xbb; 20]));
    assert_eq!(ids[0].chain_id, 137);
}

#[test]
fn single_transfer_of_several_yields_nothing() {
    let data = encode(&[Token::Uint(U256::from(77)), Token::Uint(U256::from(2))]);
    let log = Log {
        address: [0xbb; 20],
        topics: vec![hex32(SINGLE), addr_word([4; 20]), addr_word([5; 20]), addr_word([6; 20])],
        data,
    };
    assert!(ids_from_log(&log, 137).is_empty());
}

#[test]
fn batch_yields_one_token_entries() {
    let data = encode(&[
        Token::Array(vec![Token::Uint(U256::from(10)), Token::Uint(U256::from(11)), Token::Uint(U256::from(12))]),
        Token::Array(vec![Token::Uint(U256::from(1)), Token::Uint(U256::from(5)), Token::Uint(U256::from(1))]),
    ]);
    let log = Log {
        address: [0xcc; 20],
        topics: vec![hex32(BATCH), addr_word([4; 20]), addr_word([5; 20]), addr_word([6; 20])],
        data,
    };
    let ids = try_ids_from_log(&log, 5).unwrap();
    let tokens: Vec<&str> = ids.iter().map(|i| i.token_id.as_str()).collect();
    assert_eq!(tokens, vec!["10", "12"]);
    assert!(ids.iter().all(|i| i.owner == to_checksum(&[6; 20])));
    let contracts = contracts_of(&ids);
    assert_eq!(contracts, vec![[0xcc; 20], [0xcc; 20]]);
}

#[test]
fn batch_with_missing_amounts_has_no_answer() {
    let data = encode(&[
        Token::Array(vec![Token::Uint(U256::from(10)), Token::Uint(U256::from(11))]),
        Token::Array(vec![Token::Uint(U256::from(1))]),
    ]);
    let log = Log {
        address: [0xcc; 20],
        topics: vec![hex32(BATCH), addr_word([4; 20]), addr_word([5; 20]), addr_word([6; 20])],
        data,
    };
    assert!(try_ids_from_log(&log, 5).is_none());
}

#[test]
fn unrelated_log_yields_nothing() {
    let log = Log { address: [1; 20], topics: vec![hex32(BATCH)], data: vec![1, 2, 3] };
    assert!(ids_from_log(&log, 1).is_empty());
}

#[test]
fn erc721_token_renders_in_decimal() {
    let log = Log {
        address: [0xaa; 20],
        topics: vec![hex32(TRANSFER), addr_word([2; 20]), addr_word([3; 20]), [0xff; 32]],
        data: vec![],
    };
    let ids = ids_from_log(&log, 1);
    assert_eq!(
        ids[0].token_id,
        "115792089237316195423570985008687907853269984665640564039457584007913129639935"
    );
}

#[test]
fn contract_texts_parse_back() {
    let mut with_blanks = nft("0x5aAe b6053F3E94C9b9A09f33669435E7Ef1BeAed", "1");
    assert!(contracts_parse(&[with_blanks.clone()]));
    assert_eq!(contracts_of(&[with_blanks.clone()])[0][0], 0x5a);
    with_blanks.contract = "5aaeb6053f3e94c9b9a09f33669435e7ef1beaed".to_string();
    assert_eq!(contracts_of(&[with_blanks.clone()])[0][19], 0xed);
    assert!(!contracts_parse(&[nft("0x5aAe", "1")]));
    assert!(!contracts_parse(&[nft("0x5aAeb6053F3E94C9b9A09f33669435E7Ef1BeAeg", "1")]));
}

#[test]
fn uri_lookup_checks_token_numbers() {
    let c721 = to_checksum(&[0x11; 20]);
    let c1155 = to_checksum(&[0x22; 20]);
    let mut res = Erc165Res::new();
    let mut s721 = Erc165InterfaceSet::new();
    s721.insert(Erc165Interface::ERC721);
    res.insert(c721.clone(), s721);
    let mut s1155 = Erc165InterfaceSet::new();
    s1155.insert(Erc165Interface::ERC1155);
    res.insert(c1155.clone(), s1155);
    assert!(uri_lookup_ok(&res, &nft(&c721, "255")));
    assert!(uri_lookup_ok(&res, &nft(&c721, "")));
    assert!(!uri_lookup_ok(&res, &nft(&c721, "1a")));
    assert!(uri_lookup_ok(&res, &nft(&c1155, "255")));
    assert!(!uri_lookup_ok(&res, &nft(&c1155, "0xff")));
    assert!(uri_lookup_ok(&res, &nft(&c1155, &"1".repeat(65))));
    assert!(!uri_lookup_ok(&res, &nft(&c721, &"9".repeat(78))));
    assert!(!uri_lookup_ok(&res, &nft(&c1155, &"9".repeat(78))));
    assert!(uri_lookup_ok(&res, &nft("not an address", "x")));
    match plan_uri_lookup(&res, &nft(&c721, "")) {
        UriLookup::Erc721 { token, .. } => assert_eq!(token, num_word(0)),
        other => panic!("unexpected {:?}", other),
    }
    match plan_uri_lookup(&res, &nft(&c1155, "255")) {
        UriLookup::Erc1155 { token, .. } => assert_eq!(token, num_word(255)),
        other => panic!("unexpected {:?}", other),
    }
}

fn nft(contract: &str, token: &str) -> EthNftId {
    EthNftId {
        contract: contract.to_string(),
        token_id: token.to_string(),
        owner: "0x0000000000000000000000000000000000000001".to_string(),
        chain_id: 1,
    }
}

#[test]
fn uri_lookup_by_standard() {
    let c721 = to_checksum(&[0x11; 20]);
    let c1155 = to_checksum(&[0x22; 20]);
    let mut res = Erc165Res::new();
    let mut s721 = Erc165InterfaceSet::new();
    s721.insert(Erc165Interface::ERC721);
    res.insert(c721.clone(), s721);
    let mut s1155 = Erc165InterfaceSet::new();
    s1155.insert(Erc165Interface::ERC1155);
    res.insert(c1155.clone(), s1155);

    match plan_uri_lookup(&res, &nft(&c721, "12")) {
        UriLookup::Erc721 { contract, token } => {
            assert_eq!(contract, [0x11; 20]);
            assert_eq!(token, num_word(12));
        }
        other => panic!("unexpected {:?}", other),
    }
    match plan_uri_lookup(&res, &nft(&c1155, "12")) {
        UriLookup::Erc1155 { contract, token } => {
            assert_eq!(contract, [0x22; 20]);
            assert_eq!(token, num_word(12));
        }
        other => panic!("unexpected {:?}", other),
    }
    assert!(matches!(plan_uri_lookup(&res, &nft("0xunknown", "1")), UriLookup::Unsupported));
}

#[test]
fn records_from_replies() {
    let now = Timestamp { secs: 100, nanos: 5 };
    let r = record_for_erc721(
        nft("0xC", "7"),
        Some("Name".to_string()),
        Some(String::new()),
        None,
        now,
    );
    assert_eq!(r.contract_type, "ERC721");
    assert_eq!(r.name.as_deref(), Some("Name"));
    assert_eq!(r.symbol, None);
    assert_eq!(r.uri, None);
    assert_eq!(r.updated_at, now);
    let r = record_for_erc1155(nft("0xC", "7"), Some("ipfs://x".to_string()), now);
    assert_eq!(r.contract_type, "ERC1155");
    assert_eq!(r.uri.as_deref(), Some("ipfs://x"));
    assert_eq!(r.name, None);
    assert_eq!(non_empty(Some(String::new())), None);
}

#[test]
fn listener_transfer_has_no_answer_for_four_topics() {
    // The topic hash is not UTF-8, so the topic check cannot be made.
    assert!(Transfer::try_topic_str().is_none());
    let log = Log {
        address: [1; 20],
        topics: vec![hex32(TRANSFER), addr_word([2; 20]), addr_word([3; 20]), num_word(1)],
        data: num_word(9).to_vec(),
    };
    assert!(Transfer::try_from_checked(&log).is_none());
    let short = Log { address: [1; 20], topics: vec![hex32(TRANSFER)], data: vec![] };
    match Transfer::try_from_checked(&short) {
        Some(Err(EventParsingError::IncorrectTopicsLength { got })) => assert_eq!(got, 1),
        _ => panic!("expected a topic count error"),
    }
    assert_eq!(Transfer::topic(), hex32(TRANSFER));
}

#[test]
fn plain_transfer_reads_topics_and_data() {
    let mut from = [0u8; 20];
    from[0] = 0x12;
    from[1] = 0x34;
    from[18] = 0x56;
    from[19] = 0x78;
    let log = Log {
        address: [1; 20],
        topics: vec![hex32(TRANSFER), addr_word(from), addr_word([0; 20])],
        data: num_word(300).to_vec(),
    };
    let t = PlainTransfer::from(&log);
    assert_eq!(t.from, "0x1234…5678");
    assert_eq!(t.to, "0x0000…0000");
    assert_eq!(t.value, 300);
}

#[test]
fn listener_batch_event_decodes() {
    let data = encode(&[
        Token::Array(vec![Token::Uint(U256::from(3))]),
        Token::Array(vec![Token::Uint(U256::from(1))]),
    ]);
    let log = Log {
        address: [0xcc; 20],
        topics: vec![hex32(BATCH), addr_word([4; 20]), addr_word([5; 20]), addr_word([6; 20])],
        data,
    };
    let e = TransferBatchEvent::try_from(&log).unwrap();
    assert_eq!(e.id, vec![num_word(3)]);
    assert!(TransferBatchEvent::try_topic_str().is_none());
    assert_eq!(TransferBatchEvent::topic(), hex32(BATCH));
}

#[test]
fn listener_error_messages() {
    assert_eq!(ListenerError::Erc165ResError.message(), "Listener error");
    assert_eq!(ListenerError::ProviderError.message(), "Provider error");
}

#[test]
fn listener_records_can_be_looked_up() {
    let contract = [0x5a; 20];
    let log = Log {
        address: contract,
        topics: vec![hex32(TRANSFER), addr_word([2; 20]), addr_word([3; 20]), [0xee; 32]],
        data: vec![],
    };
    let ids = ids_from_log(&log, 1);
    assert!(contracts_parse(&ids));
    let mut res = Erc165Res::new();
    let mut s721 = Erc165InterfaceSet::new();
    s721.insert(Erc165Interface::ERC721);
    res.insert(ids[0].contract.clone(), s721);
    assert!(uri_lookup_ok(&res, &ids[0]));
    match plan_uri_lookup(&res, &ids[0]) {
        UriLookup::Erc721 { contract: c, token } => {
            assert_eq!(c, contract);
            assert_eq!(token, [0xee; 32]);
        }
        other => panic!("unexpected {:?}", other),
    }
}

#[test]
fn single_transfer_record_looks_up_its_token() {
    let data = encode(&[Token::Uint(U256::from(10)), Token::Uint(U256::from(1))]);
    let log = Log {
        address: [0x22; 20],
        topics: vec![hex32(SINGLE), addr_word([4; 20]), addr_word([5; 20]), addr_word([6; 20])],
        data,
    };
    let ids = ids_from_log(&log, 1);
    let mut res = Erc165Res::new();
    let mut s1155 = Erc165InterfaceSet::new();
    s1155.insert(Erc165Interface::ERC1155);
    res.insert(ids[0].contract.clone(), s1155);
    assert!(uri_lookup_ok(&res, &ids[0]));
    match plan_uri_lookup(&res, &ids[0]) {
        UriLookup::Erc1155 { contract, token } => {
            assert_eq!(contract, [0x22; 20]);
            assert_eq!(token, num_word(10));
        }
        other => panic!("unexpected {:?}", other),
    }
}
