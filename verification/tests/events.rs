use ethers::abi::{encode, Token};
use ethers::types::U256;
use formula::events::errors::EventParsingError;
use formula::events::log::Log;
use formula::events::transfer::TransferEvent;
use formula::events::transfer_batch::TransferBatchEvent;
use formula::events::transfer_single::TransferSingleEvent;

fn hex32(s: &str) -> [u8; 32] {
    let v = ethers::utils::hex::decode(s).unwrap();
    let mut w = [0u8; 32];
    w.copy_from_slice(&v);
    w
}

fn addr_word(a: [u8; 20]) -> [u8; 32] {
    let mut w = [0u8; 32];
    w[12..].copy_from_slice(&a);
    w
}

fn num_word(n: u64) -> [u8; 32] {
    <[u8; 32]>::from(U256::from(n))
}

const TRANSFER: &str = "ddf252ad1be2c89b69c2b068fc378daa952ba7f163c4a11628f55a4df523b3ef";
const SINGLE: &str = "c3d58168c5ae7397731d063d5bbf3d657854427343f4c083240f7aacaa2d0f62";
const BATCH: &str = "4a39dc06d4c0dbc64b70af90fd698a233a518aa5d07e595d983b8c0526c8f7fb";

#[test]
fn topics_are_signature_hashes() {
    assert_eq!(TransferEvent::topic(), hex32(TRANSFER));
    assert_eq!(TransferEvent::topic_h256(), hex32(TRANSFER));
    assert_eq!(TransferSingleEvent::topic(), hex32(SINGLE));
    assert_eq!(TransferSingleEvent::topic_h256(), hex32(SINGLE));
    assert_eq!(TransferBatchEvent::topic(), hex32(BATCH));
    assert_eq!(TransferBatchEvent::topic_h256(), hex32(BATCH));
}

#[test]
fn topic_str_is_the_abbreviated_hash() {
    assert_eq!(TransferEvent::topic_str(), "0xddf2…b3ef");
}

#[test]
fn topic_bytes_are_not_utf8() {
    assert!(TransferSingleEvent::try_topic_str().is_none());
    assert!(TransferBatchEvent::try_topic_str().is_none());
}

#[test]
fn transfer_requires_four_topics() {
    let log = Log { address: [1; 20], topics: vec![hex32(TRANSFER)], data: vec![] };
    match TransferEvent::try_from(&log) {
        Err(EventParsingError::IncorrectTopicsLength { got }) => assert_eq!(got, 1),
        other => panic!("unexpected {:?}", other),
    }
}

#[test]
fn transfer_reads_topics() {
    let from = [2u8; 20];
    let to = [3u8; 20];
    let log = Log {
        address: [1; 20],
        topics: vec![hex32(TRANSFER), addr_word(from), addr_word(to), num_word(42)],
        data: vec![],
    };
    let e = TransferEvent::try_from(&log).unwrap();
    assert_eq!(e.from, from);
    assert_eq!(e.to, to);
    assert_eq!(e.value, num_word(42));
}

#[test]
fn transfer_refuses_other_events() {
    // An ERC-1155 single transfer also has four topics; its first topic is not Transfer's.
    let log = Log {
        address: [1; 20],
        topics: vec![hex32(SINGLE), addr_word([4; 20]), addr_word([5; 20]), addr_word([6; 20])],
        data: vec![],
    };
    match TransferEvent::try_from(&log) {
        Err(EventParsingError::IncorrectTopic { got, expected }) => {
            assert_eq!(got, "0xc3d5…0f62");
            assert_eq!(expected, "0xddf2…b3ef");
        }
        other => panic!("unexpected {:?}", other),
    }
}

#[test]
fn transfer_accepts_any_indexed_topics() {
    // Only the first topic is checked: an indexed word equal to the topic is read as an address.
    let t = hex32(TRANSFER);
    let log = Log { address: [1; 20], topics: vec![t, t, addr_word([3; 20]), num_word(1)], data: vec![] };
    let e = TransferEvent::try_from(&log).unwrap();
    assert_eq!(e.from[..], t[12..]);
    assert_eq!(e.value, num_word(1));
}

#[test]
fn single_decodes() {
    let data = encode(&[Token::Uint(U256::from(77)), Token::Uint(U256::from(1))]);
    let log = Log {
        address: [1; 20],
        topics: vec![hex32(SINGLE), addr_word([4; 20]), addr_word([5; 20]), addr_word([6; 20])],
        data,
    };
    let e = TransferSingleEvent::try_from(&log).unwrap();
    assert_eq!(e.operator, [4; 20]);
    assert_eq!(e.from, [5; 20]);
    assert_eq!(e.to, [6; 20]);
    assert_eq!(e.id, num_word(77));
    assert_eq!(e.value, num_word(1));
}

#[test]
fn single_refuses_wrong_topic_or_short_data() {
    let data = encode(&[Token::Uint(U256::from(77)), Token::Uint(U256::from(1))]);
    let wrong = Log {
        address: [1; 20],
        topics: vec![hex32(TRANSFER), addr_word([4; 20]), addr_word([5; 20]), addr_word([6; 20])],
        data: data.clone(),
    };
    assert!(matches!(TransferSingleEvent::try_from(&wrong), Err(EventParsingError::FailedEventDecoding)));
    let short = Log {
        address: [1; 20],
        topics: vec![hex32(SINGLE), addr_word([4; 20]), addr_word([5; 20]), addr_word([6; 20])],
        data: data[..40].to_vec(),
    };
    assert!(matches!(TransferSingleEvent::try_from(&short), Err(EventParsingError::FailedEventDecoding)));
}

#[test]
fn batch_decodes_arrays() {
    let data = encode(&[
        Token::Array(vec![Token::Uint(U256::from(10)), Token::Uint(U256::from(11))]),
        Token::Array(vec![Token::Uint(U256::from(1)), Token::Uint(U256::from(5))]),
    ]);
    let log = Log {
        address: [1; 20],
        topics: vec![hex32(BATCH), addr_word([4; 20]), addr_word([5; 20]), addr_word([6; 20])],
        data,
    };
    let e = TransferBatchEvent::try_from(&log).unwrap();
    assert_eq!(e.id, vec![num_word(10), num_word(11)]);
    assert_eq!(e.value, vec![num_word(1), num_word(5)]);
    assert_eq!(e.to, [6; 20]);
}

#[test]
fn batch_refuses_truncated_data() {
    let data = encode(&[
        Token::Array(vec![Token::Uint(U256::from(10))]),
        Token::Array(vec![Token::Uint(U256::from(1))]),
    ]);
    let log = Log {
        address: [1; 20],
        topics: vec![hex32(BATCH), addr_word([4; 20]), addr_word([5; 20]), addr_word([6; 20])],
        data: data[..data.len() - 32].to_vec(),
    };
    assert!(matches!(TransferBatchEvent::try_from(&log), Err(EventParsingError::FailedEventDecoding)));
}

#[test]
fn event_error_messages() {
    assert_eq!(
        EventParsingError::IncorrectTopicsLength { got: 3 }.message(),
        "The no of topics was incorrect. Got: 3 Topics"
    );
    assert_eq!(
        EventParsingError::IncorrectTopic { got: "a".to_string(), expected: "b\"".to_string() }.message(),
        "The topics was incorrect. Got: \"a\" Expected: \"b\\\"\""
    );
    assert_eq!(EventParsingError::FailedEventDecoding.message(), "Event decoding Failed");
}

#[test]
fn batch_decodes_what_was_encoded() {
    let cases: Vec<(Vec<u64>, Vec<u64>)> = vec![
        (vec![], vec![]),
        (vec![7], vec![]),
        (vec![1, 2, 3], vec![9, 8]),
        (vec![u64::MAX], vec![0, 1, 2, 3]),
    ];
    for (ids, values) in cases {
        let words = |v: &Vec<u64>| Token::Array(v.iter().map(|n| Token::Uint(U256::from(*n))).collect());
        let data = encode(&[words(&ids), words(&values)]);
        let log = Log {
            address: [1; 20],
            topics: vec![hex32(BATCH), addr_word([4; 20]), addr_word([5; 20]), addr_word([6; 20])],
            data,
        };
        let e = TransferBatchEvent::try_from(&log).unwrap();
        assert_eq!(e.id, ids.iter().map(|n| num_word(*n)).collect::<Vec<_>>());
        assert_eq!(e.value, values.iter().map(|n| num_word(*n)).collect::<Vec<_>>());
        assert_eq!(e.to, [6; 20]);
    }
}
