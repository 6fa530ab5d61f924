use formula::config::AppConfigError;
use formula::errors::FormulaErrors;
use formula::ethdto::dto::{EthDto, NewEthDto, Timestamp};
use formula::ethdto::errors::RepoError;
use formula::ethdto::repo::{after_record, plan_full_upsert, plan_upsert, RecordPass, WriteOp};
use formula::text::{i64_decimal, u64_decimal};

const ZERO: &str = "0x0000000000000000000000000000000000000000";

fn new_record(owner: &str, secs: i64) -> NewEthDto {
    NewEthDto {
        contract: "0xC".to_string(),
        chain_id: 1,
        contract_type: "ERC721".to_string(),
        token_id: "7".to_string(),
        owner: owner.to_string(),
        uri: None,
        name: None,
        symbol: None,
        updated_at: Timestamp { secs, nanos: 0 },
    }
}

fn stored(owner: &str, secs: i64) -> EthDto {
    EthDto {
        id: 3,
        contract: "0xC".to_string(),
        chain_id: 1,
        contract_type: "ERC721".to_string(),
        token_id: "7".to_string(),
        owner: owner.to_string(),
        uri: None,
        name: None,
        symbol: None,
        updated_at: Timestamp { secs, nanos: 0 },
    }
}

#[test]
fn unseen_record_is_upserted() {
    let ops = plan_upsert(new_record("0xA", 10), None);
    assert_eq!(ops.len(), 1);
    assert!(matches!(&ops[0], WriteOp::Upsert(r) if r.owner == "0xA"));
}

#[test]
fn newer_record_updates_owner() {
    let ops = plan_upsert(new_record("0xB", 20), Some(&stored("0xA", 10)));
    assert_eq!(ops.len(), 1);
    assert!(matches!(&ops[0], WriteOp::UpdateOwner { id: 3, owner } if owner == "0xB"));
}

#[test]
fn older_or_equal_record_changes_nothing() {
    assert!(plan_upsert(new_record("0xB", 10), Some(&stored("0xA", 10))).is_empty());
    assert!(plan_upsert(new_record("0xB", 5), Some(&stored("0xA", 10))).is_empty());
}

#[test]
fn burn_deletes_then_updates() {
    let ops = plan_upsert(new_record(ZERO, 20), Some(&stored("0xA", 10)));
    assert_eq!(ops.len(), 2);
    assert!(matches!(&ops[0], WriteOp::Delete { id: 3 }));
    assert!(matches!(&ops[1], WriteOp::UpdateOwner { id: 3, owner } if owner == ZERO));
}

#[test]
fn full_refresh_inserts_or_updates() {
    assert!(matches!(plan_full_upsert(new_record("0xA", 1), None), WriteOp::Insert(_)));
    assert!(matches!(
        plan_full_upsert(new_record("0xB", 1), Some(&stored("0xA", 10))),
        WriteOp::UpdateOwner { id: 3, owner } if owner == "0xB"
    ));
}

#[test]
fn timestamps_order_by_seconds_then_nanos() {
    let a = Timestamp { secs: 5, nanos: 10 };
    assert!(Timestamp { secs: 6, nanos: 0 }.is_after(&a));
    assert!(Timestamp { secs: 5, nanos: 11 }.is_after(&a));
    assert!(!a.is_after(&a));
    assert!(!Timestamp { secs: -1, nanos: 999 }.is_after(&a));
}

#[test]
fn decimal_rendering() {
    assert_eq!(u64_decimal(0), "0");
    assert_eq!(u64_decimal(9), "9");
    assert_eq!(u64_decimal(10), "10");
    assert_eq!(u64_decimal(u64::MAX), "18446744073709551615");
    assert_eq!(i64_decimal(-5), "-5");
    assert_eq!(i64_decimal(i64::MIN), "-9223372036854775808");
    assert_eq!(i64_decimal(137), "137");
}

#[test]
fn error_messages() {
    assert_eq!(RepoError::NoEntityFound.message(), "No such requested entity found");
    assert_eq!(RepoError::DatabaseError.message(), "Database error occured");
    assert_eq!(RepoError::FailedToQuery.message(), "Failed to query the database");
    assert_eq!(
        RepoError::FailedToGetConnection.message(),
        "Failed to get connection from the pool to execute the statement"
    );
    assert_eq!(AppConfigError::BuildConfigFromFile.message(), "Failed to build config from file");
    assert_eq!(
        AppConfigError::DeserializeConfigIntoStruct.message(),
        "Failed to deserialize config into struct"
    );
    assert_eq!(AppConfigError::FailedToCreateDB.message(), "Failed to create Database pool");
    assert_eq!(
        FormulaErrors::ConfigError.message(),
        "Encountered an error while configuring the application"
    );
    assert_eq!(
        FormulaErrors::ListenerError(-3).message(),
        "Encountered an error while setting up the listener for chain id -3"
    );
}

/// Applies a full refresh to an in-memory store of records, as the writes that
/// `plan_full_upsert` plans would change a table.
fn full_refresh(store: &mut Vec<EthDto>, nfts: &[NewEthDto]) {
    for nft in nfts {
        let existing = store
            .iter()
            .find(|e| e.chain_id == nft.chain_id && e.contract == nft.contract && e.token_id == nft.token_id)
            .map(|e| EthDto {
                id: e.id,
                contract: e.contract.clone(),
                chain_id: e.chain_id,
                contract_type: e.contract_type.clone(),
                token_id: e.token_id.clone(),
                owner: e.owner.clone(),
                uri: e.uri.clone(),
                name: e.name.clone(),
                symbol: e.symbol.clone(),
                updated_at: e.updated_at,
            });
        let copy = NewEthDto {
            contract: nft.contract.clone(),
            chain_id: nft.chain_id,
            contract_type: nft.contract_type.clone(),
            token_id: nft.token_id.clone(),
            owner: nft.owner.clone(),
            uri: nft.uri.clone(),
            name: nft.name.clone(),
            symbol: nft.symbol.clone(),
            updated_at: nft.updated_at,
        };
        match plan_full_upsert(copy, existing.as_ref()) {
            WriteOp::Insert(r) => {
                let id = store.len() as i32 + 1;
                store.push(EthDto {
                    id,
                    contract: r.contract,
                    chain_id: r.chain_id,
                    contract_type: r.contract_type,
                    token_id: r.token_id,
                    owner: r.owner,
                    uri: r.uri,
                    name: r.name,
                    symbol: r.symbol,
                    updated_at: r.updated_at,
                });
            }
            WriteOp::UpdateOwner { id, owner } => {
                store.iter_mut().find(|e| e.id == id).unwrap().owner = owner;
            }
            other => panic!("unexpected {:?}", other),
        }
    }
}

#[test]
fn full_refresh_twice_changes_nothing() {
    let mut other_token = new_record("0xB", 5);
    other_token.token_id = "8".to_string();
    let nfts = vec![new_record("0xA", 10), other_token, new_record("0xC", 20)];
    let mut store = vec![stored("0xZ", 1)];
    full_refresh(&mut store, &nfts);
    let once = format!("{:?}", store);
    assert_eq!(store.len(), 2);
    assert_eq!(store[0].owner, "0xC");
    assert_eq!(store[1].owner, "0xB");
    full_refresh(&mut store, &nfts);
    assert_eq!(format!("{:?}", store), once);
}

#[test]
fn pass_goes_on_past_a_failed_record() {
    assert_eq!(after_record(RecordPass::Written), Ok(()));
    assert_eq!(after_record(RecordPass::Failed(RepoError::DatabaseError)), Ok(()));
    assert_eq!(after_record(RecordPass::Failed(RepoError::FailedToQuery)), Ok(()));
    assert_eq!(after_record(RecordPass::NoConnection), Err(RepoError::FailedToGetConnection));
    assert_eq!(after_record(RecordPass::TaskLost), Err(RepoError::DatabaseError));
}
