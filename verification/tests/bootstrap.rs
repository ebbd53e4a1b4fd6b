//! Bootstrap: chain registration happens exactly once, and ingestion
//! resumes one past the last committed height.

use cosmscan::bootstrap::{get_start_block, insert_chain_config, load_chain_or_store,
    load_latest_block_height, resume_height};
use cosmscan::config::ChainConfig;
use cosmscan::datetime::DateTime;
use cosmscan::models::NewBlock;
use cosmscan::storage::PersistenceStorage;

fn cfg(chain_id: &str) -> ChainConfig {
    ChainConfig {
        chain_id: chain_id.to_string(),
        chain_name: "Test Net".to_string(),
        icon_url: None,
        website: None,
    }
}

fn new_block(chain_id: i32, height: i64) -> NewBlock {
    NewBlock {
        chain_id,
        height,
        block_hash: format!("hash-{}", height),
        prev_hash: format!("hash-{}", height - 1),
        proposer_address: "proposer".to_string(),
        last_commit_hash: "lch".to_string(),
        data_hash: "dh".to_string(),
        validators_hash: "vh".to_string(),
        next_validators_hash: "nvh".to_string(),
        consensus_hash: "ch".to_string(),
        app_hash: "ah".to_string(),
        last_result_hash: "lrh".to_string(),
        evidence_hash: "eh".to_string(),
        block_time: DateTime { year: 2022, month: 8, day: 4, hour: 2, minute: 8, second: 43 },
        inserted_at: 0,
    }
}

/// A chain id absent at bootstrap is registered exactly once, and a
/// second bootstrap against the same store leaves one row in total.
#[test]
fn chain_created_once_for_new_id() {
    let mut storage = PersistenceStorage::new();
    let first = load_chain_or_store(&mut storage, &cfg("testnet-1"), 7).expect("resolves");
    assert_eq!(storage.count_chains(), Ok(1));
    assert_eq!(first.chain_id, "testnet-1");
    assert_eq!(first.chain_name, "Test Net");

    let second = load_chain_or_store(&mut storage, &cfg("testnet-1"), 9).expect("resolves");
    assert_eq!(storage.count_chains(), Ok(1));
    assert_eq!(second.id, first.id);
    assert_eq!(second.chain_id, "testnet-1");
    // the second bootstrap read the first one's row rather than inserting
    assert_eq!(second.inserted_at, 7);
}

#[test]
fn distinct_chain_ids_get_distinct_rows() {
    let mut storage = PersistenceStorage::new();
    let a = load_chain_or_store(&mut storage, &cfg("testnet-1"), 0).expect("resolves");
    let b = load_chain_or_store(&mut storage, &cfg("mainnet-1"), 0).expect("resolves");
    assert_eq!(storage.count_chains(), Ok(2));
    assert_ne!(a.id, b.id);
}

#[test]
fn insert_chain_config_is_idempotent() {
    let mut storage = PersistenceStorage::new();
    insert_chain_config(&mut storage, &cfg("testnet-1"), 0).expect("registers");
    insert_chain_config(&mut storage, &cfg("testnet-1"), 0).expect("still resolves");
    assert_eq!(storage.count_chains(), Ok(1));
}

/// With a store whose greatest committed height is N, ingestion resumes
/// at N + 1; with an empty store it starts at the configured height.
#[test]
fn resume_height_from_store() {
    let mut storage = PersistenceStorage::new();
    let chain = load_chain_or_store(&mut storage, &cfg("testnet-1"), 0).expect("resolves");
    storage.insert_block(&new_block(chain.id, 7)).expect("inserts");
    storage.insert_block(&new_block(chain.id, 9)).expect("inserts");
    storage.insert_block(&new_block(chain.id, 8)).expect("inserts");

    assert_eq!(load_latest_block_height(&storage, &chain), Some(9));
    assert_eq!(get_start_block(&storage, &chain, 1, true), 10);
    assert_eq!(resume_height(Some(9), 1), 10);
}

#[test]
fn resume_height_empty_store() {
    let mut storage = PersistenceStorage::new();
    let chain = load_chain_or_store(&mut storage, &cfg("testnet-1"), 0).expect("resolves");
    assert_eq!(load_latest_block_height(&storage, &chain), None);
    assert_eq!(get_start_block(&storage, &chain, 42, true), 42);
    assert_eq!(resume_height(None, 42), 42);
}

#[test]
fn get_start_block_without_resume_flag() {
    let mut storage = PersistenceStorage::new();
    let chain = load_chain_or_store(&mut storage, &cfg("testnet-1"), 0).expect("resolves");
    storage.insert_block(&new_block(chain.id, 7)).expect("inserts");
    // resumption not asked for: the configured height wins
    assert_eq!(get_start_block(&storage, &chain, 3, false), 3);
}

#[test]
fn latest_height_ignores_other_chains() {
    let mut storage = PersistenceStorage::new();
    let a = load_chain_or_store(&mut storage, &cfg("testnet-1"), 0).expect("resolves");
    let b = load_chain_or_store(&mut storage, &cfg("mainnet-1"), 0).expect("resolves");
    storage.insert_block(&new_block(a.id, 7)).expect("inserts");
    storage.insert_block(&new_block(b.id, 900)).expect("inserts");
    assert_eq!(load_latest_block_height(&storage, &a), Some(7));
    assert_eq!(get_start_block(&storage, &a, 1, true), 8);
}

#[test]
fn list_blocks_pages_in_descending_height_order() {
    let mut storage = PersistenceStorage::new();
    let a = load_chain_or_store(&mut storage, &cfg("testnet-1"), 0).expect("resolves");
    let b = load_chain_or_store(&mut storage, &cfg("mainnet-1"), 0).expect("resolves");
    for height in [4i64, 9, 2, 7, 5] {
        storage.insert_block(&new_block(a.id, height)).expect("inserts");
    }
    storage.insert_block(&new_block(b.id, 1000)).expect("inserts");

    let page = storage.list_blocks(a.id, 3, 0).expect("listing works");
    let heights: Vec<i64> = page.iter().map(|row| row.height).collect();
    assert_eq!(heights, vec![9, 7, 5]);

    let page = storage.list_blocks(a.id, 3, 3).expect("listing works");
    let heights: Vec<i64> = page.iter().map(|row| row.height).collect();
    assert_eq!(heights, vec![4, 2]);

    let page = storage.list_blocks(a.id, 10, 5).expect("listing works");
    assert!(page.is_empty());

    // the other chain's rows never leak into the page
    let page = storage.list_blocks(b.id, 10, 0).expect("listing works");
    let heights: Vec<i64> = page.iter().map(|row| row.height).collect();
    assert_eq!(heights, vec![1000]);
}
