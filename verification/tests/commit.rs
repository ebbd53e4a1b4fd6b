//! The committer: exact row counts, atomicity, and the checkpoint gate.

use cosmscan::bootstrap::load_chain_or_store;
use cosmscan::committer::Committer;
use cosmscan::config::ChainConfig;
use cosmscan::datetime::DateTime;
use cosmscan::errors::{Error, StorageError};
use cosmscan::fetcher::assemble_committed_block;
use cosmscan::records::{Block, Event, EventType, MsgCommittedBlock, Transaction};
use cosmscan::storage::PersistenceStorage;

fn block_at(height: i64) -> Block {
    Block {
        height,
        block_hash: format!("hash-{}", height),
        prev_hash: format!("hash-{}", height - 1),
        proposer_address: "proposer".to_string(),
        last_commit_hash: "lch".to_string(),
        data_hash: "dh".to_string(),
        validators_hash: "vh".to_string(),
        next_validators_hash: "nvh".to_string(),
        consensus_hash: "ch".to_string(),
        app_hash: "ah".to_string(),
        last_result_hash: "lrh".to_string(),
        evidence_hash: "eh".to_string(),
        block_time: DateTime { year: 2022, month: 8, day: 4, hour: 2, minute: 8, second: 43 },
    }
}

fn tx(hash: &str, height: i64, messages: Vec<&str>) -> Transaction {
    Transaction {
        transaction_hash: hash.to_string(),
        height,
        code: 0,
        code_space: "".to_string(),
        tx_data: "data".to_string(),
        raw_log: "[]".to_string(),
        info: "".to_string(),
        memo: None,
        gas_wanted: 100000,
        gas_used: 72000,
        tx_timestamp: "2022-08-04T02:08:43".to_string(),
        messages: messages.into_iter().map(|m| m.to_string()).collect(),
    }
}

fn event(kind: EventType, tx_hash: Option<&str>, height: i64, seq: i32, key: &str) -> Event {
    Event {
        tx_type: kind,
        tx_hash: tx_hash.map(|h| h.to_string()),
        block_height: height,
        event_seq: seq,
        event_type: "transfer".to_string(),
        event_key: key.to_string(),
        event_value: "v".to_string(),
        indexed: false,
    }
}

fn committer_for(chain_id: &str) -> Committer {
    let mut storage = PersistenceStorage::new();
    let cfg = ChainConfig {
        chain_id: chain_id.to_string(),
        chain_name: "Test Net".to_string(),
        icon_url: None,
        website: None,
    };
    let chain = load_chain_or_store(&mut storage, &cfg, 1_659_000_000).expect("chain resolves");
    Committer::new(storage, chain, 100)
}

/// Height 100 with two transactions: tx A has 3 events and 2 messages,
/// tx B has 0 events and 1 message; the block has 1 begin-block event and
/// no end-block events. Expected rows: 1 block, 2 transactions,
/// 3 messages, 4 events, all under the configured chain's row id.
#[test]
fn height_100_two_txs_row_counts() {
    let mut committer = committer_for("testnet-1");
    let chain_row_id = committer.chain.id;

    let tx_a = tx("AAA111", 100, vec!["{\"type\":\"send\"}", "{\"type\":\"delegate\"}"]);
    let tx_b = tx("BBB222", 100, vec!["{\"type\":\"vote\"}"]);
    let begin = vec![event(EventType::BeginBlock, None, 100, 0, "minter")];
    let tx_a_events = vec![
        event(EventType::Transaction, Some("AAA111"), 100, 0, "sender"),
        event(EventType::Transaction, Some("AAA111"), 100, 0, "recipient"),
        event(EventType::Transaction, Some("AAA111"), 100, 1, "amount"),
    ];
    let msg = assemble_committed_block(
        block_at(100),
        vec![tx_a, tx_b],
        begin,
        vec![],
        vec![tx_a_events, vec![]],
    );
    assert_eq!(msg.events.len(), 4);

    let r = committer.commit_block(&msg, 1_659_000_100);
    assert_eq!(r, Ok(true));
    assert_eq!(committer.checkpoint(), 101);

    let s = &committer.storage;
    assert_eq!(s.count_blocks(), Ok(1));
    assert_eq!(s.count_transactions(), Ok(2));
    assert_eq!(s.count_messages(), Ok(3));
    assert_eq!(s.count_events(), Ok(4));
    assert_eq!(s.count_chains(), Ok(1));

    let block_row = s.find_block_by_height(chain_row_id, 100).expect("block row exists");
    assert_eq!(block_row.chain_id, chain_row_id);
    assert_eq!(block_row.block_hash, "hash-100");
    let tx_row = s.find_transaction_by_hash(&"AAA111".to_string()).expect("tx row exists");
    assert_eq!(tx_row.chain_id, chain_row_id);
    assert_eq!(tx_row.height, 100);
}

/// A commit that fails on its last ingredient (a message payload that is
/// not JSON) leaves no rows of that height behind.
#[test]
fn failed_commit_leaves_no_rows() {
    let mut committer = committer_for("testnet-1");
    let chain_row_id = committer.chain.id;

    let good = MsgCommittedBlock {
        block: block_at(100),
        txs: vec![tx("AAA111", 100, vec!["{}"])],
        events: vec![],
    };
    assert_eq!(committer.commit_block(&good, 0), Ok(true));

    // the last insert of this height would fail: its message is not JSON
    let bad = MsgCommittedBlock {
        block: block_at(101),
        txs: vec![
            tx("CCC333", 101, vec!["{}"]),
            tx("DDD444", 101, vec!["not json at all"]),
        ],
        events: vec![event(EventType::BeginBlock, None, 101, 0, "minter")],
    };
    let r = committer.commit_block(&bad, 0);
    assert_eq!(r, Err(Error::InvalidJSONError));

    // no rows of height 101 are visible; the store is as after height 100
    let s = &committer.storage;
    assert_eq!(committer.checkpoint(), 101);
    assert_eq!(s.count_blocks(), Ok(1));
    assert_eq!(s.count_transactions(), Ok(1));
    assert_eq!(s.count_messages(), Ok(1));
    assert_eq!(s.count_events(), Ok(0));
    assert!(s.find_block_by_height(chain_row_id, 101).is_err());
    assert!(s.find_transaction_by_hash(&"CCC333".to_string()).is_err());
    assert!(s.find_transaction_by_hash(&"DDD444".to_string()).is_err());
}

#[test]
fn duplicate_height_refused() {
    let mut committer = committer_for("testnet-1");
    let msg = MsgCommittedBlock { block: block_at(100), txs: vec![], events: vec![] };
    assert_eq!(committer.commit_to_storage(&msg, 0), Ok(true));
    let again = MsgCommittedBlock { block: block_at(100), txs: vec![], events: vec![] };
    assert_eq!(
        committer.commit_to_storage(&again, 0),
        Err(Error::DBError(StorageError::ConstraintViolation))
    );
    assert_eq!(committer.storage.count_blocks(), Ok(1));
}

#[test]
fn duplicate_tx_hash_refused() {
    let mut committer = committer_for("testnet-1");
    let first = MsgCommittedBlock {
        block: block_at(100),
        txs: vec![tx("AAA111", 100, vec![])],
        events: vec![],
    };
    assert_eq!(committer.commit_block(&first, 0), Ok(true));

    // a later height carrying an already-persisted hash is refused whole
    let second = MsgCommittedBlock {
        block: block_at(101),
        txs: vec![tx("AAA111", 101, vec![])],
        events: vec![],
    };
    assert_eq!(
        committer.commit_block(&second, 0),
        Err(Error::DBError(StorageError::ConstraintViolation))
    );
    assert_eq!(committer.storage.count_blocks(), Ok(1));
    assert_eq!(committer.storage.count_transactions(), Ok(1));

    // so is a height whose own transactions collide with each other
    let third = MsgCommittedBlock {
        block: block_at(101),
        txs: vec![tx("EEE555", 101, vec![]), tx("EEE555", 101, vec![])],
        events: vec![],
    };
    assert_eq!(
        committer.commit_block(&third, 0),
        Err(Error::DBError(StorageError::ConstraintViolation))
    );
    assert_eq!(committer.storage.count_transactions(), Ok(1));
}

#[test]
fn commit_block_rejects_wrong_height() {
    let mut committer = committer_for("testnet-1");
    let msg = MsgCommittedBlock { block: block_at(105), txs: vec![], events: vec![] };
    assert_eq!(committer.commit_block(&msg, 0), Err(Error::UnexpectedError));
    assert_eq!(committer.checkpoint(), 100);
    assert_eq!(committer.storage.count_blocks(), Ok(0));
}

#[test]
fn commit_block_advances_checkpoint_by_one() {
    let mut committer = committer_for("testnet-1");
    for height in 100..103 {
        let msg = MsgCommittedBlock { block: block_at(height), txs: vec![], events: vec![] };
        assert_eq!(committer.commit_block(&msg, 0), Ok(true));
        assert_eq!(committer.checkpoint(), height as u64 + 1);
    }
    assert_eq!(committer.storage.count_blocks(), Ok(3));
}

#[test]
fn read_back_joined_transaction() {
    let mut committer = committer_for("testnet-1");
    let tx_a = tx("AAA111", 100, vec!["{\"type\":\"send\"}", "{\"type\":\"vote\"}"]);
    let events = vec![
        event(EventType::Transaction, Some("AAA111"), 100, 0, "sender"),
        event(EventType::BeginBlock, None, 100, 0, "minter"),
    ];
    let msg = MsgCommittedBlock { block: block_at(100), txs: vec![tx_a], events };
    assert_eq!(committer.commit_block(&msg, 55), Ok(true));

    let s = &committer.storage;
    let hash = "AAA111".to_string();
    let tx_row = s.find_transaction_by_hash(&hash).expect("tx row exists");
    let message_rows = s.list_messages_by_tx(tx_row.id);
    assert_eq!(message_rows.len(), 2);
    assert_eq!(message_rows[0].seq, 0);
    assert_eq!(message_rows[0].rawdata, "{\"type\":\"send\"}");
    assert_eq!(message_rows[1].seq, 1);

    // events are linked by hash, not by the generated id
    let event_rows = s.list_events_by_tx(&hash);
    assert_eq!(event_rows.len(), 1);
    assert_eq!(event_rows[0].event_key, "sender");

    let txs_at_height = s.list_transactions(committer.chain.id, 100).expect("listing works");
    assert_eq!(txs_at_height.len(), 1);
    assert_eq!(txs_at_height[0].transaction_hash, "AAA111");

    let joined = cosmscan::responses::Transaction::new(tx_row, event_rows, message_rows);
    assert_eq!(joined.messages.len(), 2);
    assert_eq!(joined.events.len(), 1);

    let chains = s.all_chains().expect("listing works");
    assert_eq!(chains.len(), 1);
    assert_eq!(chains[0].chain_id, "testnet-1");

    let latest = s.find_latest_block(committer.chain.id).expect("latest exists");
    assert_eq!(latest.height, 100);
}

#[test]
fn first_fault_in_insert_order_wins() {
    let mut committer = committer_for("testnet-1");
    let first = MsgCommittedBlock {
        block: block_at(100),
        txs: vec![tx("AAA111", 100, vec![])],
        events: vec![],
    };
    assert_eq!(committer.commit_block(&first, 0), Ok(true));

    // the earlier transaction's hash conflict is reported, not the later
    // transaction's bad payload
    let both_bad = MsgCommittedBlock {
        block: block_at(101),
        txs: vec![
            tx("AAA111", 101, vec![]),
            tx("FFF666", 101, vec!["not json"]),
        ],
        events: vec![],
    };
    assert_eq!(
        committer.commit_block(&both_bad, 0),
        Err(Error::DBError(StorageError::ConstraintViolation))
    );

    // a duplicate height outranks any transaction fault
    let dup_height = MsgCommittedBlock {
        block: block_at(100),
        txs: vec![tx("GGG777", 100, vec!["not json"])],
        events: vec![],
    };
    assert_eq!(
        committer.commit_to_storage(&dup_height, 0),
        Err(Error::DBError(StorageError::ConstraintViolation))
    );

    // with the height and hashes fresh, the payload fault surfaces
    let only_json_bad = MsgCommittedBlock {
        block: block_at(101),
        txs: vec![tx("HHH888", 101, vec!["not json"])],
        events: vec![],
    };
    assert_eq!(committer.commit_block(&only_json_bad, 0), Err(Error::InvalidJSONError));
}

#[test]
fn can_commit_guards_the_id_space() {
    let committer = committer_for("testnet-1");
    let msg = MsgCommittedBlock {
        block: block_at(100),
        txs: vec![tx("AAA111", 100, vec!["{}"])],
        events: vec![event(EventType::BeginBlock, None, 100, 0, "minter")],
    };
    assert!(committer.can_commit(&msg));

    // a non-positive height is refused
    let zero = MsgCommittedBlock { block: block_at(0), txs: vec![], events: vec![] };
    assert!(!committer.can_commit(&zero));

    // a checkpoint that can no longer advance is refused
    let stuck = Committer::new(PersistenceStorage::new(), committer.chain, u64::MAX);
    assert!(!stuck.can_commit(&msg));
}
