//! Event flattening, the canonical merge order, and the read facade's
//! response shapes.

use cosmscan::datetime::DateTime;
use cosmscan::events::{convert_block_events, extract_begin_block_events, extract_tx_events,
    flatten_events, transaction_events};
use cosmscan::fetcher::{assemble_committed_block, attach_all_messages, attach_messages};
use cosmscan::models;
use cosmscan::records::{Block, EventAttribute, EventType, SourceEvent, Transaction,
    TX_TYPE_BEGIN_BLOCK, TX_TYPE_END_BLOCK, TX_TYPE_TRANSACTION};
use cosmscan::records::{event_type_code, RawEvent, RawTx};
use cosmscan::responses;
use cosmscan::errors::{ClientErrorKind, Error, StorageError};
use cosmscan::resputil::{ResponseBuilder, STATUS_BAD_REQUEST, STATUS_INTERNAL_SERVER_ERROR,
    STATUS_NOT_FOUND, STATUS_OK};

fn source_event(event_type: &str, attrs: Vec<(&str, &str)>) -> SourceEvent {
    SourceEvent {
        event_type: event_type.to_string(),
        attributes: attrs
            .into_iter()
            .map(|(k, v)| EventAttribute { key: k.to_string(), value: v.to_string() })
            .collect(),
    }
}

#[test]
fn flatten_numbers_events_by_index() {
    let events = vec![
        source_event("transfer", vec![("sender", "a"), ("recipient", "b")]),
        source_event("mint", vec![("amount", "5")]),
    ];
    let flat = convert_block_events(&events, 77, EventType::BeginBlock);
    assert_eq!(flat.len(), 3);
    // each attribute becomes one record carrying its event's index
    assert_eq!(flat[0].event_type, "transfer");
    assert_eq!(flat[0].event_key, "sender");
    assert_eq!(flat[0].event_seq, 0);
    assert_eq!(flat[1].event_key, "recipient");
    assert_eq!(flat[1].event_seq, 0);
    assert_eq!(flat[2].event_type, "mint");
    assert_eq!(flat[2].event_key, "amount");
    assert_eq!(flat[2].event_seq, 1);
    for e in &flat {
        assert_eq!(e.tx_type, EventType::BeginBlock);
        assert_eq!(e.tx_hash, None);
        assert_eq!(e.block_height, 77);
        assert!(!e.indexed);
    }
}

#[test]
fn flatten_tags_transaction_events_with_hash() {
    let events = vec![source_event("transfer", vec![("sender", "a")])];
    let hash = Some("AAA111".to_string());
    let flat = flatten_events(&events, 5, EventType::Transaction, &hash);
    assert_eq!(flat.len(), 1);
    assert_eq!(flat[0].tx_hash, Some("AAA111".to_string()));
    assert_eq!(flat[0].tx_type, EventType::Transaction);
}

#[test]
fn tx_events_numbered_per_log() {
    let logs = vec![
        vec![
            source_event("transfer", vec![("sender", "a")]),
            source_event("mint", vec![("amount", "5")]),
        ],
        vec![source_event("burn", vec![("amount", "2")])],
    ];
    let flat = transaction_events(&logs, 5, &"AAA111".to_string());
    assert_eq!(flat.len(), 3);
    assert_eq!(flat[0].event_seq, 0);
    assert_eq!(flat[1].event_seq, 1);
    // the second log starts numbering over
    assert_eq!(flat[2].event_seq, 0);
    assert_eq!(flat[2].event_type, "burn");
}

#[test]
fn extracted_rows_carry_chain_and_codes() {
    let events = vec![source_event("transfer", vec![("sender", "a")])];
    let rows = extract_begin_block_events(&events, 77, 3, 1234);
    assert_eq!(rows.len(), 1);
    assert_eq!(rows[0].chain_id, 3);
    assert_eq!(rows[0].tx_type, TX_TYPE_BEGIN_BLOCK);
    assert_eq!(rows[0].tx_hash, None);
    assert_eq!(rows[0].block_height, 77);
    assert_eq!(rows[0].inserted_at, 1234);

    let logs = vec![vec![source_event("transfer", vec![("sender", "a")])]];
    let tx_rows = extract_tx_events(&logs, 77, &"AAA111".to_string(), 3, 1234);
    assert_eq!(tx_rows.len(), 1);
    assert_eq!(tx_rows[0].tx_type, TX_TYPE_TRANSACTION);
    assert_eq!(tx_rows[0].tx_hash, Some("AAA111".to_string()));
}

#[test]
fn event_type_codes_match_schema() {
    assert_eq!(event_type_code(EventType::Transaction), TX_TYPE_TRANSACTION);
    assert_eq!(event_type_code(EventType::BeginBlock), TX_TYPE_BEGIN_BLOCK);
    assert_eq!(event_type_code(EventType::EndBlock), TX_TYPE_END_BLOCK);
    assert_eq!(TX_TYPE_TRANSACTION, 1);
    assert_eq!(TX_TYPE_BEGIN_BLOCK, 2);
    assert_eq!(TX_TYPE_END_BLOCK, 3);
}

fn bare_tx(hash: &str) -> Transaction {
    Transaction {
        transaction_hash: hash.to_string(),
        height: 9,
        code: 0,
        code_space: "".to_string(),
        tx_data: "d".to_string(),
        raw_log: "[]".to_string(),
        info: "".to_string(),
        memo: Some("note".to_string()),
        gas_wanted: 1,
        gas_used: 1,
        tx_timestamp: "t".to_string(),
        messages: vec![],
    }
}

#[test]
fn merged_event_order_is_begin_end_tx() {
    let begin = convert_block_events(
        &vec![source_event("minter", vec![("amount", "1")])],
        9,
        EventType::BeginBlock,
    );
    let end = convert_block_events(
        &vec![source_event("staking", vec![("unbond", "2")])],
        9,
        EventType::EndBlock,
    );
    let tx_a = transaction_events(
        &vec![vec![source_event("transfer", vec![("sender", "a")])]],
        9,
        &"AAA111".to_string(),
    );
    let tx_b = transaction_events(
        &vec![vec![source_event("burn", vec![("amount", "3")])]],
        9,
        &"BBB222".to_string(),
    );
    let msg = assemble_committed_block(
        Block {
            height: 9,
            block_hash: "h9".to_string(),
            prev_hash: "h8".to_string(),
            proposer_address: "p".to_string(),
            last_commit_hash: "l".to_string(),
            data_hash: "d".to_string(),
            validators_hash: "v".to_string(),
            next_validators_hash: "n".to_string(),
            consensus_hash: "c".to_string(),
            app_hash: "a".to_string(),
            last_result_hash: "r".to_string(),
            evidence_hash: "e".to_string(),
            block_time: DateTime { year: 2022, month: 1, day: 1, hour: 0, minute: 0, second: 0 },
        },
        vec![bare_tx("AAA111"), bare_tx("BBB222")],
        begin,
        end,
        vec![tx_a, tx_b],
    );
    let kinds: Vec<EventType> = msg.events.iter().map(|e| e.tx_type).collect();
    assert_eq!(
        kinds,
        vec![
            EventType::BeginBlock,
            EventType::EndBlock,
            EventType::Transaction,
            EventType::Transaction,
        ]
    );
    assert_eq!(msg.events[2].tx_hash, Some("AAA111".to_string()));
    assert_eq!(msg.events[3].tx_hash, Some("BBB222".to_string()));
    assert_eq!(msg.txs.len(), 2);
}

#[test]
fn messages_attach_in_body_order() {
    let tx = attach_messages(bare_tx("AAA111"), vec!["{\"a\":1}".to_string()]);
    assert_eq!(tx.messages, vec!["{\"a\":1}".to_string()]);
    assert_eq!(tx.transaction_hash, "AAA111");
    assert_eq!(tx.memo, Some("note".to_string()));

    let txs = attach_all_messages(
        vec![bare_tx("AAA111"), bare_tx("BBB222")],
        vec![vec!["{}".to_string()], vec![]],
    );
    assert_eq!(txs[0].messages, vec!["{}".to_string()]);
    assert!(txs[1].messages.is_empty());
}

#[test]
fn raw_records_lower_fields() {
    let flat = flatten_events(
        &vec![source_event("transfer", vec![("sender", "a")])],
        5,
        EventType::EndBlock,
        &None,
    );
    let raw = RawEvent::from_event(&flat[0]);
    assert_eq!(raw.tx_type, TX_TYPE_END_BLOCK);
    assert_eq!(raw.event_key, "sender");

    let raw_tx = RawTx::from_transaction(&bare_tx("AAA111"));
    assert_eq!(raw_tx.transaction_hash, "AAA111");
    assert_eq!(raw_tx.memo, Some("note".to_string()));
}

#[test]
fn response_builder_bodies() {
    let builder = ResponseBuilder::new("https://example.test".to_string());
    let bad = builder.invalid_form("chain_id is required");
    assert_eq!(bad.status, STATUS_BAD_REQUEST);
    assert_eq!(bad.body, "{ \"error\": \"chain_id is required\" }");
    assert_eq!(bad.content_type, "application/json");
    assert_eq!(bad.allow_origin, "https://example.test");

    let ok = builder.ok_json("[1,2]".to_string());
    assert_eq!(ok.status, STATUS_OK);
    assert_eq!(ok.body, "[1,2]");

    let missing = builder.not_found();
    assert_eq!(missing.status, STATUS_NOT_FOUND);
    assert_eq!(missing.body, "{ \"error\": \"content not found\"}");

    let broken = builder.internal_error();
    assert_eq!(broken.status, STATUS_INTERNAL_SERVER_ERROR);
    assert_eq!(broken.body, "{ \"error\": \"Internal Server Error\" }");
}

#[test]
fn transaction_response_joins_rows() {
    let tx_row = models::Transaction {
        id: 4,
        chain_id: 1,
        transaction_hash: "AAA111".to_string(),
        height: 9,
        code: 0,
        code_space: "".to_string(),
        tx_data: "d".to_string(),
        raw_log: "[]".to_string(),
        info: "".to_string(),
        memo: None,
        gas_wanted: 1,
        gas_used: 1,
        tx_timestamp: "t".to_string(),
        inserted_at: 0,
        updated_at: None,
    };
    let event_rows = vec![models::Event {
        id: 8,
        chain_id: 1,
        tx_type: TX_TYPE_TRANSACTION,
        tx_hash: Some("AAA111".to_string()),
        block_height: 9,
        event_seq: 0,
        event_type: "transfer".to_string(),
        event_key: "sender".to_string(),
        event_value: "a".to_string(),
        indexed: false,
        inserted_at: 0,
        updated_at: None,
    }];
    let message_rows = vec![models::Message {
        id: 2,
        transaction_id: 4,
        seq: 0,
        rawdata: "{\"type\":\"send\"}".to_string(),
        inserted_at: 0,
        updated_at: None,
    }];
    let resp = responses::Transaction::new(tx_row, event_rows, message_rows);
    assert_eq!(resp.transaction_hash, "AAA111");
    assert_eq!(resp.events.len(), 1);
    assert_eq!(resp.events[0].event_key, "sender");
    assert_eq!(resp.events[0].tx_type, TX_TYPE_TRANSACTION);
    assert_eq!(resp.messages, vec!["{\"type\":\"send\"}".to_string()]);
}

#[test]
fn error_retryability_follows_classification() {
    assert!(Error::CosmosClientError(ClientErrorKind::NotYetAvailable).is_retryable());
    assert!(Error::CosmosClientError(ClientErrorKind::Transient).is_retryable());
    assert!(!Error::CosmosClientError(ClientErrorKind::Fatal).is_retryable());
    // a storage conflict is a logic fault: retrying the same commit can
    // never succeed
    assert!(!Error::DBError(StorageError::ConstraintViolation).is_retryable());
    assert!(!Error::InvalidJSONError.is_retryable());
    assert!(!Error::StartBlockMustBeGreaterThanZero.is_retryable());
}

#[test]
fn transaction_fetch_failure_is_fatal_for_the_height() {
    // a failed per-transaction sub-fetch fails the whole height and is
    // not retried as if the height were merely unproduced
    assert!(!Error::FetchingTransactionFailed.is_retryable());
}
