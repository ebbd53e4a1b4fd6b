//! Row shapes of the relational store: one persisted struct and one
//! insert payload per entity, as the committer writes them and the read
//! facade serves them.

use vstd::prelude::*;
use crate::datetime::DateTime;

verus! {

/// A tracked blockchain's registration row. The external `chain_id`
/// string is the natural key and is unique in the store.
#[derive(Debug)]
pub struct Chain {
    pub id: i32,
    pub chain_id: String,
    pub chain_name: String,
    pub icon_url: Option<String>,
    pub website: Option<String>,
    pub inserted_at: i64,
    pub updated_at: Option<i64>,
}

/// Insert payload for a chain registration.
#[derive(Debug)]
pub struct NewChain {
    pub chain_id: String,
    pub chain_name: String,
    pub inserted_at: i64,
}

/// A persisted block row. `(chain_id, height)` is unique in the store.
#[derive(Debug)]
pub struct Block {
    pub id: i32,
    pub chain_id: i32,
    pub height: i64,
    pub block_hash: String,
    pub prev_hash: String,
    pub proposer_address: String,
    pub last_commit_hash: String,
    pub data_hash: String,
    pub validators_hash: String,
    pub next_validators_hash: String,
    pub consensus_hash: String,
    pub app_hash: String,
    pub last_result_hash: String,
    pub evidence_hash: String,
    pub block_time: DateTime,
    pub inserted_at: i64,
    pub updated_at: Option<i64>,
}

/// Insert payload for a block row.
#[derive(Debug)]
pub struct NewBlock {
    pub chain_id: i32,
    pub height: i64,
    pub block_hash: String,
    pub prev_hash: String,
    pub proposer_address: String,
    pub last_commit_hash: String,
    pub data_hash: String,
    pub validators_hash: String,
    pub next_validators_hash: String,
    pub consensus_hash: String,
    pub app_hash: String,
    pub last_result_hash: String,
    pub evidence_hash: String,
    pub block_time: DateTime,
    pub inserted_at: i64,
}

/// A persisted transaction row. The transaction hash is unique in the
/// store.
#[derive(Debug)]
pub struct Transaction {
    pub id: i32,
    pub chain_id: i32,
    pub transaction_hash: String,
    pub height: i64,
    pub code: i32,
    pub code_space: String,
    pub tx_data: String,
    pub raw_log: String,
    pub info: String,
    pub memo: Option<String>,
    pub gas_wanted: i64,
    pub gas_used: i64,
    pub tx_timestamp: String,
    pub inserted_at: i64,
    pub updated_at: Option<i64>,
}

/// Insert payload for a transaction row.
#[derive(Debug)]
pub struct NewTransaction {
    pub chain_id: i32,
    pub transaction_hash: String,
    pub height: i64,
    pub code: i32,
    pub code_space: String,
    pub tx_data: String,
    pub raw_log: String,
    pub info: String,
    pub memo: Option<String>,
    pub gas_wanted: i64,
    pub gas_used: i64,
    pub tx_timestamp: String,
    pub inserted_at: i64,
}

/// A persisted message row: one decoded message payload of a transaction,
/// kept as JSON text and linked to the transaction's generated id.
#[derive(Debug)]
pub struct Message {
    pub id: i32,
    pub transaction_id: i32,
    pub seq: i32,
    pub rawdata: String,
    pub inserted_at: i64,
    pub updated_at: Option<i64>,
}

/// Insert payload for a message row.
#[derive(Debug)]
pub struct NewMessage {
    pub transaction_id: i32,
    pub seq: i32,
    pub rawdata: String,
    pub inserted_at: i64,
}

/// A persisted event row. Transaction-origin rows reference their
/// transaction by hash, not by generated id, so events can be looked up
/// by hash without a join.
#[derive(Debug)]
pub struct Event {
    pub id: i32,
    pub chain_id: i32,
    pub tx_type: i16,
    pub tx_hash: Option<String>,
    pub block_height: i64,
    pub event_seq: i32,
    pub event_type: String,
    pub event_key: String,
    pub event_value: String,
    pub indexed: bool,
    pub inserted_at: i64,
    pub updated_at: Option<i64>,
}

/// Insert payload for an event row.
#[derive(Debug)]
pub struct NewEvent {
    pub chain_id: i32,
    pub tx_type: i16,
    pub tx_hash: Option<String>,
    pub block_height: i64,
    pub event_seq: i32,
    pub event_type: String,
    pub event_key: String,
    pub event_value: String,
    pub indexed: bool,
    pub inserted_at: i64,
}

} // verus!
