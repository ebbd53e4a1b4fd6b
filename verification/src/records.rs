//! The in-memory records that flow through the pipeline: block headers,
//! transactions with their decoded messages, flattened events, and the
//! per-height unit that the fetcher assembles and the committer consumes.

use vstd::prelude::*;
use crate::datetime::DateTime;

verus! {

/// Where an event was emitted: during a transaction's execution, or by the
/// chain itself at the beginning or end of a block.
#[derive(Clone, Copy, Debug, PartialEq, Eq, Structural)]
pub enum EventType {
    Transaction,
    BeginBlock,
    EndBlock,
}

/// Storage code for transaction-origin events.
pub const TX_TYPE_TRANSACTION: i16 = 1;

/// Storage code for begin-block events.
pub const TX_TYPE_BEGIN_BLOCK: i16 = 2;

/// Storage code for end-block events.
pub const TX_TYPE_END_BLOCK: i16 = 3;

/// The storage code an event origin persists under.
pub open spec fn spec_event_type_code(t: EventType) -> i16 {
    match t {
        EventType::Transaction => TX_TYPE_TRANSACTION,
        EventType::BeginBlock => TX_TYPE_BEGIN_BLOCK,
        EventType::EndBlock => TX_TYPE_END_BLOCK,
    }
}

/// Maps an event origin to its storage code.
pub fn event_type_code(t: EventType) -> (r: i16)
    ensures
        r == spec_event_type_code(t),
{
    match t {
        EventType::Transaction => TX_TYPE_TRANSACTION,
        EventType::BeginBlock => TX_TYPE_BEGIN_BLOCK,
        EventType::EndBlock => TX_TYPE_END_BLOCK,
    }
}

/// One key/value attribute of an event as the chain reports it, before
/// flattening.
#[derive(Debug)]
pub struct EventAttribute {
    pub key: String,
    pub value: String,
}

/// An event as the chain reports it: a type string with a list of
/// attributes. Flattening turns each attribute into one `Event` record.
#[derive(Debug)]
pub struct SourceEvent {
    pub event_type: String,
    pub attributes: Vec<EventAttribute>,
}

/// A flattened event record: one attribute occurrence, tagged with its
/// origin, owning transaction (if any), and its sequence number within its
/// container.
#[derive(Debug)]
pub struct Event {
    pub tx_type: EventType,
    pub tx_hash: Option<String>,
    pub block_height: i64,
    pub event_seq: i32,
    pub event_type: String,
    pub event_key: String,
    pub event_value: String,
    pub indexed: bool,
}

/// A transaction in readable, inlined form, with its decoded message
/// payloads (JSON text, one per message, in body order).
#[derive(Debug)]
pub struct Transaction {
    pub transaction_hash: String,
    pub height: i64,
    pub code: i32,
    pub code_space: String,
    pub tx_data: String,
    pub raw_log: String,
    pub info: String,
    pub memo: Option<String>,
    pub gas_wanted: i64,
    pub gas_used: i64,
    pub tx_timestamp: String,
    pub messages: Vec<String>,
}

/// A block header in readable, inlined form.
#[derive(Debug)]
pub struct Block {
    pub height: i64,
    pub block_hash: String,
    pub prev_hash: String,
    pub proposer_address: String,
    pub last_commit_hash: String,
    pub data_hash: String,
    pub validators_hash: String,
    pub next_validators_hash: String,
    pub consensus_hash: String,
    pub app_hash: String,
    pub last_result_hash: String,
    pub evidence_hash: String,
    pub block_time: DateTime,
}

/// The unit of work for one height: the block, its transactions in
/// block-body order, and every event of the height in canonical order
/// (begin-block, end-block, then per-transaction in body order).
#[derive(Debug)]
pub struct MsgCommittedBlock {
    pub block: Block,
    pub txs: Vec<Transaction>,
    pub events: Vec<Event>,
}

/// An event with its origin already lowered to the storage code, the form
/// the persisted row carries.
#[derive(Debug)]
pub struct RawEvent {
    pub tx_type: i16,
    pub tx_hash: Option<String>,
    pub event_type: String,
    pub event_key: String,
    pub event_value: String,
    pub indexed: bool,
}

/// A transaction in readable, inlined form without its messages, the shape
/// the persisted row carries.
#[derive(Debug)]
pub struct RawTx {
    pub transaction_hash: String,
    pub height: i64,
    pub code: i32,
    pub code_space: String,
    pub tx_data: String,
    pub raw_log: String,
    pub info: String,
    pub memo: Option<String>,
    pub gas_wanted: i64,
    pub gas_used: i64,
    pub tx_timestamp: String,
}

/// Copies a string option field by field.
pub fn clone_opt_string(s: &Option<String>) -> (r: Option<String>)
    ensures
        r == *s,
{
    match s {
        Some(v) => Some(v.clone()),
        None => None,
    }
}

impl RawEvent {
    /// Lowers a flattened event to its persisted shape, mapping the origin
    /// to its storage code.
    pub fn from_event(e: &Event) -> (r: RawEvent)
        ensures
            r.tx_type == spec_event_type_code(e.tx_type),
            r.tx_hash == e.tx_hash,
            r.event_type == e.event_type,
            r.event_key == e.event_key,
            r.event_value == e.event_value,
            r.indexed == e.indexed,
    {
        RawEvent {
            tx_type: event_type_code(e.tx_type),
            tx_hash: clone_opt_string(&e.tx_hash),
            event_type: e.event_type.clone(),
            event_key: e.event_key.clone(),
            event_value: e.event_value.clone(),
            indexed: e.indexed,
        }
    }
}

impl RawTx {
    /// Strips a transaction down to its persisted shape, dropping the
    /// message payloads.
    pub fn from_transaction(t: &Transaction) -> (r: RawTx)
        ensures
            r.transaction_hash == t.transaction_hash,
            r.height == t.height,
            r.code == t.code,
            r.code_space == t.code_space,
            r.tx_data == t.tx_data,
            r.raw_log == t.raw_log,
            r.info == t.info,
            r.memo == t.memo,
            r.gas_wanted == t.gas_wanted,
            r.gas_used == t.gas_used,
            r.tx_timestamp == t.tx_timestamp,
    {
        RawTx {
            transaction_hash: t.transaction_hash.clone(),
            height: t.height,
            code: t.code,
            code_space: t.code_space.clone(),
            tx_data: t.tx_data.clone(),
            raw_log: t.raw_log.clone(),
            info: t.info.clone(),
            memo: clone_opt_string(&t.memo),
            gas_wanted: t.gas_wanted,
            gas_used: t.gas_used,
            tx_timestamp: t.tx_timestamp.clone(),
        }
    }
}

} // verus!
