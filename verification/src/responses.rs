//! Response shapes of the read facade: a transaction joined with its
//! events and decoded messages, as the API serves it.

use vstd::prelude::*;
use crate::models;
use crate::records::clone_opt_string;

verus! {

/// An event as the API serves it.
#[derive(Debug)]
pub struct Event {
    pub tx_type: i16,
    pub tx_hash: Option<String>,
    pub block_height: i64,
    pub event_seq: i32,
    pub event_type: String,
    pub event_key: String,
    pub event_value: String,
    pub indexed: bool,
}

/// A transaction as the API serves it: the row joined with its events
/// and its message payloads.
#[derive(Debug)]
pub struct Transaction {
    pub chain_id: i32,
    pub transaction_hash: String,
    pub height: i64,
    pub code: i32,
    pub code_space: String,
    pub tx_data: String,
    pub raw_log: String,
    pub info: String,
    pub memo: Option<String>,
    pub gas_wanted: i64,
    pub gas_used: i64,
    pub tx_timestamp: String,
    pub messages: Vec<String>,
    pub events: Vec<Event>,
}

/// The served form of a persisted event row.
pub open spec fn spec_response_event(e: models::Event) -> Event {
    Event {
        tx_type: e.tx_type,
        tx_hash: e.tx_hash,
        block_height: e.block_height,
        event_seq: e.event_seq,
        event_type: e.event_type,
        event_key: e.event_key,
        event_value: e.event_value,
        indexed: e.indexed,
    }
}

impl Transaction {
    /// Joins a transaction row with its event rows and its message rows
    /// into the served shape: the row's fields as they are, the events in
    /// order, the messages' payload text in order.
    pub fn new(
        tx: models::Transaction,
        events: Vec<models::Event>,
        messages: Vec<models::Message>,
    ) -> (r: Transaction)
        ensures
            r.chain_id == tx.chain_id,
            r.transaction_hash == tx.transaction_hash,
            r.height == tx.height,
            r.code == tx.code,
            r.code_space == tx.code_space,
            r.tx_data == tx.tx_data,
            r.raw_log == tx.raw_log,
            r.info == tx.info,
            r.memo == tx.memo,
            r.gas_wanted == tx.gas_wanted,
            r.gas_used == tx.gas_used,
            r.tx_timestamp == tx.tx_timestamp,
            r.events@ == events@.map(|i: int, e: models::Event| spec_response_event(e)),
            r.messages@ == messages@.map(|i: int, m: models::Message| m.rawdata),
    {
        let mut tx_events: Vec<Event> = Vec::new();
        let mut i: usize = 0;
        while i < events.len()
            invariant
                i <= events@.len(),
                tx_events@ == events@.take(i as int).map(
                    |k: int, e: models::Event| spec_response_event(e),
                ),
            decreases events@.len() - i,
        {
            let e = &events[i];
            tx_events.push(Event {
                tx_type: e.tx_type,
                tx_hash: clone_opt_string(&e.tx_hash),
                block_height: e.block_height,
                event_seq: e.event_seq,
                event_type: e.event_type.clone(),
                event_key: e.event_key.clone(),
                event_value: e.event_value.clone(),
                indexed: e.indexed,
            });
            proof {
                assert(events@.take(i + 1).map(|k: int, e: models::Event| spec_response_event(e))
                    =~= events@.take(i as int).map(
                    |k: int, e: models::Event| spec_response_event(e),
                ) + seq![spec_response_event(events@[i as int])]);
            }
            i = i + 1;
        }
        let mut tx_messages: Vec<String> = Vec::new();
        let mut j: usize = 0;
        while j < messages.len()
            invariant
                j <= messages@.len(),
                tx_messages@ == messages@.take(j as int).map(
                    |k: int, m: models::Message| m.rawdata,
                ),
            decreases messages@.len() - j,
        {
            tx_messages.push(messages[j].rawdata.clone());
            proof {
                assert(messages@.take(j + 1).map(|k: int, m: models::Message| m.rawdata)
                    =~= messages@.take(j as int).map(|k: int, m: models::Message| m.rawdata)
                    + seq![messages@[j as int].rawdata]);
            }
            j = j + 1;
        }
        proof {
            assert(events@.take(events@.len() as int) =~= events@);
            assert(messages@.take(messages@.len() as int) =~= messages@);
        }
        Transaction {
            chain_id: tx.chain_id,
            transaction_hash: tx.transaction_hash,
            height: tx.height,
            code: tx.code,
            code_space: tx.code_space,
            tx_data: tx.tx_data,
            raw_log: tx.raw_log,
            info: tx.info,
            memo: tx.memo,
            gas_wanted: tx.gas_wanted,
            gas_used: tx.gas_used,
            tx_timestamp: tx.tx_timestamp,
            messages: tx_messages,
            events: tx_events,
        }
    }
}

} // verus!
