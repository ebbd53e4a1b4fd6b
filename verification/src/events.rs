//! Flattening of chain events: each attribute of a reported event becomes
//! one `Event` record, tagged with its origin and its sequence number
//! (the index of the owning event within its container), and lowering of
//! flattened events to persisted rows.

use vstd::prelude::*;
use crate::models::NewEvent;
use crate::records::{spec_event_type_code, Event, EventType, SourceEvent};
use crate::records::{clone_opt_string, event_type_code};

verus! {

/// The flattened records of one reported event: one per attribute, in
/// attribute order, all carrying the owning event's sequence number.
pub open spec fn attr_events(
    ev: SourceEvent,
    seq_no: int,
    height: i64,
    tx_type: EventType,
    tx_hash: Option<String>,
) -> Seq<Event> {
    Seq::new(ev.attributes@.len(), |i: int| Event {
        tx_type: tx_type,
        tx_hash: tx_hash,
        block_height: height,
        event_seq: seq_no as i32,
        event_type: ev.event_type,
        event_key: ev.attributes@[i].key,
        event_value: ev.attributes@[i].value,
        indexed: false,
    })
}

/// The flattening of a list of reported events, in order, numbering each
/// event by its index.
pub open spec fn spec_flatten_events(
    events: Seq<SourceEvent>,
    height: i64,
    tx_type: EventType,
    tx_hash: Option<String>,
) -> Seq<Event>
    decreases events.len(),
{
    if events.len() == 0 {
        Seq::empty()
    } else {
        spec_flatten_events(events.drop_last(), height, tx_type, tx_hash) + attr_events(
            events.last(),
            events.len() - 1,
            height,
            tx_type,
            tx_hash,
        )
    }
}

proof fn lemma_flatten_take_succ(
    events: Seq<SourceEvent>,
    i: int,
    height: i64,
    tx_type: EventType,
    tx_hash: Option<String>,
)
    requires
        0 <= i < events.len(),
    ensures
        spec_flatten_events(events.take(i + 1), height, tx_type, tx_hash)
            == spec_flatten_events(events.take(i), height, tx_type, tx_hash) + attr_events(
            events[i],
            i,
            height,
            tx_type,
            tx_hash,
        ),
{
    assert(events.take(i + 1).drop_last() =~= events.take(i));
    assert(events.take(i + 1).last() == events[i]);
}

/// Flattens reported events into records tagged with the given origin and
/// owning transaction hash.
pub fn flatten_events(
    events: &Vec<SourceEvent>,
    height: i64,
    tx_type: EventType,
    tx_hash: &Option<String>,
) -> (r: Vec<Event>)
    requires
        events@.len() <= i32::MAX,
    ensures
        r@ == spec_flatten_events(events@, height, tx_type, *tx_hash),
{
    let mut out: Vec<Event> = Vec::new();
    let mut i: usize = 0;
    while i < events.len()
        invariant
            i <= events@.len(),
            events@.len() <= i32::MAX,
            out@ == spec_flatten_events(events@.take(i as int), height, tx_type, *tx_hash),
        decreases events@.len() - i,
    {
        let ev = &events[i];
        let mut j: usize = 0;
        while j < ev.attributes.len()
            invariant
                i < events@.len(),
                events@.len() <= i32::MAX,
                j <= ev.attributes@.len(),
                ev == events@[i as int],
                out@ == spec_flatten_events(events@.take(i as int), height, tx_type, *tx_hash)
                    + attr_events(events@[i as int], i as int, height, tx_type, *tx_hash).take(
                    j as int,
                ),
            decreases ev.attributes@.len() - j,
        {
            out.push(Event {
                tx_type: tx_type,
                tx_hash: clone_opt_string(tx_hash),
                block_height: height,
                event_seq: i as i32,
                event_type: ev.event_type.clone(),
                event_key: ev.attributes[j].key.clone(),
                event_value: ev.attributes[j].value.clone(),
                indexed: false,
            });
            proof {
                let full = attr_events(events@[i as int], i as int, height, tx_type, *tx_hash);
                assert(full.take(j + 1) =~= full.take(j as int) + seq![full[j as int]]);
            }
            j = j + 1;
        }
        proof {
            let full = attr_events(events@[i as int], i as int, height, tx_type, *tx_hash);
            assert(full.take(full.len() as int) =~= full);
            lemma_flatten_take_succ(events@, i as int, height, tx_type, *tx_hash);
        }
        i = i + 1;
    }
    proof {
        assert(events@.take(events@.len() as int) =~= events@);
    }
    out
}

/// Flattens block-level events (begin-block or end-block): they own no
/// transaction, so their hash field is empty.
pub fn convert_block_events(events: &Vec<SourceEvent>, height: i64, tx_type: EventType) -> (r:
    Vec<Event>)
    requires
        events@.len() <= i32::MAX,
    ensures
        r@ == spec_flatten_events(events@, height, tx_type, None),
{
    let none: Option<String> = None;
    flatten_events(events, height, tx_type, &none)
}

/// The flattening of a transaction's execution logs: each log's events
/// are flattened with sequence numbers local to that log, and the logs'
/// records are concatenated in log order.
pub open spec fn spec_transaction_events(
    logs: Seq<Vec<SourceEvent>>,
    height: i64,
    tx_hash: String,
) -> Seq<Event>
    decreases logs.len(),
{
    if logs.len() == 0 {
        Seq::empty()
    } else {
        spec_transaction_events(logs.drop_last(), height, tx_hash) + spec_flatten_events(
            logs.last()@,
            height,
            EventType::Transaction,
            Some(tx_hash),
        )
    }
}

/// Flattens the events of a transaction's execution logs, tagging every
/// record with the owning transaction's hash.
pub fn transaction_events(logs: &Vec<Vec<SourceEvent>>, height: i64, tx_hash: &String) -> (r: Vec<
    Event,
>)
    requires
        forall|k: int| 0 <= k < logs@.len() ==> #[trigger] logs@[k]@.len() <= i32::MAX,
    ensures
        r@ == spec_transaction_events(logs@, height, *tx_hash),
{
    let mut out: Vec<Event> = Vec::new();
    let mut k: usize = 0;
    while k < logs.len()
        invariant
            k <= logs@.len(),
            forall|k2: int| 0 <= k2 < logs@.len() ==> #[trigger] logs@[k2]@.len() <= i32::MAX,
            out@ == spec_transaction_events(logs@.take(k as int), height, *tx_hash),
        decreases logs@.len() - k,
    {
        let hash: Option<String> = Some(tx_hash.clone());
        let mut flat = flatten_events(&logs[k], height, EventType::Transaction, &hash);
        out.append(&mut flat);
        proof {
            assert(logs@.take(k + 1).drop_last() =~= logs@.take(k as int));
            assert(logs@.take(k + 1).last() == logs@[k as int]);
        }
        k = k + 1;
    }
    proof {
        assert(logs@.take(logs@.len() as int) =~= logs@);
    }
    out
}

/// The persisted row of one flattened event, under a chain registration
/// and an insertion time.
pub open spec fn spec_event_row(e: Event, chain_id: i32, now: i64) -> NewEvent {
    NewEvent {
        chain_id: chain_id,
        tx_type: spec_event_type_code(e.tx_type),
        tx_hash: e.tx_hash,
        block_height: e.block_height,
        event_seq: e.event_seq,
        event_type: e.event_type,
        event_key: e.event_key,
        event_value: e.event_value,
        indexed: e.indexed,
        inserted_at: now,
    }
}

/// The persisted rows of a list of flattened events, in order.
pub open spec fn spec_event_rows(es: Seq<Event>, chain_id: i32, now: i64) -> Seq<NewEvent> {
    es.map(|i: int, e: Event| spec_event_row(e, chain_id, now))
}

/// Lowers flattened events to their persisted rows.
pub fn events_to_rows(es: &Vec<Event>, chain_id: i32, now: i64) -> (r: Vec<NewEvent>)
    ensures
        r@ == spec_event_rows(es@, chain_id, now),
{
    let mut out: Vec<NewEvent> = Vec::new();
    let mut i: usize = 0;
    while i < es.len()
        invariant
            i <= es@.len(),
            out@ == spec_event_rows(es@.take(i as int), chain_id, now),
        decreases es@.len() - i,
    {
        let e = &es[i];
        out.push(NewEvent {
            chain_id: chain_id,
            tx_type: event_type_code(e.tx_type),
            tx_hash: clone_opt_string(&e.tx_hash),
            block_height: e.block_height,
            event_seq: e.event_seq,
            event_type: e.event_type.clone(),
            event_key: e.event_key.clone(),
            event_value: e.event_value.clone(),
            indexed: e.indexed,
            inserted_at: now,
        });
        proof {
            assert(spec_event_rows(es@.take(i + 1), chain_id, now) =~= spec_event_rows(
                es@.take(i as int),
                chain_id,
                now,
            ) + seq![spec_event_row(es@[i as int], chain_id, now)]);
        }
        i = i + 1;
    }
    proof {
        assert(es@.take(es@.len() as int) =~= es@);
    }
    out
}

/// Flattens begin-block events straight to persisted rows.
pub fn extract_begin_block_events(
    events: &Vec<SourceEvent>,
    height: i64,
    chain_id: i32,
    now: i64,
) -> (r: Vec<NewEvent>)
    requires
        events@.len() <= i32::MAX,
    ensures
        r@ == spec_event_rows(
            spec_flatten_events(events@, height, EventType::BeginBlock, None),
            chain_id,
            now,
        ),
{
    let flat = convert_block_events(events, height, EventType::BeginBlock);
    events_to_rows(&flat, chain_id, now)
}

/// Flattens end-block events straight to persisted rows.
pub fn extract_end_block_events(
    events: &Vec<SourceEvent>,
    height: i64,
    chain_id: i32,
    now: i64,
) -> (r: Vec<NewEvent>)
    requires
        events@.len() <= i32::MAX,
    ensures
        r@ == spec_event_rows(
            spec_flatten_events(events@, height, EventType::EndBlock, None),
            chain_id,
            now,
        ),
{
    let flat = convert_block_events(events, height, EventType::EndBlock);
    events_to_rows(&flat, chain_id, now)
}

/// Flattens a transaction's log events straight to persisted rows.
pub fn extract_tx_events(
    logs: &Vec<Vec<SourceEvent>>,
    height: i64,
    tx_hash: &String,
    chain_id: i32,
    now: i64,
) -> (r: Vec<NewEvent>)
    requires
        forall|k: int| 0 <= k < logs@.len() ==> #[trigger] logs@[k]@.len() <= i32::MAX,
    ensures
        r@ == spec_event_rows(spec_transaction_events(logs@, height, *tx_hash), chain_id, now),
{
    let flat = transaction_events(logs, height, tx_hash);
    events_to_rows(&flat, chain_id, now)
}

} // verus!
