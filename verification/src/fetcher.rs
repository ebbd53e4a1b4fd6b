//! Per-height assembly: the fetch stage retrieves a block, its
//! block-level events, its transactions and their events and messages —
//! concurrently and in any order — and this module assembles the one
//! immutable record of the height, pinning the canonical event order:
//! begin-block, end-block, then per-transaction in block-body order.

use vstd::prelude::*;
use crate::records::{Block, Event, MsgCommittedBlock, Transaction};

verus! {

/// The concatenation of per-transaction event lists, in transaction
/// order.
pub open spec fn concat_event_lists(lists: Seq<Vec<Event>>) -> Seq<Event>
    decreases lists.len(),
{
    if lists.len() == 0 {
        Seq::empty()
    } else {
        concat_event_lists(lists.drop_last()) + lists.last()@
    }
}

/// The canonical event order of one height: begin-block events, then
/// end-block events, then each transaction's events in block-body order.
pub open spec fn spec_merged_events(
    begin_events: Seq<Event>,
    end_events: Seq<Event>,
    tx_events: Seq<Vec<Event>>,
) -> Seq<Event> {
    begin_events + end_events + concat_event_lists(tx_events)
}

/// Appends a transaction's fetched message payloads to those it already
/// carries, leaving every other field as it was.
pub fn attach_messages(tx: Transaction, messages: Vec<String>) -> (r: Transaction)
    ensures
        r.transaction_hash == tx.transaction_hash,
        r.height == tx.height,
        r.code == tx.code,
        r.code_space == tx.code_space,
        r.tx_data == tx.tx_data,
        r.raw_log == tx.raw_log,
        r.info == tx.info,
        r.memo == tx.memo,
        r.gas_wanted == tx.gas_wanted,
        r.gas_used == tx.gas_used,
        r.tx_timestamp == tx.tx_timestamp,
        r.messages@ == tx.messages@ + messages@,
{
    let mut tx = tx;
    let mut messages = messages;
    tx.messages.append(&mut messages);
    tx
}

/// Attaches each transaction's fetched message payloads, position by
/// position.
pub fn attach_all_messages(txs: Vec<Transaction>, message_lists: Vec<Vec<String>>) -> (r: Vec<
    Transaction,
>)
    requires
        txs@.len() == message_lists@.len(),
    ensures
        r@.len() == txs@.len(),
        forall|k: int|
            0 <= k < r@.len() ==> {
                &&& (#[trigger] r@[k]).transaction_hash == txs@[k].transaction_hash
                &&& r@[k].height == txs@[k].height
                &&& r@[k].code == txs@[k].code
                &&& r@[k].code_space == txs@[k].code_space
                &&& r@[k].tx_data == txs@[k].tx_data
                &&& r@[k].raw_log == txs@[k].raw_log
                &&& r@[k].info == txs@[k].info
                &&& r@[k].memo == txs@[k].memo
                &&& r@[k].gas_wanted == txs@[k].gas_wanted
                &&& r@[k].gas_used == txs@[k].gas_used
                &&& r@[k].tx_timestamp == txs@[k].tx_timestamp
                &&& r@[k].messages@ == txs@[k].messages@ + message_lists@[k]@
            },
{
    let ghost txs0 = txs@;
    let ghost lists0 = message_lists@;
    let mut txs = txs;
    let mut message_lists = message_lists;
    let mut out: Vec<Transaction> = Vec::new();
    let mut k: usize = 0;
    while k < txs.len()
        invariant
            k <= txs0.len(),
            txs@ == txs0,
            message_lists@ == lists0,
            txs0.len() == lists0.len(),
            out@.len() == k,
            forall|k2: int|
                0 <= k2 < k ==> {
                    &&& (#[trigger] out@[k2]).transaction_hash == txs0[k2].transaction_hash
                    &&& out@[k2].height == txs0[k2].height
                    &&& out@[k2].code == txs0[k2].code
                    &&& out@[k2].code_space == txs0[k2].code_space
                    &&& out@[k2].tx_data == txs0[k2].tx_data
                    &&& out@[k2].raw_log == txs0[k2].raw_log
                    &&& out@[k2].info == txs0[k2].info
                    &&& out@[k2].memo == txs0[k2].memo
                    &&& out@[k2].gas_wanted == txs0[k2].gas_wanted
                    &&& out@[k2].gas_used == txs0[k2].gas_used
                    &&& out@[k2].tx_timestamp == txs0[k2].tx_timestamp
                    &&& out@[k2].messages@ == txs0[k2].messages@ + lists0[k2]@
                },
        decreases txs0.len() - k,
    {
        let tx = clone_transaction(&txs[k]);
        let messages = clone_string_vec(&message_lists[k]);
        out.push(attach_messages(tx, messages));
        k = k + 1;
    }
    out
}

/// Copies a transaction field by field.
pub fn clone_transaction(t: &Transaction) -> (r: Transaction)
    ensures
        r.transaction_hash == t.transaction_hash,
        r.height == t.height,
        r.code == t.code,
        r.code_space == t.code_space,
        r.tx_data == t.tx_data,
        r.raw_log == t.raw_log,
        r.info == t.info,
        r.memo == t.memo,
        r.gas_wanted == t.gas_wanted,
        r.gas_used == t.gas_used,
        r.tx_timestamp == t.tx_timestamp,
        r.messages@ == t.messages@,
{
    Transaction {
        transaction_hash: t.transaction_hash.clone(),
        height: t.height,
        code: t.code,
        code_space: t.code_space.clone(),
        tx_data: t.tx_data.clone(),
        raw_log: t.raw_log.clone(),
        info: t.info.clone(),
        memo: crate::records::clone_opt_string(&t.memo),
        gas_wanted: t.gas_wanted,
        gas_used: t.gas_used,
        tx_timestamp: t.tx_timestamp.clone(),
        messages: clone_string_vec(&t.messages),
    }
}

/// Copies a list of strings element by element.
pub fn clone_string_vec(v: &Vec<String>) -> (r: Vec<String>)
    ensures
        r@ == v@,
{
    let mut out: Vec<String> = Vec::new();
    let mut i: usize = 0;
    while i < v.len()
        invariant
            i <= v@.len(),
            out@ == v@.take(i as int),
        decreases v@.len() - i,
    {
        out.push(v[i].clone());
        proof {
            assert(v@.take(i + 1) =~= v@.take(i as int) + seq![v@[i as int]]);
        }
        i = i + 1;
    }
    proof {
        assert(v@.take(v@.len() as int) =~= v@);
        assert(out@ =~= v@);
    }
    out
}

/// Assembles the one immutable record of a height from its fetched
/// parts, merging the events in the canonical order.
pub fn assemble_committed_block(
    block: Block,
    txs: Vec<Transaction>,
    begin_events: Vec<Event>,
    end_events: Vec<Event>,
    tx_events: Vec<Vec<Event>>,
) -> (r: MsgCommittedBlock)
    ensures
        r.block == block,
        r.txs == txs,
        r.events@ == spec_merged_events(begin_events@, end_events@, tx_events@),
{
    let ghost begin0 = begin_events@;
    let ghost end0 = end_events@;
    let ghost lists0 = tx_events@;
    let mut events = begin_events;
    let mut end_events = end_events;
    events.append(&mut end_events);
    let mut lists = tx_events;
    let total = lists.len();
    proof {
        assert(lists0.len() == total);
    }
    let mut i: usize = 0;
    while lists.len() > 0
        invariant
            lists@ == lists0.skip(i as int),
            i + lists@.len() == lists0.len(),
            lists0.len() <= usize::MAX,
            events@ == begin0 + end0 + concat_event_lists(lists0.take(i as int)),
        decreases lists@.len(),
    {
        let mut l = lists.remove(0);
        proof {
            assert(l == lists0[i as int]);
        }
        events.append(&mut l);
        proof {
            assert(lists@ =~= lists0.skip(i + 1));
            assert(lists0.take(i + 1).drop_last() =~= lists0.take(i as int));
            assert(lists0.take(i + 1).last() == lists0[i as int]);
            assert(concat_event_lists(lists0.take(i + 1)) == concat_event_lists(
                lists0.take(i as int),
            ) + lists0[i as int]@);
        }
        i = i + 1;
    }
    proof {
        assert(lists0.take(lists0.len() as int) =~= lists0);
    }
    MsgCommittedBlock { block, txs, events }
}

} // verus!
