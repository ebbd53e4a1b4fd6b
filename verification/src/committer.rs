//! The committer: persists one assembled height as a single atomic unit —
//! block row, transaction rows, their message rows, event rows — and
//! advances its checkpoint by exactly one per persisted height. A commit
//! either applies whole or leaves the store untouched.

use vstd::prelude::*;
use crate::errors::{Error, StorageError};
use crate::models::{Chain, Message, NewBlock, NewMessage, NewTransaction};
use crate::records::{Event, MsgCommittedBlock, Transaction};
use crate::events::spec_event_row;
use crate::storage::{has_block_at, has_tx_hash, spec_block_row, spec_event_row_with_id,
    spec_transaction_row, PersistenceStorage};

verus! {

/// Whether serde_json accepts the text as a JSON document. The answer
/// depends on the text alone.
pub uninterp spec fn json_accepts(s: Seq<char>) -> bool;

/// Relies on serde_json::from_str: returns whether the text parses as a
/// JSON value.
#[verifier::external_body]
fn json_is_valid(s: &str) -> (r: bool)
    ensures
        r == json_accepts(s@),
{
    serde_json::from_str::<serde_json::Value>(s).is_ok()
}

/// The block insert payload of an assembled height.
pub open spec fn spec_new_block(chain_id: i32, b: crate::records::Block, now: i64) -> NewBlock {
    NewBlock {
        chain_id: chain_id,
        height: b.height,
        block_hash: b.block_hash,
        prev_hash: b.prev_hash,
        proposer_address: b.proposer_address,
        last_commit_hash: b.last_commit_hash,
        data_hash: b.data_hash,
        validators_hash: b.validators_hash,
        next_validators_hash: b.next_validators_hash,
        consensus_hash: b.consensus_hash,
        app_hash: b.app_hash,
        last_result_hash: b.last_result_hash,
        evidence_hash: b.evidence_hash,
        block_time: b.block_time,
        inserted_at: now,
    }
}

/// The transaction insert payload of an assembled transaction.
pub open spec fn spec_new_tx(chain_id: i32, t: Transaction, now: i64) -> NewTransaction {
    NewTransaction {
        chain_id: chain_id,
        transaction_hash: t.transaction_hash,
        height: t.height,
        code: t.code,
        code_space: t.code_space,
        tx_data: t.tx_data,
        raw_log: t.raw_log,
        info: t.info,
        memo: t.memo,
        gas_wanted: t.gas_wanted,
        gas_used: t.gas_used,
        tx_timestamp: t.tx_timestamp,
        inserted_at: now,
    }
}

/// The transaction rows one commit appends, in block-body order, under
/// consecutive generated ids starting at `first_id`.
pub open spec fn spec_tx_rows(
    chain_id: i32,
    txs: Seq<Transaction>,
    first_id: int,
    now: i64,
) -> Seq<crate::models::Transaction> {
    Seq::new(
        txs.len(),
        |k: int| spec_transaction_row(spec_new_tx(chain_id, txs[k], now), (first_id + k) as i32),
    )
}

/// The total number of message payloads across the transactions.
pub open spec fn total_messages(txs: Seq<Transaction>) -> int
    decreases txs.len(),
{
    if txs.len() == 0 {
        0
    } else {
        total_messages(txs.drop_last()) + txs.last().messages@.len()
    }
}

/// The message rows of one transaction: one per payload, in body order,
/// referencing the transaction's generated id.
pub open spec fn per_tx_message_rows(t: Transaction, tx_id: int, first_id: int, now: i64) -> Seq<
    Message,
> {
    Seq::new(
        t.messages@.len(),
        |j: int| Message {
            id: (first_id + j) as i32,
            transaction_id: tx_id as i32,
            seq: j as i32,
            rawdata: t.messages@[j],
            inserted_at: now,
            updated_at: None,
        },
    )
}

/// The message rows one commit appends: each transaction's payloads in
/// order, transactions in block-body order, ids consecutive.
pub open spec fn spec_message_rows(
    txs: Seq<Transaction>,
    first_tx_id: int,
    first_msg_id: int,
    now: i64,
) -> Seq<Message>
    decreases txs.len(),
{
    if txs.len() == 0 {
        Seq::empty()
    } else {
        spec_message_rows(txs.drop_last(), first_tx_id, first_msg_id, now) + per_tx_message_rows(
            txs.last(),
            first_tx_id + txs.len() - 1,
            first_msg_id + total_messages(txs.drop_last()),
            now,
        )
    }
}

/// The event rows one commit appends, in the assembled order, under
/// consecutive generated ids starting at `first_id`.
pub open spec fn spec_event_rows_with_ids(
    events: Seq<Event>,
    chain_id: i32,
    first_id: int,
    now: i64,
) -> Seq<crate::models::Event> {
    Seq::new(
        events.len(),
        |k: int| spec_event_row_with_id(
            spec_event_row(events[k], chain_id, now),
            (first_id + k) as i32,
        ),
    )
}

/// Every message payload of the transaction is valid JSON.
pub open spec fn tx_messages_json(t: Transaction) -> bool {
    forall|j: int| 0 <= j < t.messages@.len() ==> json_accepts(#[trigger] t.messages@[j]@)
}

/// The hash of `txs[k]` collides neither with a persisted transaction nor
/// with an earlier transaction of the same height.
pub open spec fn tx_hash_fresh(
    store_txs: Seq<crate::models::Transaction>,
    txs: Seq<Transaction>,
    k: int,
) -> bool {
    &&& !has_tx_hash(store_txs, txs[k].transaction_hash)
    &&& forall|j: int|
        0 <= j < k ==> (#[trigger] txs[j]).transaction_hash@ != txs[k].transaction_hash@
}

/// `txs[k]` can be persisted: fresh hash and valid message payloads.
pub open spec fn tx_acceptable(
    store_txs: Seq<crate::models::Transaction>,
    txs: Seq<Transaction>,
    k: int,
) -> bool {
    &&& tx_hash_fresh(store_txs, txs, k)
    &&& tx_messages_json(txs[k])
}

/// An assembled height can be committed against the given store state:
/// no block row at its height yet, every transaction hash fresh, every
/// message payload valid JSON.
pub open spec fn spec_commit_ok(
    store_blocks: Seq<crate::models::Block>,
    store_txs: Seq<crate::models::Transaction>,
    chain_id: i32,
    msg: MsgCommittedBlock,
) -> bool {
    &&& !has_block_at(store_blocks, chain_id, msg.block.height)
    &&& forall|k: int| 0 <= k < msg.txs@.len() ==> tx_acceptable(store_txs, msg.txs@, k)
}

/// The error of the first transaction, scanning from `k`, that cannot be
/// persisted: a hash collision before a bad payload, matching the order
/// the inserts would run in.
pub open spec fn spec_first_tx_error(
    store_txs: Seq<crate::models::Transaction>,
    txs: Seq<Transaction>,
    k: int,
) -> Error
    decreases txs.len() - k,
{
    if k < 0 || k >= txs.len() {
        Error::UnexpectedError
    } else if !tx_hash_fresh(store_txs, txs, k) {
        Error::DBError(StorageError::ConstraintViolation)
    } else if !tx_messages_json(txs[k]) {
        Error::InvalidJSONError
    } else {
        spec_first_tx_error(store_txs, txs, k + 1)
    }
}

/// The error a refused commit reports: a duplicate height before any
/// transaction fault, then the first transaction's fault in insert order.
pub open spec fn spec_commit_error(
    store_blocks: Seq<crate::models::Block>,
    store_txs: Seq<crate::models::Transaction>,
    chain_id: i32,
    msg: MsgCommittedBlock,
) -> Error {
    if has_block_at(store_blocks, chain_id, msg.block.height) {
        Error::DBError(StorageError::ConstraintViolation)
    } else {
        spec_first_tx_error(store_txs, msg.txs@, 0)
    }
}

proof fn lemma_first_tx_error_from(
    store_txs: Seq<crate::models::Transaction>,
    txs: Seq<Transaction>,
    a: int,
    b: int,
)
    requires
        0 <= a <= b <= txs.len(),
        forall|k: int| a <= k < b ==> tx_acceptable(store_txs, txs, k),
    ensures
        spec_first_tx_error(store_txs, txs, a) == spec_first_tx_error(store_txs, txs, b),
    decreases b - a,
{
    if a < b {
        assert(tx_acceptable(store_txs, txs, a));
        assert(spec_first_tx_error(store_txs, txs, a) == spec_first_tx_error(store_txs, txs, a + 1));
        lemma_first_tx_error_from(store_txs, txs, a + 1, b);
    }
}

proof fn lemma_total_messages_take_succ(txs: Seq<Transaction>, k: int)
    requires
        0 <= k < txs.len(),
    ensures
        total_messages(txs.take(k + 1)) == total_messages(txs.take(k)) + txs[k].messages@.len(),
{
    assert(txs.take(k + 1).drop_last() =~= txs.take(k));
    assert(txs.take(k + 1).last() == txs[k]);
}

proof fn lemma_total_messages_bounds(txs: Seq<Transaction>, k: int)
    requires
        0 <= k <= txs.len(),
    ensures
        0 <= total_messages(txs.take(k)) <= total_messages(txs),
    decreases txs.len() - k,
{
    if k == txs.len() {
        assert(txs.take(k) =~= txs);
        lemma_total_messages_nonneg(txs);
    } else {
        lemma_total_messages_take_succ(txs, k);
        lemma_total_messages_bounds(txs, k + 1);
        lemma_total_messages_nonneg(txs.take(k));
    }
}

proof fn lemma_total_messages_nonneg(txs: Seq<Transaction>)
    ensures
        total_messages(txs) >= 0,
    decreases txs.len(),
{
    if txs.len() > 0 {
        lemma_total_messages_nonneg(txs.drop_last());
    }
}

proof fn lemma_message_rows_take_succ(
    txs: Seq<Transaction>,
    k: int,
    first_tx_id: int,
    first_msg_id: int,
    now: i64,
)
    requires
        0 <= k < txs.len(),
    ensures
        spec_message_rows(txs.take(k + 1), first_tx_id, first_msg_id, now) == spec_message_rows(
            txs.take(k),
            first_tx_id,
            first_msg_id,
            now,
        ) + per_tx_message_rows(
            txs[k],
            first_tx_id + k,
            first_msg_id + total_messages(txs.take(k)),
            now,
        ),
{
    assert(txs.take(k + 1).drop_last() =~= txs.take(k));
    assert(txs.take(k + 1).last() == txs[k]);
}

/// Consumes the ordered stream of assembled heights and persists each as
/// one atomic unit.
pub struct Committer {
    /// The store the committer writes to.
    pub storage: PersistenceStorage,
    /// The chain registration every row is attributed to.
    pub chain: Chain,
    /// The next height the committer expects.
    pub checkpoint_block: u64,
}

impl Committer {
    /// The next height the committer expects.
    pub open spec fn spec_checkpoint(&self) -> u64 {
        self.checkpoint_block
    }

    /// Creates a committer over a store, a chain registration, and the
    /// first height it expects.
    pub fn new(storage: PersistenceStorage, chain: Chain, checkpoint_block: u64) -> (r: Committer)
        ensures
            r.storage == storage,
            r.chain == chain,
            r.spec_checkpoint() == checkpoint_block,
    {
        Committer { storage, chain, checkpoint_block }
    }

    /// The next height the committer expects.
    pub fn checkpoint(&self) -> (r: u64)
        ensures
            r == self.spec_checkpoint(),
    {
        self.checkpoint_block
    }

    /// Whether the machine-limit preconditions of `commit_block` hold for
    /// this height: the height is positive and in range, the checkpoint
    /// can still advance, and the store's id counters have room for every
    /// row the height would add. A caller outside the proofs checks this
    /// before committing and treats a refusal as fatal.
    pub fn can_commit(&self, msg: &MsgCommittedBlock) -> (r: bool)
        requires
            self.storage.wf(),
        ensures
            r == ({
                &&& 1 <= msg.block.height < i64::MAX
                &&& self.spec_checkpoint() < u64::MAX
                &&& self.storage.spec_next_block_id() < i32::MAX
                &&& self.storage.spec_next_transaction_id() + msg.txs@.len() <= i32::MAX
                &&& self.storage.spec_next_message_id() + total_messages(msg.txs@) <= i32::MAX
                &&& self.storage.spec_next_event_id() + msg.events@.len() <= i32::MAX
            }),
    {
        proof {
            self.storage.lemma_wf_counts();
            lemma_total_messages_nonneg(msg.txs@);
        }
        if msg.block.height < 1 || msg.block.height == i64::MAX {
            return false;
        }
        if self.checkpoint_block == u64::MAX {
            return false;
        }
        if self.storage.next_block_id() == i32::MAX {
            return false;
        }
        if msg.txs.len() > (i32::MAX as usize) {
            return false;
        }
        if self.storage.next_transaction_id() as i64 + msg.txs.len() as i64 > i32::MAX as i64 {
            return false;
        }
        if msg.events.len() > (i32::MAX as usize) {
            return false;
        }
        if self.storage.next_event_id() as i64 + msg.events.len() as i64 > i32::MAX as i64 {
            return false;
        }
        // sum the message payload counts, giving up as soon as the room
        // is provably gone
        let mut total: i64 = 0;
        let mut k: usize = 0;
        while k < msg.txs.len()
            invariant
                k <= msg.txs@.len(),
                self.storage.spec_next_message_id() >= 1,
                total == total_messages(msg.txs@.take(k as int)),
                0 <= total <= i32::MAX,
            decreases msg.txs@.len() - k,
        {
            let len = msg.txs[k].messages.len();
            proof {
                lemma_total_messages_take_succ(msg.txs@, k as int);
                lemma_total_messages_bounds(msg.txs@, k + 1);
            }
            if len > (i32::MAX as usize) {
                // this transaction's payloads alone exceed the id space
                return false;
            }
            let new_total = total + (len as i64);
            if new_total > i32::MAX as i64 {
                return false;
            }
            total = new_total;
            k = k + 1;
        }
        proof {
            assert(msg.txs@.take(msg.txs@.len() as int) =~= msg.txs@);
        }
        if self.storage.next_message_id() as i64 + total > i32::MAX as i64 {
            return false;
        }
        true
    }

    /// Decides whether the height can be committed against the current
    /// store, reporting the fault of the first insert that would fail,
    /// without touching anything.
    fn check_commit(&self, msg: &MsgCommittedBlock) -> (r: Result<(), Error>)
        ensures
            r is Ok <==> spec_commit_ok(
                self.storage.blocks(),
                self.storage.transactions(),
                self.chain.id,
                *msg,
            ),
            r is Err ==> r == Result::<(), Error>::Err(
                spec_commit_error(
                    self.storage.blocks(),
                    self.storage.transactions(),
                    self.chain.id,
                    *msg,
                ),
            ),
    {
        let ghost store_blocks = self.storage.blocks();
        let ghost store_txs = self.storage.transactions();
        let ghost chain_id = self.chain.id;
        if let Ok(_) = self.storage.find_block_by_height(self.chain.id, msg.block.height) {
            return Err(Error::DBError(StorageError::ConstraintViolation));
        }
        let mut k: usize = 0;
        while k < msg.txs.len()
            invariant
                k <= msg.txs@.len(),
                store_blocks == self.storage.blocks(),
                store_txs == self.storage.transactions(),
                chain_id == self.chain.id,
                !has_block_at(store_blocks, chain_id, msg.block.height),
                forall|k2: int| 0 <= k2 < k ==> tx_acceptable(store_txs, msg.txs@, k2),
            decreases msg.txs@.len() - k,
        {
            let t = &msg.txs[k];
            if let Ok(_) = self.storage.find_transaction_by_hash(&t.transaction_hash) {
                proof {
                    lemma_first_tx_error_from(store_txs, msg.txs@, 0, k as int);
                    assert(!tx_hash_fresh(store_txs, msg.txs@, k as int));
                    assert(!tx_acceptable(store_txs, msg.txs@, k as int));
                }
                return Err(Error::DBError(StorageError::ConstraintViolation));
            }
            let mut j: usize = 0;
            while j < k
                invariant
                    j <= k < msg.txs@.len(),
                    t == msg.txs@[k as int],
                    store_blocks == self.storage.blocks(),
                    store_txs == self.storage.transactions(),
                    chain_id == self.chain.id,
                    !has_block_at(store_blocks, chain_id, msg.block.height),
                    !has_tx_hash(store_txs, msg.txs@[k as int].transaction_hash),
                    forall|k2: int| 0 <= k2 < k ==> tx_acceptable(store_txs, msg.txs@, k2),
                    forall|j2: int|
                        0 <= j2 < j ==> (#[trigger] msg.txs@[j2]).transaction_hash@
                            != msg.txs@[k as int].transaction_hash@,
                decreases k - j,
            {
                if msg.txs[j].transaction_hash.eq(&t.transaction_hash) {
                    proof {
                        assert(!tx_hash_fresh(store_txs, msg.txs@, k as int));
                        assert(!tx_acceptable(store_txs, msg.txs@, k as int));
                        lemma_first_tx_error_from(store_txs, msg.txs@, 0, k as int);
                    }
                    return Err(Error::DBError(StorageError::ConstraintViolation));
                }
                j = j + 1;
            }
            let mut m: usize = 0;
            while m < t.messages.len()
                invariant
                    m <= t.messages@.len(),
                    t == msg.txs@[k as int],
                    k < msg.txs@.len(),
                    store_blocks == self.storage.blocks(),
                    store_txs == self.storage.transactions(),
                    chain_id == self.chain.id,
                    !has_block_at(store_blocks, chain_id, msg.block.height),
                    tx_hash_fresh(store_txs, msg.txs@, k as int),
                    forall|k2: int| 0 <= k2 < k ==> tx_acceptable(store_txs, msg.txs@, k2),
                    forall|m2: int| 0 <= m2 < m ==> json_accepts(#[trigger] t.messages@[m2]@),
                decreases t.messages@.len() - m,
            {
                if !json_is_valid(t.messages[m].as_str()) {
                    proof {
                        assert(!tx_messages_json(msg.txs@[k as int]));
                        assert(!tx_acceptable(store_txs, msg.txs@, k as int));
                        lemma_first_tx_error_from(store_txs, msg.txs@, 0, k as int);
                    }
                    return Err(Error::InvalidJSONError);
                }
                m = m + 1;
            }
            proof {
                assert(tx_messages_json(msg.txs@[k as int]));
            }
            k = k + 1;
        }
        Ok(())
    }

    /// Persists one assembled height as a single atomic unit: its block
    /// row, its transaction rows with their message rows, and its event
    /// rows. Succeeds exactly when the height is new, every transaction
    /// hash is fresh, and every message payload is valid JSON; on any
    /// refusal the store is exactly as it was.
    pub fn commit_to_storage(&mut self, msg: &MsgCommittedBlock, now: i64) -> (r: Result<
        bool,
        Error,
    >)
        requires
            old(self).storage.wf(),
            1 <= msg.block.height < i64::MAX,
            old(self).storage.spec_next_block_id() < i32::MAX,
            old(self).storage.spec_next_transaction_id() + msg.txs@.len() <= i32::MAX,
            old(self).storage.spec_next_message_id() + total_messages(msg.txs@) <= i32::MAX,
            old(self).storage.spec_next_event_id() + msg.events@.len() <= i32::MAX,
        ensures
            final(self).storage.wf(),
            final(self).chain == old(self).chain,
            final(self).spec_checkpoint() == old(self).spec_checkpoint(),
            r is Ok <==> spec_commit_ok(
                old(self).storage.blocks(),
                old(self).storage.transactions(),
                old(self).chain.id,
                *msg,
            ),
            r is Ok ==> {
                &&& r == Result::<bool, Error>::Ok(true)
                &&& final(self).storage.blocks() == old(self).storage.blocks().push(
                    spec_block_row(
                        spec_new_block(old(self).chain.id, msg.block, now),
                        old(self).storage.spec_next_block_id(),
                    ),
                )
                &&& final(self).storage.transactions() == old(self).storage.transactions()
                    + spec_tx_rows(
                    old(self).chain.id,
                    msg.txs@,
                    old(self).storage.spec_next_transaction_id() as int,
                    now,
                )
                &&& final(self).storage.messages() == old(self).storage.messages()
                    + spec_message_rows(
                    msg.txs@,
                    old(self).storage.spec_next_transaction_id() as int,
                    old(self).storage.spec_next_message_id() as int,
                    now,
                )
                &&& final(self).storage.events() == old(self).storage.events()
                    + spec_event_rows_with_ids(
                    msg.events@,
                    old(self).chain.id,
                    old(self).storage.spec_next_event_id() as int,
                    now,
                )
                &&& final(self).storage.chains() == old(self).storage.chains()
            },
            r is Err ==> {
                &&& r == Result::<bool, Error>::Err(
                    spec_commit_error(
                        old(self).storage.blocks(),
                        old(self).storage.transactions(),
                        old(self).chain.id,
                        *msg,
                    ),
                )
                &&& final(self).storage == old(self).storage
            },
    {
        let ghost store_blocks = self.storage.blocks();
        let ghost store_txs = self.storage.transactions();
        let ghost store_messages = self.storage.messages();
        let ghost store_events = self.storage.events();
        let ghost store_chains = self.storage.chains();
        let ghost chain_id = self.chain.id;
        let ghost first_block_id = self.storage.spec_next_block_id() as int;
        let ghost first_tx_id = self.storage.spec_next_transaction_id() as int;
        let ghost first_msg_id = self.storage.spec_next_message_id() as int;
        let ghost first_event_id = self.storage.spec_next_event_id() as int;
        proof {
            self.storage.lemma_wf_counts();
        }

        // refuse the whole height before touching the store
        if let Err(e) = self.check_commit(msg) {
            return Err(e);
        }

        let b = &msg.block;
        let new_block = NewBlock {
            chain_id: self.chain.id,
            height: b.height,
            block_hash: b.block_hash.clone(),
            prev_hash: b.prev_hash.clone(),
            proposer_address: b.proposer_address.clone(),
            last_commit_hash: b.last_commit_hash.clone(),
            data_hash: b.data_hash.clone(),
            validators_hash: b.validators_hash.clone(),
            next_validators_hash: b.next_validators_hash.clone(),
            consensus_hash: b.consensus_hash.clone(),
            app_hash: b.app_hash.clone(),
            last_result_hash: b.last_result_hash.clone(),
            evidence_hash: b.evidence_hash.clone(),
            block_time: b.block_time,
            inserted_at: now,
        };
        proof {
            assert(new_block == spec_new_block(chain_id, msg.block, now));
        }
        match self.storage.insert_block(&new_block) {
            Ok(_) => {},
            Err(_) => {
                // the height was checked absent, so the insert cannot fail
                proof {
                    assert(false);
                }
                return Err(Error::UnexpectedError);
            },
        }

        let mut k: usize = 0;
        while k < msg.txs.len()
            invariant
                k <= msg.txs@.len(),
                self.chain == old(self).chain,
                self.spec_checkpoint() == old(self).spec_checkpoint(),
                self.storage.wf(),
                chain_id == self.chain.id,
                forall|k2: int| 0 <= k2 < msg.txs@.len() ==> tx_acceptable(store_txs, msg.txs@, k2),
                1 <= first_tx_id,
                1 <= first_msg_id,
                first_tx_id + msg.txs@.len() <= i32::MAX,
                first_msg_id + total_messages(msg.txs@) <= i32::MAX,
                first_block_id < i32::MAX,
                first_event_id >= 1,
                self.storage.blocks() == store_blocks.push(
                    spec_block_row(spec_new_block(chain_id, msg.block, now), first_block_id as i32),
                ),
                self.storage.chains() == store_chains,
                self.storage.events() == store_events,
                self.storage.spec_next_event_id() == first_event_id,
                self.storage.transactions() == store_txs + spec_tx_rows(
                    chain_id,
                    msg.txs@.take(k as int),
                    first_tx_id,
                    now,
                ),
                self.storage.messages() == store_messages + spec_message_rows(
                    msg.txs@.take(k as int),
                    first_tx_id,
                    first_msg_id,
                    now,
                ),
                self.storage.spec_next_transaction_id() == first_tx_id + k,
                self.storage.spec_next_message_id() == first_msg_id + total_messages(
                    msg.txs@.take(k as int),
                ),
            decreases msg.txs@.len() - k,
        {
            let t = &msg.txs[k];
            let new_tx = NewTransaction {
                chain_id: self.chain.id,
                transaction_hash: t.transaction_hash.clone(),
                height: t.height,
                code: t.code,
                code_space: t.code_space.clone(),
                tx_data: t.tx_data.clone(),
                raw_log: t.raw_log.clone(),
                info: t.info.clone(),
                memo: crate::records::clone_opt_string(&t.memo),
                gas_wanted: t.gas_wanted,
                gas_used: t.gas_used,
                tx_timestamp: t.tx_timestamp.clone(),
                inserted_at: now,
            };
            proof {
                assert(new_tx == spec_new_tx(chain_id, msg.txs@[k as int], now));
                lemma_total_messages_bounds(msg.txs@, k as int);
                // the hash collides neither with the store nor with the
                // rows appended so far
                let cur = self.storage.transactions();
                let prefix = spec_tx_rows(chain_id, msg.txs@.take(k as int), first_tx_id, now);
                assert(tx_acceptable(store_txs, msg.txs@, k as int));
                assert forall|i: int| 0 <= i < cur.len() implies (
                #[trigger] cur[i]).transaction_hash@ != new_tx.transaction_hash@ by {
                    if i < store_txs.len() {
                        assert(cur[i] == store_txs[i]);
                        if cur[i].transaction_hash@ == new_tx.transaction_hash@ {
                            assert(has_tx_hash(store_txs, msg.txs@[k as int].transaction_hash));
                        }
                    } else {
                        assert(cur[i] == prefix[i - store_txs.len()]);
                        assert(cur[i].transaction_hash == msg.txs@[i
                            - store_txs.len()].transaction_hash);
                    }
                }
                if has_tx_hash(cur, new_tx.transaction_hash) {
                    let w = choose|i: int|
                        0 <= i < cur.len() && (#[trigger] cur[i]).transaction_hash@
                            == new_tx.transaction_hash@;
                    assert(false);
                }
            }
            let tx_id = match self.storage.insert_transaction(&new_tx) {
                Ok(id) => id,
                Err(_) => {
                    // the hash was shown fresh just above, so the insert
                    // cannot fail
                    proof {
                        assert(false);
                    }
                    return Err(Error::UnexpectedError);
                },
            };
            proof {
                let prefix1 = spec_tx_rows(chain_id, msg.txs@.take(k + 1), first_tx_id, now);
                let prefix0 = spec_tx_rows(chain_id, msg.txs@.take(k as int), first_tx_id, now);
                assert(prefix1 =~= prefix0 + seq![
                    spec_transaction_row(
                        spec_new_tx(chain_id, msg.txs@[k as int], now),
                        (first_tx_id + k) as i32,
                    ),
                ]);
                assert(self.storage.transactions() =~= store_txs + prefix1);
                lemma_total_messages_bounds(msg.txs@, k as int);
                lemma_total_messages_take_succ(msg.txs@, k as int);
                lemma_total_messages_bounds(msg.txs@, k + 1);
            }
            let mut m: usize = 0;
            while m < t.messages.len()
                invariant
                    m <= t.messages@.len(),
                    t == msg.txs@[k as int],
                    k < msg.txs@.len(),
                    tx_id == first_tx_id + k,
                    self.chain == old(self).chain,
                    self.spec_checkpoint() == old(self).spec_checkpoint(),
                    self.storage.wf(),
                    chain_id == self.chain.id,
                    1 <= first_msg_id,
                    total_messages(msg.txs@.take(k as int)) >= 0,
                    first_msg_id + total_messages(msg.txs@.take(k as int)) + t.messages@.len()
                        <= i32::MAX,
                    self.storage.blocks() == store_blocks.push(
                        spec_block_row(
                            spec_new_block(chain_id, msg.block, now),
                            first_block_id as i32,
                        ),
                    ),
                    self.storage.chains() == store_chains,
                    self.storage.events() == store_events,
                    self.storage.spec_next_event_id() == first_event_id,
                    self.storage.transactions() == store_txs + spec_tx_rows(
                        chain_id,
                        msg.txs@.take(k + 1),
                        first_tx_id,
                        now,
                    ),
                    self.storage.spec_next_transaction_id() == first_tx_id + k + 1,
                    self.storage.messages() == store_messages + spec_message_rows(
                        msg.txs@.take(k as int),
                        first_tx_id,
                        first_msg_id,
                        now,
                    ) + per_tx_message_rows(
                        msg.txs@[k as int],
                        first_tx_id + k,
                        first_msg_id + total_messages(msg.txs@.take(k as int)),
                        now,
                    ).take(m as int),
                    self.storage.spec_next_message_id() == first_msg_id + total_messages(
                        msg.txs@.take(k as int),
                    ) + m,
                decreases t.messages@.len() - m,
            {
                let new_message = NewMessage {
                    transaction_id: tx_id,
                    seq: m as i32,
                    rawdata: t.messages[m].clone(),
                    inserted_at: now,
                };
                match self.storage.insert_message(&new_message) {
                    Ok(_) => {},
                    Err(_) => {
                        // message inserts have no constraint to break
                        proof {
                            assert(false);
                        }
                        return Err(Error::UnexpectedError);
                    },
                }
                proof {
                    let rows = per_tx_message_rows(
                        msg.txs@[k as int],
                        first_tx_id + k,
                        first_msg_id + total_messages(msg.txs@.take(k as int)),
                        now,
                    );
                    assert(rows.take(m + 1) =~= rows.take(m as int) + seq![rows[m as int]]);
                    assert(self.storage.messages() =~= store_messages + spec_message_rows(
                        msg.txs@.take(k as int),
                        first_tx_id,
                        first_msg_id,
                        now,
                    ) + rows.take(m + 1));
                }
                m = m + 1;
            }
            proof {
                let rows = per_tx_message_rows(
                    msg.txs@[k as int],
                    first_tx_id + k,
                    first_msg_id + total_messages(msg.txs@.take(k as int)),
                    now,
                );
                assert(rows.take(rows.len() as int) =~= rows);
                lemma_message_rows_take_succ(msg.txs@, k as int, first_tx_id, first_msg_id, now);
                lemma_total_messages_take_succ(msg.txs@, k as int);
                assert(self.storage.messages() =~= store_messages + spec_message_rows(
                    msg.txs@.take(k + 1),
                    first_tx_id,
                    first_msg_id,
                    now,
                ));
            }
            k = k + 1;
        }
        proof {
            assert(msg.txs@.take(msg.txs@.len() as int) =~= msg.txs@);
        }

        let mut i: usize = 0;
        while i < msg.events.len()
            invariant
                i <= msg.events@.len(),
                self.chain == old(self).chain,
                self.spec_checkpoint() == old(self).spec_checkpoint(),
                self.storage.wf(),
                chain_id == self.chain.id,
                first_event_id >= 1,
                first_event_id + msg.events@.len() <= i32::MAX,
                first_block_id < i32::MAX,
                self.storage.blocks() == store_blocks.push(
                    spec_block_row(spec_new_block(chain_id, msg.block, now), first_block_id as i32),
                ),
                self.storage.chains() == store_chains,
                self.storage.transactions() == store_txs + spec_tx_rows(
                    chain_id,
                    msg.txs@,
                    first_tx_id,
                    now,
                ),
                self.storage.messages() == store_messages + spec_message_rows(
                    msg.txs@,
                    first_tx_id,
                    first_msg_id,
                    now,
                ),
                self.storage.events() == store_events + spec_event_rows_with_ids(
                    msg.events@.take(i as int),
                    chain_id,
                    first_event_id,
                    now,
                ),
                self.storage.spec_next_event_id() == first_event_id + i,
            decreases msg.events@.len() - i,
        {
            let e = &msg.events[i];
            let new_event = crate::models::NewEvent {
                chain_id: self.chain.id,
                tx_type: crate::records::event_type_code(e.tx_type),
                tx_hash: crate::records::clone_opt_string(&e.tx_hash),
                block_height: e.block_height,
                event_seq: e.event_seq,
                event_type: e.event_type.clone(),
                event_key: e.event_key.clone(),
                event_value: e.event_value.clone(),
                indexed: e.indexed,
                inserted_at: now,
            };
            proof {
                assert(new_event == spec_event_row(msg.events@[i as int], chain_id, now));
            }
            match self.storage.insert_event(&new_event) {
                Ok(_) => {},
                Err(_) => {
                    // event inserts have no constraint to break
                    proof {
                        assert(false);
                    }
                    return Err(Error::UnexpectedError);
                },
            }
            proof {
                let rows1 = spec_event_rows_with_ids(
                    msg.events@.take(i + 1),
                    chain_id,
                    first_event_id,
                    now,
                );
                let rows0 = spec_event_rows_with_ids(
                    msg.events@.take(i as int),
                    chain_id,
                    first_event_id,
                    now,
                );
                assert(rows1 =~= rows0 + seq![
                    spec_event_row_with_id(
                        spec_event_row(msg.events@[i as int], chain_id, now),
                        (first_event_id + i) as i32,
                    ),
                ]);
                assert(self.storage.events() =~= store_events + rows1);
            }
            i = i + 1;
        }
        proof {
            assert(msg.events@.take(msg.events@.len() as int) =~= msg.events@);
        }
        Ok(true)
    }

    /// The per-height step of the committing loop: a height matching the
    /// checkpoint is persisted and the checkpoint advances by one; any
    /// other height is rejected untouched, since the sequencer only ever
    /// hands over the checkpoint height.
    pub fn commit_block(&mut self, msg: &MsgCommittedBlock, now: i64) -> (r: Result<bool, Error>)
        requires
            old(self).storage.wf(),
            1 <= msg.block.height < i64::MAX,
            old(self).spec_checkpoint() < u64::MAX,
            old(self).storage.spec_next_block_id() < i32::MAX,
            old(self).storage.spec_next_transaction_id() + msg.txs@.len() <= i32::MAX,
            old(self).storage.spec_next_message_id() + total_messages(msg.txs@) <= i32::MAX,
            old(self).storage.spec_next_event_id() + msg.events@.len() <= i32::MAX,
        ensures
            final(self).storage.wf(),
            final(self).chain == old(self).chain,
            msg.block.height as u64 != old(self).spec_checkpoint() ==> {
                &&& r == Result::<bool, Error>::Err(Error::UnexpectedError)
                &&& *final(self) == *old(self)
            },
            msg.block.height as u64 == old(self).spec_checkpoint() ==> {
                &&& (r is Ok <==> spec_commit_ok(
                    old(self).storage.blocks(),
                    old(self).storage.transactions(),
                    old(self).chain.id,
                    *msg,
                ))
                &&& r is Ok ==> {
                    &&& r == Result::<bool, Error>::Ok(true)
                    &&& final(self).spec_checkpoint() == old(self).spec_checkpoint() + 1
                    &&& final(self).storage.blocks() == old(self).storage.blocks().push(
                        spec_block_row(
                            spec_new_block(old(self).chain.id, msg.block, now),
                            old(self).storage.spec_next_block_id(),
                        ),
                    )
                    &&& final(self).storage.transactions() == old(self).storage.transactions()
                        + spec_tx_rows(
                        old(self).chain.id,
                        msg.txs@,
                        old(self).storage.spec_next_transaction_id() as int,
                        now,
                    )
                    &&& final(self).storage.messages() == old(self).storage.messages()
                        + spec_message_rows(
                        msg.txs@,
                        old(self).storage.spec_next_transaction_id() as int,
                        old(self).storage.spec_next_message_id() as int,
                        now,
                    )
                    &&& final(self).storage.events() == old(self).storage.events()
                        + spec_event_rows_with_ids(
                        msg.events@,
                        old(self).chain.id,
                        old(self).storage.spec_next_event_id() as int,
                        now,
                    )
                    &&& final(self).storage.chains() == old(self).storage.chains()
                }
                &&& r is Err ==> {
                    &&& r == Result::<bool, Error>::Err(
                        spec_commit_error(
                            old(self).storage.blocks(),
                            old(self).storage.transactions(),
                            old(self).chain.id,
                            *msg,
                        ),
                    )
                    &&& final(self).storage == old(self).storage
                    &&& final(self).spec_checkpoint() == old(self).spec_checkpoint()
                }
            },
    {
        let height = msg.block.height as u64;
        if height != self.checkpoint_block {
            return Err(Error::UnexpectedError);
        }
        match self.commit_to_storage(msg, now) {
            Ok(done) => {
                self.checkpoint_block = self.checkpoint_block + 1;
                Ok(done)
            },
            Err(e) => Err(e),
        }
    }
}

} // verus!
