//! The relational store model the pipeline is verified against: five row
//! sets with generated ids and the uniqueness constraints of the schema.
//! Reads and writes carry exact contracts; the committer's atomic commit
//! is built on them.

use vstd::prelude::*;
use crate::errors::StorageError;
use crate::models::{Block, Chain, Event, Message, NewBlock, NewChain, NewEvent, NewMessage,
    NewTransaction, Transaction};

verus! {

/// Whether some chain row carries the external chain id `cid`.
pub open spec fn has_chain(chains: Seq<Chain>, cid: String) -> bool {
    exists|i: int| 0 <= i < chains.len() && (#[trigger] chains[i]).chain_id@ == cid@
}

/// Whether some block row belongs to chain `cid` at height `h`.
pub open spec fn has_block_at(blocks: Seq<Block>, cid: i32, h: i64) -> bool {
    exists|i: int|
        0 <= i < blocks.len() && (#[trigger] blocks[i]).chain_id == cid && blocks[i].height == h
}

/// Whether chain `cid` owns any block row.
pub open spec fn has_block_for(blocks: Seq<Block>, cid: i32) -> bool {
    exists|i: int| 0 <= i < blocks.len() && (#[trigger] blocks[i]).chain_id == cid
}

/// Whether `h` is the greatest height among chain `cid`'s block rows.
pub open spec fn is_max_height(blocks: Seq<Block>, cid: i32, h: i64) -> bool {
    &&& has_block_at(blocks, cid, h)
    &&& forall|i: int|
        0 <= i < blocks.len() && (#[trigger] blocks[i]).chain_id == cid ==> blocks[i].height <= h
}

/// Whether some transaction row carries the hash `hash`.
pub open spec fn has_tx_hash(txs: Seq<Transaction>, hash: String) -> bool {
    exists|i: int| 0 <= i < txs.len() && (#[trigger] txs[i]).transaction_hash@ == hash@
}

/// The message rows whose owning transaction id is `tx_id`, in order.
pub open spec fn spec_messages_of(rows: Seq<Message>, tx_id: i32) -> Seq<Message>
    decreases rows.len(),
{
    if rows.len() == 0 {
        Seq::empty()
    } else if rows.last().transaction_id == tx_id {
        spec_messages_of(rows.drop_last(), tx_id) + seq![rows.last()]
    } else {
        spec_messages_of(rows.drop_last(), tx_id)
    }
}

/// The event rows owned by the transaction with hash `hash`, in order.
pub open spec fn spec_events_of(rows: Seq<Event>, hash: String) -> Seq<Event>
    decreases rows.len(),
{
    if rows.len() == 0 {
        Seq::empty()
    } else if rows.last().tx_hash is Some && rows.last().tx_hash.unwrap()@ == hash@ {
        spec_events_of(rows.drop_last(), hash) + seq![rows.last()]
    } else {
        spec_events_of(rows.drop_last(), hash)
    }
}

/// The transaction rows of chain `cid` at height `h`, in order.
pub open spec fn spec_transactions_at(rows: Seq<Transaction>, cid: i32, h: i64) -> Seq<Transaction>
    decreases rows.len(),
{
    if rows.len() == 0 {
        Seq::empty()
    } else if rows.last().chain_id == cid && rows.last().height == h {
        spec_transactions_at(rows.drop_last(), cid, h) + seq![rows.last()]
    } else {
        spec_transactions_at(rows.drop_last(), cid, h)
    }
}

/// How many block rows of chain `cid` sit strictly above height `h`.
pub open spec fn count_higher(blocks: Seq<Block>, cid: i32, h: i64) -> int
    decreases blocks.len(),
{
    if blocks.len() == 0 {
        0
    } else if blocks.last().chain_id == cid && blocks.last().height > h {
        count_higher(blocks.drop_last(), cid, h) + 1
    } else {
        count_higher(blocks.drop_last(), cid, h)
    }
}

/// How many block rows belong to chain `cid`.
pub open spec fn count_of_chain(blocks: Seq<Block>, cid: i32) -> int
    decreases blocks.len(),
{
    if blocks.len() == 0 {
        0
    } else if blocks.last().chain_id == cid {
        count_of_chain(blocks.drop_last(), cid) + 1
    } else {
        count_of_chain(blocks.drop_last(), cid)
    }
}

/// How many rows one page of a paginated listing holds: what is left of
/// the `n` rows after `offset` are skipped, capped at `limit`.
pub open spec fn spec_page_len(n: int, limit: int, offset: int) -> int {
    if n - offset <= 0 {
        0
    } else if n - offset < limit {
        n - offset
    } else {
        limit
    }
}

/// No two block rows share a chain and a height.
pub open spec fn blocks_key_unique(s: Seq<Block>) -> bool {
    forall|i: int, j: int|
        0 <= i < s.len() && 0 <= j < s.len() && i != j ==> !((#[trigger] s[i]).chain_id == (
        #[trigger] s[j]).chain_id && s[i].height == s[j].height)
}

proof fn lemma_count_higher_zero(s: Seq<Block>, cid: i32, h: i64)
    requires
        forall|j: int| 0 <= j < s.len() && (#[trigger] s[j]).chain_id == cid ==> s[j].height <= h,
    ensures
        count_higher(s, cid, h) == 0,
    decreases s.len(),
{
    if s.len() > 0 {
        lemma_count_higher_zero(s.drop_last(), cid, h);
    }
}

proof fn lemma_count_higher_equal(s: Seq<Block>, cid: i32, h: i64, b: i64)
    requires
        h <= b,
        forall|j: int|
            0 <= j < s.len() && (#[trigger] s[j]).chain_id == cid ==> (s[j].height > b
                || s[j].height <= h),
    ensures
        count_higher(s, cid, h) == count_higher(s, cid, b),
    decreases s.len(),
{
    if s.len() > 0 {
        lemma_count_higher_equal(s.drop_last(), cid, h, b);
    }
}

proof fn lemma_count_higher_step(s: Seq<Block>, cid: i32, h: i64, b: i64)
    requires
        h < b,
        has_block_at(s, cid, b),
        blocks_key_unique(s),
        forall|j: int|
            0 <= j < s.len() && (#[trigger] s[j]).chain_id == cid && s[j].height < b ==> s[j].height
                <= h,
    ensures
        count_higher(s, cid, h) == count_higher(s, cid, b) + 1,
    decreases s.len(),
{
    let last = s.last();
    let sub = s.drop_last();
    if last.chain_id == cid && last.height == b {
        // the bound row itself: everything in front of it is either
        // higher than the bound or at most h
        assert(!has_block_at(sub, cid, b)) by {
            if has_block_at(sub, cid, b) {
                let j = choose|j: int|
                    0 <= j < sub.len() && (#[trigger] sub[j]).chain_id == cid && sub[j].height
                        == b;
                assert(s[j].chain_id == cid && s[j].height == b);
                assert(s[s.len() - 1].chain_id == cid && s[s.len() - 1].height == b);
            }
        }
        assert forall|j: int|
            0 <= j < sub.len() && (#[trigger] sub[j]).chain_id == cid implies (sub[j].height > b
            || sub[j].height <= h) by {
            assert(s[j] == sub[j]);
            if sub[j].height == b {
                assert(s[s.len() - 1].chain_id == cid && s[s.len() - 1].height == b);
            }
        }
        lemma_count_higher_equal(sub, cid, h, b);
    } else {
        assert(has_block_at(sub, cid, b)) by {
            let j = choose|j: int|
                0 <= j < s.len() && (#[trigger] s[j]).chain_id == cid && s[j].height == b;
            assert(j < s.len() - 1);
            assert(sub[j].chain_id == cid && sub[j].height == b);
        }
        assert(blocks_key_unique(sub)) by {
            assert(forall|i: int| 0 <= i < sub.len() ==> sub[i] == s[i]);
        }
        lemma_count_higher_step(sub, cid, h, b);
    }
}

proof fn lemma_count_of_chain_zero(s: Seq<Block>, cid: i32)
    requires
        !has_block_for(s, cid),
    ensures
        count_of_chain(s, cid) == 0,
    decreases s.len(),
{
    if s.len() > 0 {
        assert(!has_block_for(s.drop_last(), cid)) by {
            if has_block_for(s.drop_last(), cid) {
                let j = choose|j: int|
                    0 <= j < s.drop_last().len() && (#[trigger] s.drop_last()[j]).chain_id == cid;
                assert(s[j].chain_id == cid);
            }
        }
        assert(s[s.len() - 1].chain_id != cid) by {
            if s.last().chain_id == cid {
                assert(has_block_for(s, cid));
            }
        }
        lemma_count_of_chain_zero(s.drop_last(), cid);
    }
}

proof fn lemma_count_all_at_bound(s: Seq<Block>, cid: i32, b: i64)
    requires
        has_block_at(s, cid, b),
        blocks_key_unique(s),
        forall|j: int|
            0 <= j < s.len() && (#[trigger] s[j]).chain_id == cid ==> s[j].height >= b,
    ensures
        count_of_chain(s, cid) == count_higher(s, cid, b) + 1,
    decreases s.len(),
{
    let last = s.last();
    let sub = s.drop_last();
    assert(forall|i: int| 0 <= i < sub.len() ==> sub[i] == s[i]);
    if last.chain_id == cid && last.height == b {
        assert(!has_block_at(sub, cid, b)) by {
            if has_block_at(sub, cid, b) {
                let j = choose|j: int|
                    0 <= j < sub.len() && (#[trigger] sub[j]).chain_id == cid && sub[j].height
                        == b;
                assert(s[j].chain_id == cid && s[j].height == b);
                assert(s[s.len() - 1].chain_id == cid && s[s.len() - 1].height == b);
            }
        }
        // in front of the bound row every chain row sits strictly higher
        assert forall|j: int|
            0 <= j < sub.len() && (#[trigger] sub[j]).chain_id == cid implies sub[j].height
            > b by {
            if sub[j].height == b {
                assert(s[s.len() - 1].chain_id == cid && s[s.len() - 1].height == b);
            }
        }
        lemma_counts_match_when_all_higher(sub, cid, b);
    } else {
        assert(has_block_at(sub, cid, b)) by {
            let j = choose|j: int|
                0 <= j < s.len() && (#[trigger] s[j]).chain_id == cid && s[j].height == b;
            assert(j < s.len() - 1);
            assert(sub[j].chain_id == cid && sub[j].height == b);
        }
        lemma_count_all_at_bound(sub, cid, b);
    }
}

proof fn lemma_count_of_chain_bounds(s: Seq<Block>, cid: i32)
    ensures
        0 <= count_of_chain(s, cid) <= s.len(),
    decreases s.len(),
{
    if s.len() > 0 {
        lemma_count_of_chain_bounds(s.drop_last(), cid);
    }
}

proof fn lemma_count_of_ge_higher(s: Seq<Block>, cid: i32, h: i64)
    ensures
        count_of_chain(s, cid) >= count_higher(s, cid, h),
    decreases s.len(),
{
    if s.len() > 0 {
        lemma_count_of_ge_higher(s.drop_last(), cid, h);
    }
}

proof fn lemma_count_all_at_bound_ge(s: Seq<Block>, cid: i32, h: i64)
    requires
        has_block_at(s, cid, h),
    ensures
        count_of_chain(s, cid) >= count_higher(s, cid, h) + 1,
    decreases s.len(),
{
    let last = s.last();
    let sub = s.drop_last();
    assert(forall|i: int| 0 <= i < sub.len() ==> sub[i] == s[i]);
    if last.chain_id == cid && last.height == h {
        lemma_count_of_ge_higher(sub, cid, h);
    } else {
        assert(has_block_at(sub, cid, h)) by {
            let j = choose|j: int|
                0 <= j < s.len() && (#[trigger] s[j]).chain_id == cid && s[j].height == h;
            assert(j < s.len() - 1);
            assert(sub[j].chain_id == cid && sub[j].height == h);
        }
        lemma_count_all_at_bound_ge(sub, cid, h);
    }
}

proof fn lemma_counts_match_when_all_higher(s: Seq<Block>, cid: i32, b: i64)
    requires
        forall|j: int| 0 <= j < s.len() && (#[trigger] s[j]).chain_id == cid ==> s[j].height > b,
    ensures
        count_of_chain(s, cid) == count_higher(s, cid, b),
    decreases s.len(),
{
    if s.len() > 0 {
        lemma_counts_match_when_all_higher(s.drop_last(), cid, b);
    }
}

/// The persisted chain row an insert payload becomes under a generated id.
pub open spec fn spec_chain_row(c: NewChain, id: i32) -> Chain {
    Chain {
        id: id,
        chain_id: c.chain_id,
        chain_name: c.chain_name,
        icon_url: None,
        website: None,
        inserted_at: c.inserted_at,
        updated_at: None,
    }
}

/// The persisted block row an insert payload becomes under a generated id.
pub open spec fn spec_block_row(b: NewBlock, id: i32) -> Block {
    Block {
        id: id,
        chain_id: b.chain_id,
        height: b.height,
        block_hash: b.block_hash,
        prev_hash: b.prev_hash,
        proposer_address: b.proposer_address,
        last_commit_hash: b.last_commit_hash,
        data_hash: b.data_hash,
        validators_hash: b.validators_hash,
        next_validators_hash: b.next_validators_hash,
        consensus_hash: b.consensus_hash,
        app_hash: b.app_hash,
        last_result_hash: b.last_result_hash,
        evidence_hash: b.evidence_hash,
        block_time: b.block_time,
        inserted_at: b.inserted_at,
        updated_at: None,
    }
}

/// The persisted transaction row an insert payload becomes under a
/// generated id.
pub open spec fn spec_transaction_row(t: NewTransaction, id: i32) -> Transaction {
    Transaction {
        id: id,
        chain_id: t.chain_id,
        transaction_hash: t.transaction_hash,
        height: t.height,
        code: t.code,
        code_space: t.code_space,
        tx_data: t.tx_data,
        raw_log: t.raw_log,
        info: t.info,
        memo: t.memo,
        gas_wanted: t.gas_wanted,
        gas_used: t.gas_used,
        tx_timestamp: t.tx_timestamp,
        inserted_at: t.inserted_at,
        updated_at: None,
    }
}

/// The persisted message row an insert payload becomes under a generated
/// id.
pub open spec fn spec_message_row(m: NewMessage, id: i32) -> Message {
    Message {
        id: id,
        transaction_id: m.transaction_id,
        seq: m.seq,
        rawdata: m.rawdata,
        inserted_at: m.inserted_at,
        updated_at: None,
    }
}

/// The persisted event row an insert payload becomes under a generated id.
pub open spec fn spec_event_row_with_id(e: NewEvent, id: i32) -> Event {
    Event {
        id: id,
        chain_id: e.chain_id,
        tx_type: e.tx_type,
        tx_hash: e.tx_hash,
        block_height: e.block_height,
        event_seq: e.event_seq,
        event_type: e.event_type,
        event_key: e.event_key,
        event_value: e.event_value,
        indexed: e.indexed,
        inserted_at: e.inserted_at,
        updated_at: None,
    }
}

/// An in-memory relational store with the schema's uniqueness
/// constraints: the verified model the committer and bootstrap run
/// against.
pub struct PersistenceStorage {
    chains: Vec<Chain>,
    blocks: Vec<Block>,
    transactions: Vec<Transaction>,
    messages: Vec<Message>,
    events: Vec<Event>,
    next_chain_id: i32,
    next_block_id: i32,
    next_transaction_id: i32,
    next_message_id: i32,
    next_event_id: i32,
}

impl PersistenceStorage {
    /// The chain rows, in insertion order.
    pub closed spec fn chains(&self) -> Seq<Chain> {
        self.chains@
    }

    /// The block rows, in insertion order.
    pub closed spec fn blocks(&self) -> Seq<Block> {
        self.blocks@
    }

    /// The transaction rows, in insertion order.
    pub closed spec fn transactions(&self) -> Seq<Transaction> {
        self.transactions@
    }

    /// The message rows, in insertion order.
    pub closed spec fn messages(&self) -> Seq<Message> {
        self.messages@
    }

    /// The event rows, in insertion order.
    pub closed spec fn events(&self) -> Seq<Event> {
        self.events@
    }

    /// The id the next chain row will receive.
    pub closed spec fn spec_next_chain_id(&self) -> i32 {
        self.next_chain_id
    }

    /// The id the next block row will receive.
    pub closed spec fn spec_next_block_id(&self) -> i32 {
        self.next_block_id
    }

    /// The id the next transaction row will receive.
    pub closed spec fn spec_next_transaction_id(&self) -> i32 {
        self.next_transaction_id
    }

    /// The id the next message row will receive.
    pub closed spec fn spec_next_message_id(&self) -> i32 {
        self.next_message_id
    }

    /// The id the next event row will receive.
    pub closed spec fn spec_next_event_id(&self) -> i32 {
        self.next_event_id
    }

    /// The store's invariant: ids count up from one, external chain ids
    /// are unique, `(chain, height)` is unique among blocks, transaction
    /// hashes are unique, and block heights are positive.
    pub closed spec fn wf(&self) -> bool {
        &&& self.chains@.len() == self.next_chain_id - 1
        &&& self.blocks@.len() == self.next_block_id - 1
        &&& self.transactions@.len() == self.next_transaction_id - 1
        &&& self.messages@.len() == self.next_message_id - 1
        &&& self.events@.len() == self.next_event_id - 1
        &&& forall|i: int, j: int|
            0 <= i < self.chains@.len() && 0 <= j < self.chains@.len() && i != j ==> (
            #[trigger] self.chains@[i]).chain_id@ != (#[trigger] self.chains@[j]).chain_id@
        &&& forall|i: int, j: int|
            0 <= i < self.blocks@.len() && 0 <= j < self.blocks@.len() && i != j ==> !((
            #[trigger] self.blocks@[i]).chain_id == (#[trigger] self.blocks@[j]).chain_id
                && self.blocks@[i].height == self.blocks@[j].height)
        &&& forall|i: int, j: int|
            0 <= i < self.transactions@.len() && 0 <= j < self.transactions@.len() && i != j
                ==> (#[trigger] self.transactions@[i]).transaction_hash@ != (
            #[trigger] self.transactions@[j]).transaction_hash@
        &&& forall|i: int|
            0 <= i < self.blocks@.len() ==> 1 <= (#[trigger] self.blocks@[i]).height
                < i64::MAX
    }

    /// The id the next chain row will receive.
    pub fn next_chain_id(&self) -> (r: i32)
        ensures
            r == self.spec_next_chain_id(),
    {
        self.next_chain_id
    }

    /// The id the next block row will receive.
    pub fn next_block_id(&self) -> (r: i32)
        ensures
            r == self.spec_next_block_id(),
    {
        self.next_block_id
    }

    /// The id the next transaction row will receive.
    pub fn next_transaction_id(&self) -> (r: i32)
        ensures
            r == self.spec_next_transaction_id(),
    {
        self.next_transaction_id
    }

    /// The id the next message row will receive.
    pub fn next_message_id(&self) -> (r: i32)
        ensures
            r == self.spec_next_message_id(),
    {
        self.next_message_id
    }

    /// The id the next event row will receive.
    pub fn next_event_id(&self) -> (r: i32)
        ensures
            r == self.spec_next_event_id(),
    {
        self.next_event_id
    }

    /// In a well-formed store each id counter is one past the number of
    /// rows of its entity.
    pub proof fn lemma_wf_counts(&self)
        requires
            self.wf(),
        ensures
            self.spec_next_chain_id() - 1 == self.chains().len(),
            self.spec_next_block_id() - 1 == self.blocks().len(),
            self.spec_next_transaction_id() - 1 == self.transactions().len(),
            self.spec_next_message_id() - 1 == self.messages().len(),
            self.spec_next_event_id() - 1 == self.events().len(),
    {
    }

    /// Creates an empty store.
    pub fn new() -> (r: PersistenceStorage)
        ensures
            r.wf(),
            r.chains() == Seq::<Chain>::empty(),
            r.blocks() == Seq::<Block>::empty(),
            r.transactions() == Seq::<Transaction>::empty(),
            r.messages() == Seq::<Message>::empty(),
            r.events() == Seq::<Event>::empty(),
            r.spec_next_chain_id() == 1,
            r.spec_next_block_id() == 1,
            r.spec_next_transaction_id() == 1,
            r.spec_next_message_id() == 1,
            r.spec_next_event_id() == 1,
    {
        PersistenceStorage {
            chains: Vec::new(),
            blocks: Vec::new(),
            transactions: Vec::new(),
            messages: Vec::new(),
            events: Vec::new(),
            next_chain_id: 1,
            next_block_id: 1,
            next_transaction_id: 1,
            next_message_id: 1,
            next_event_id: 1,
        }
    }

    /// Finds the chain row with the given external chain id. `NotFound`
    /// exactly when no row carries it.
    pub fn find_by_chain_id(&self, chain_id: &String) -> (r: Result<Chain, StorageError>)
        ensures
            r is Ok <==> has_chain(self.chains(), *chain_id),
            r is Ok ==> {
                &&& exists|i: int|
                    0 <= i < self.chains().len() && #[trigger] self.chains()[i]
                        == r.unwrap()
                &&& r.unwrap().chain_id@ == chain_id@
            },
            r is Err ==> r == Result::<Chain, StorageError>::Err(StorageError::NotFound),
    {
        let mut i: usize = 0;
        while i < self.chains.len()
            invariant
                i <= self.chains@.len(),
                forall|j: int| 0 <= j < i ==> (#[trigger] self.chains@[j]).chain_id@ != chain_id@,
            decreases self.chains@.len() - i,
        {
            if self.chains[i].chain_id.eq(chain_id) {
                let c = &self.chains[i];
                let row = Chain {
                    id: c.id,
                    chain_id: c.chain_id.clone(),
                    chain_name: c.chain_name.clone(),
                    icon_url: crate::records::clone_opt_string(&c.icon_url),
                    website: crate::records::clone_opt_string(&c.website),
                    inserted_at: c.inserted_at,
                    updated_at: c.updated_at,
                };
                proof {
                    assert(self.chains@[i as int] == row);
                    assert(has_chain(self.chains(), *chain_id)) by {
                        assert(self.chains@[i as int].chain_id@ == chain_id@);
                    }
                }
                return Ok(row);
            }
            i = i + 1;
        }
        Err(StorageError::NotFound)
    }

    /// Inserts a chain registration and returns its generated id.
    /// Refused — and nothing changes — when the external chain id is
    /// already registered.
    pub fn insert_chain(&mut self, chain: &NewChain) -> (r: Result<i32, StorageError>)
        requires
            old(self).wf(),
            old(self).spec_next_chain_id() < i32::MAX,
        ensures
            final(self).wf(),
            r is Ok <==> !has_chain(old(self).chains(), chain.chain_id),
            r is Ok ==> {
                &&& r.unwrap() == old(self).spec_next_chain_id()
                &&& final(self).chains() == old(self).chains().push(
                    spec_chain_row(*chain, old(self).spec_next_chain_id()),
                )
                &&& final(self).spec_next_chain_id() == old(self).spec_next_chain_id() + 1
            },
            r is Err ==> {
                &&& r == Result::<i32, StorageError>::Err(StorageError::ConstraintViolation)
                &&& *final(self) == *old(self)
            },
            final(self).blocks() == old(self).blocks(),
            final(self).transactions() == old(self).transactions(),
            final(self).messages() == old(self).messages(),
            final(self).events() == old(self).events(),
            final(self).spec_next_block_id() == old(self).spec_next_block_id(),
            final(self).spec_next_transaction_id() == old(self).spec_next_transaction_id(),
            final(self).spec_next_message_id() == old(self).spec_next_message_id(),
            final(self).spec_next_event_id() == old(self).spec_next_event_id(),
    {
        if let Ok(_) = self.find_by_chain_id(&chain.chain_id) {
            return Err(StorageError::ConstraintViolation);
        }
        let id = self.next_chain_id;
        self.chains.push(Chain {
            id: id,
            chain_id: chain.chain_id.clone(),
            chain_name: chain.chain_name.clone(),
            icon_url: None,
            website: None,
            inserted_at: chain.inserted_at,
            updated_at: None,
        });
        self.next_chain_id = id + 1;
        proof {
            let s = self.chains@;
            let os = old(self).chains@;
            assert(s =~= os.push(spec_chain_row(*chain, id)));
            assert forall|i: int, j: int|
                0 <= i < s.len() && 0 <= j < s.len() && i != j implies (
            #[trigger] s[i]).chain_id@ != (#[trigger] s[j]).chain_id@ by {
                if i < os.len() && j < os.len() {
                    assert(s[i] == os[i]);
                    assert(s[j] == os[j]);
                } else if i == os.len() {
                    assert(s[j] == os[j]);
                    if os[j].chain_id@ == chain.chain_id@ {
                        assert(has_chain(os, chain.chain_id));
                    }
                } else {
                    assert(s[i] == os[i]);
                    if os[i].chain_id@ == chain.chain_id@ {
                        assert(has_chain(os, chain.chain_id));
                    }
                }
            }
        }
        Ok(id)
    }

    /// The greatest committed height of the chain. `NotFound` exactly
    /// when the chain owns no block row.
    pub fn latest_block_height(&self, chain_id: i32) -> (r: Result<i64, StorageError>)
        requires
            self.wf(),
        ensures
            r is Ok <==> has_block_for(self.blocks(), chain_id),
            r is Ok ==> is_max_height(self.blocks(), chain_id, r.unwrap()),
            r is Ok ==> 1 <= r.unwrap() < i64::MAX,
            r is Err ==> r == Result::<i64, StorageError>::Err(StorageError::NotFound),
    {
        let mut best: Option<i64> = None;
        let mut i: usize = 0;
        while i < self.blocks.len()
            invariant
                self.wf(),
                i <= self.blocks@.len(),
                best is None ==> forall|j: int|
                    0 <= j < i ==> (#[trigger] self.blocks@[j]).chain_id != chain_id,
                best is Some ==> {
                    &&& has_block_at(self.blocks(), chain_id, best.unwrap())
                    &&& 1 <= best.unwrap() < i64::MAX
                    &&& forall|j: int|
                        0 <= j < i && (#[trigger] self.blocks@[j]).chain_id == chain_id
                            ==> self.blocks@[j].height <= best.unwrap()
                },
            decreases self.blocks@.len() - i,
        {
            let b = &self.blocks[i];
            if b.chain_id == chain_id {
                let better = match best {
                    None => true,
                    Some(h) => b.height > h,
                };
                if better {
                    best = Some(b.height);
                    proof {
                        assert(has_block_at(self.blocks(), chain_id, self.blocks@[i as int].height))
                            by {
                            assert(self.blocks@[i as int].chain_id == chain_id);
                        }
                    }
                }
            }
            i = i + 1;
        }
        match best {
            Some(h) => Ok(h),
            None => Err(StorageError::NotFound),
        }
    }

    /// Inserts a block row and returns its generated id. Refused — and
    /// nothing changes — when the chain already has a row at that height.
    pub fn insert_block(&mut self, block: &NewBlock) -> (r: Result<i32, StorageError>)
        requires
            old(self).wf(),
            old(self).spec_next_block_id() < i32::MAX,
            1 <= block.height < i64::MAX,
        ensures
            final(self).wf(),
            r is Ok <==> !has_block_at(old(self).blocks(), block.chain_id, block.height),
            r is Ok ==> {
                &&& r.unwrap() == old(self).spec_next_block_id()
                &&& final(self).blocks() == old(self).blocks().push(
                    spec_block_row(*block, old(self).spec_next_block_id()),
                )
                &&& final(self).spec_next_block_id() == old(self).spec_next_block_id() + 1
            },
            r is Err ==> {
                &&& r == Result::<i32, StorageError>::Err(StorageError::ConstraintViolation)
                &&& *final(self) == *old(self)
            },
            final(self).chains() == old(self).chains(),
            final(self).transactions() == old(self).transactions(),
            final(self).messages() == old(self).messages(),
            final(self).events() == old(self).events(),
            final(self).spec_next_chain_id() == old(self).spec_next_chain_id(),
            final(self).spec_next_transaction_id() == old(self).spec_next_transaction_id(),
            final(self).spec_next_message_id() == old(self).spec_next_message_id(),
            final(self).spec_next_event_id() == old(self).spec_next_event_id(),
    {
        let mut i: usize = 0;
        while i < self.blocks.len()
            invariant
                i <= self.blocks@.len(),
                self.wf(),
                *self == *old(self),
                forall|j: int|
                    0 <= j < i ==> !((#[trigger] self.blocks@[j]).chain_id == block.chain_id
                        && self.blocks@[j].height == block.height),
            decreases self.blocks@.len() - i,
        {
            if self.blocks[i].chain_id == block.chain_id && self.blocks[i].height == block.height {
                proof {
                    assert(has_block_at(self.blocks(), block.chain_id, block.height)) by {
                        assert(self.blocks@[i as int].chain_id == block.chain_id
                            && self.blocks@[i as int].height == block.height);
                    }
                }
                return Err(StorageError::ConstraintViolation);
            }
            i = i + 1;
        }
        let id = self.next_block_id;
        self.blocks.push(Block {
            id: id,
            chain_id: block.chain_id,
            height: block.height,
            block_hash: block.block_hash.clone(),
            prev_hash: block.prev_hash.clone(),
            proposer_address: block.proposer_address.clone(),
            last_commit_hash: block.last_commit_hash.clone(),
            data_hash: block.data_hash.clone(),
            validators_hash: block.validators_hash.clone(),
            next_validators_hash: block.next_validators_hash.clone(),
            consensus_hash: block.consensus_hash.clone(),
            app_hash: block.app_hash.clone(),
            last_result_hash: block.last_result_hash.clone(),
            evidence_hash: block.evidence_hash.clone(),
            block_time: block.block_time,
            inserted_at: block.inserted_at,
            updated_at: None,
        });
        self.next_block_id = id + 1;
        proof {
            let s = self.blocks@;
            let os = old(self).blocks@;
            assert(s =~= os.push(spec_block_row(*block, id)));
            assert forall|p: int, q: int|
                0 <= p < s.len() && 0 <= q < s.len() && p != q implies !((
            #[trigger] s[p]).chain_id == (#[trigger] s[q]).chain_id && s[p].height
                == s[q].height) by {
                if p < os.len() && q < os.len() {
                    assert(s[p] == os[p]);
                    assert(s[q] == os[q]);
                } else if p == os.len() {
                    assert(s[q] == os[q]);
                    if os[q].chain_id == block.chain_id && os[q].height == block.height {
                        assert(has_block_at(os, block.chain_id, block.height));
                    }
                } else {
                    assert(s[p] == os[p]);
                    if os[p].chain_id == block.chain_id && os[p].height == block.height {
                        assert(has_block_at(os, block.chain_id, block.height));
                    }
                }
            }
        }
        Ok(id)
    }

    /// Inserts a transaction row and returns its generated id. Refused —
    /// and nothing changes — when the hash is already persisted.
    pub fn insert_transaction(&mut self, tx: &NewTransaction) -> (r: Result<i32, StorageError>)
        requires
            old(self).wf(),
            old(self).spec_next_transaction_id() < i32::MAX,
        ensures
            final(self).wf(),
            r is Ok <==> !has_tx_hash(old(self).transactions(), tx.transaction_hash),
            r is Ok ==> {
                &&& r.unwrap() == old(self).spec_next_transaction_id()
                &&& final(self).transactions() == old(self).transactions().push(
                    spec_transaction_row(*tx, old(self).spec_next_transaction_id()),
                )
                &&& final(self).spec_next_transaction_id() == old(
                    self,
                ).spec_next_transaction_id() + 1
            },
            r is Err ==> {
                &&& r == Result::<i32, StorageError>::Err(StorageError::ConstraintViolation)
                &&& *final(self) == *old(self)
            },
            final(self).chains() == old(self).chains(),
            final(self).blocks() == old(self).blocks(),
            final(self).messages() == old(self).messages(),
            final(self).events() == old(self).events(),
            final(self).spec_next_chain_id() == old(self).spec_next_chain_id(),
            final(self).spec_next_block_id() == old(self).spec_next_block_id(),
            final(self).spec_next_message_id() == old(self).spec_next_message_id(),
            final(self).spec_next_event_id() == old(self).spec_next_event_id(),
    {
        let mut i: usize = 0;
        while i < self.transactions.len()
            invariant
                i <= self.transactions@.len(),
                self.wf(),
                *self == *old(self),
                forall|j: int|
                    0 <= j < i ==> (#[trigger] self.transactions@[j]).transaction_hash@
                        != tx.transaction_hash@,
            decreases self.transactions@.len() - i,
        {
            if self.transactions[i].transaction_hash.eq(&tx.transaction_hash) {
                proof {
                    assert(has_tx_hash(self.transactions(), tx.transaction_hash)) by {
                        assert(self.transactions@[i as int].transaction_hash@
                            == tx.transaction_hash@);
                    }
                }
                return Err(StorageError::ConstraintViolation);
            }
            i = i + 1;
        }
        let id = self.next_transaction_id;
        self.transactions.push(Transaction {
            id: id,
            chain_id: tx.chain_id,
            transaction_hash: tx.transaction_hash.clone(),
            height: tx.height,
            code: tx.code,
            code_space: tx.code_space.clone(),
            tx_data: tx.tx_data.clone(),
            raw_log: tx.raw_log.clone(),
            info: tx.info.clone(),
            memo: crate::records::clone_opt_string(&tx.memo),
            gas_wanted: tx.gas_wanted,
            gas_used: tx.gas_used,
            tx_timestamp: tx.tx_timestamp.clone(),
            inserted_at: tx.inserted_at,
            updated_at: None,
        });
        self.next_transaction_id = id + 1;
        proof {
            let s = self.transactions@;
            let os = old(self).transactions@;
            assert(s =~= os.push(spec_transaction_row(*tx, id)));
            assert forall|p: int, q: int|
                0 <= p < s.len() && 0 <= q < s.len() && p != q implies (
            #[trigger] s[p]).transaction_hash@ != (#[trigger] s[q]).transaction_hash@ by {
                if p < os.len() && q < os.len() {
                    assert(s[p] == os[p]);
                    assert(s[q] == os[q]);
                } else if p == os.len() {
                    assert(s[q] == os[q]);
                    if os[q].transaction_hash@ == tx.transaction_hash@ {
                        assert(has_tx_hash(os, tx.transaction_hash));
                    }
                } else {
                    assert(s[p] == os[p]);
                    if os[p].transaction_hash@ == tx.transaction_hash@ {
                        assert(has_tx_hash(os, tx.transaction_hash));
                    }
                }
            }
        }
        Ok(id)
    }

    /// Inserts a message row and returns its generated id.
    pub fn insert_message(&mut self, m: &NewMessage) -> (r: Result<i32, StorageError>)
        requires
            old(self).wf(),
            old(self).spec_next_message_id() < i32::MAX,
        ensures
            final(self).wf(),
            r is Ok,
            r.unwrap() == old(self).spec_next_message_id(),
            final(self).messages() == old(self).messages().push(
                spec_message_row(*m, old(self).spec_next_message_id()),
            ),
            final(self).spec_next_message_id() == old(self).spec_next_message_id() + 1,
            final(self).chains() == old(self).chains(),
            final(self).blocks() == old(self).blocks(),
            final(self).transactions() == old(self).transactions(),
            final(self).events() == old(self).events(),
            final(self).spec_next_chain_id() == old(self).spec_next_chain_id(),
            final(self).spec_next_block_id() == old(self).spec_next_block_id(),
            final(self).spec_next_transaction_id() == old(self).spec_next_transaction_id(),
            final(self).spec_next_event_id() == old(self).spec_next_event_id(),
    {
        let id = self.next_message_id;
        self.messages.push(Message {
            id: id,
            transaction_id: m.transaction_id,
            seq: m.seq,
            rawdata: m.rawdata.clone(),
            inserted_at: m.inserted_at,
            updated_at: None,
        });
        self.next_message_id = id + 1;
        proof {
            assert(self.messages@ =~= old(self).messages@.push(spec_message_row(*m, id)));
        }
        Ok(id)
    }

    /// Inserts an event row and returns its generated id.
    pub fn insert_event(&mut self, e: &NewEvent) -> (r: Result<i32, StorageError>)
        requires
            old(self).wf(),
            old(self).spec_next_event_id() < i32::MAX,
        ensures
            final(self).wf(),
            r is Ok,
            r.unwrap() == old(self).spec_next_event_id(),
            final(self).events() == old(self).events().push(
                spec_event_row_with_id(*e, old(self).spec_next_event_id()),
            ),
            final(self).spec_next_event_id() == old(self).spec_next_event_id() + 1,
            final(self).chains() == old(self).chains(),
            final(self).blocks() == old(self).blocks(),
            final(self).transactions() == old(self).transactions(),
            final(self).messages() == old(self).messages(),
            final(self).spec_next_chain_id() == old(self).spec_next_chain_id(),
            final(self).spec_next_block_id() == old(self).spec_next_block_id(),
            final(self).spec_next_transaction_id() == old(self).spec_next_transaction_id(),
            final(self).spec_next_message_id() == old(self).spec_next_message_id(),
    {
        let id = self.next_event_id;
        self.events.push(Event {
            id: id,
            chain_id: e.chain_id,
            tx_type: e.tx_type,
            tx_hash: crate::records::clone_opt_string(&e.tx_hash),
            block_height: e.block_height,
            event_seq: e.event_seq,
            event_type: e.event_type.clone(),
            event_key: e.event_key.clone(),
            event_value: e.event_value.clone(),
            indexed: e.indexed,
            inserted_at: e.inserted_at,
            updated_at: None,
        });
        self.next_event_id = id + 1;
        proof {
            assert(self.events@ =~= old(self).events@.push(spec_event_row_with_id(*e, id)));
        }
        Ok(id)
    }

    /// Finds the block row of a chain at a height. `NotFound` exactly
    /// when the chain has no row at that height.
    pub fn find_block_by_height(&self, chain_id: i32, height: i64) -> (r: Result<
        Block,
        StorageError,
    >)
        ensures
            r is Ok <==> has_block_at(self.blocks(), chain_id, height),
            r is Ok ==> {
                &&& exists|i: int|
                    0 <= i < self.blocks().len() && #[trigger] self.blocks()[i] == r.unwrap()
                &&& r.unwrap().chain_id == chain_id
                &&& r.unwrap().height == height
            },
            r is Err ==> r == Result::<Block, StorageError>::Err(StorageError::NotFound),
    {
        let mut i: usize = 0;
        while i < self.blocks.len()
            invariant
                i <= self.blocks@.len(),
                forall|j: int|
                    0 <= j < i ==> !((#[trigger] self.blocks@[j]).chain_id == chain_id
                        && self.blocks@[j].height == height),
            decreases self.blocks@.len() - i,
        {
            let b = &self.blocks[i];
            if b.chain_id == chain_id && b.height == height {
                let row = Block {
                    id: b.id,
                    chain_id: b.chain_id,
                    height: b.height,
                    block_hash: b.block_hash.clone(),
                    prev_hash: b.prev_hash.clone(),
                    proposer_address: b.proposer_address.clone(),
                    last_commit_hash: b.last_commit_hash.clone(),
                    data_hash: b.data_hash.clone(),
                    validators_hash: b.validators_hash.clone(),
                    next_validators_hash: b.next_validators_hash.clone(),
                    consensus_hash: b.consensus_hash.clone(),
                    app_hash: b.app_hash.clone(),
                    last_result_hash: b.last_result_hash.clone(),
                    evidence_hash: b.evidence_hash.clone(),
                    block_time: b.block_time,
                    inserted_at: b.inserted_at,
                    updated_at: b.updated_at,
                };
                proof {
                    assert(self.blocks@[i as int] == row);
                    assert(has_block_at(self.blocks(), chain_id, height)) by {
                        assert(self.blocks@[i as int].chain_id == chain_id
                            && self.blocks@[i as int].height == height);
                    }
                }
                return Ok(row);
            }
            i = i + 1;
        }
        Err(StorageError::NotFound)
    }

    /// Finds the transaction row with the given hash. `NotFound` exactly
    /// when no row carries it.
    pub fn find_transaction_by_hash(&self, hash: &String) -> (r: Result<Transaction, StorageError>)
        ensures
            r is Ok <==> has_tx_hash(self.transactions(), *hash),
            r is Ok ==> {
                &&& exists|i: int|
                    0 <= i < self.transactions().len() && #[trigger] self.transactions()[i]
                        == r.unwrap()
                &&& r.unwrap().transaction_hash@ == hash@
            },
            r is Err ==> r == Result::<Transaction, StorageError>::Err(StorageError::NotFound),
    {
        let mut i: usize = 0;
        while i < self.transactions.len()
            invariant
                i <= self.transactions@.len(),
                forall|j: int|
                    0 <= j < i ==> (#[trigger] self.transactions@[j]).transaction_hash@ != hash@,
            decreases self.transactions@.len() - i,
        {
            let t = &self.transactions[i];
            if t.transaction_hash.eq(hash) {
                let row = Transaction {
                    id: t.id,
                    chain_id: t.chain_id,
                    transaction_hash: t.transaction_hash.clone(),
                    height: t.height,
                    code: t.code,
                    code_space: t.code_space.clone(),
                    tx_data: t.tx_data.clone(),
                    raw_log: t.raw_log.clone(),
                    info: t.info.clone(),
                    memo: crate::records::clone_opt_string(&t.memo),
                    gas_wanted: t.gas_wanted,
                    gas_used: t.gas_used,
                    tx_timestamp: t.tx_timestamp.clone(),
                    inserted_at: t.inserted_at,
                    updated_at: t.updated_at,
                };
                proof {
                    assert(self.transactions@[i as int] == row);
                    assert(has_tx_hash(self.transactions(), *hash)) by {
                        assert(self.transactions@[i as int].transaction_hash@ == hash@);
                    }
                }
                return Ok(row);
            }
            i = i + 1;
        }
        Err(StorageError::NotFound)
    }

    /// Every chain registration, in insertion order.
    pub fn all_chains(&self) -> (r: Result<Vec<Chain>, StorageError>)
        ensures
            r is Ok,
            r.unwrap()@ == self.chains(),
    {
        let mut out: Vec<Chain> = Vec::new();
        let mut i: usize = 0;
        while i < self.chains.len()
            invariant
                i <= self.chains@.len(),
                out@ == self.chains@.take(i as int),
            decreases self.chains@.len() - i,
        {
            let c = &self.chains[i];
            out.push(Chain {
                id: c.id,
                chain_id: c.chain_id.clone(),
                chain_name: c.chain_name.clone(),
                icon_url: crate::records::clone_opt_string(&c.icon_url),
                website: crate::records::clone_opt_string(&c.website),
                inserted_at: c.inserted_at,
                updated_at: c.updated_at,
            });
            proof {
                assert(self.chains@.take(i + 1) =~= self.chains@.take(i as int) + seq![
                    self.chains@[i as int],
                ]);
            }
            i = i + 1;
        }
        proof {
            assert(self.chains@.take(self.chains@.len() as int) =~= self.chains@);
        }
        Ok(out)
    }

    /// The message rows of one transaction, by its generated id, in
    /// sequence order (which is insertion order).
    pub fn list_messages_by_tx(&self, transaction_id: i32) -> (r: Vec<Message>)
        ensures
            r@ == spec_messages_of(self.messages(), transaction_id),
    {
        let mut out: Vec<Message> = Vec::new();
        let mut i: usize = 0;
        while i < self.messages.len()
            invariant
                i <= self.messages@.len(),
                out@ == spec_messages_of(self.messages@.take(i as int), transaction_id),
            decreases self.messages@.len() - i,
        {
            let m = &self.messages[i];
            proof {
                assert(self.messages@.take(i + 1).drop_last() =~= self.messages@.take(i as int));
                assert(self.messages@.take(i + 1).last() == self.messages@[i as int]);
            }
            if m.transaction_id == transaction_id {
                out.push(Message {
                    id: m.id,
                    transaction_id: m.transaction_id,
                    seq: m.seq,
                    rawdata: m.rawdata.clone(),
                    inserted_at: m.inserted_at,
                    updated_at: m.updated_at,
                });
            }
            i = i + 1;
        }
        proof {
            assert(self.messages@.take(self.messages@.len() as int) =~= self.messages@);
        }
        out
    }

    /// The transaction-origin event rows of one transaction, by its hash,
    /// in insertion order.
    pub fn list_events_by_tx(&self, tx_hash: &String) -> (r: Vec<Event>)
        ensures
            r@ == spec_events_of(self.events(), *tx_hash),
    {
        let mut out: Vec<Event> = Vec::new();
        let mut i: usize = 0;
        while i < self.events.len()
            invariant
                i <= self.events@.len(),
                out@ == spec_events_of(self.events@.take(i as int), *tx_hash),
            decreases self.events@.len() - i,
        {
            let e = &self.events[i];
            proof {
                assert(self.events@.take(i + 1).drop_last() =~= self.events@.take(i as int));
                assert(self.events@.take(i + 1).last() == self.events@[i as int]);
            }
            let matches_hash = match &e.tx_hash {
                Some(h) => h.eq(tx_hash),
                None => false,
            };
            if matches_hash {
                out.push(Event {
                    id: e.id,
                    chain_id: e.chain_id,
                    tx_type: e.tx_type,
                    tx_hash: crate::records::clone_opt_string(&e.tx_hash),
                    block_height: e.block_height,
                    event_seq: e.event_seq,
                    event_type: e.event_type.clone(),
                    event_key: e.event_key.clone(),
                    event_value: e.event_value.clone(),
                    indexed: e.indexed,
                    inserted_at: e.inserted_at,
                    updated_at: e.updated_at,
                });
            }
            i = i + 1;
        }
        proof {
            assert(self.events@.take(self.events@.len() as int) =~= self.events@);
        }
        out
    }

    /// The transaction rows of one chain at one height, in insertion
    /// order (which is block-body order).
    pub fn list_transactions(&self, chain_id: i32, block_number: i64) -> (r: Result<
        Vec<Transaction>,
        StorageError,
    >)
        ensures
            r is Ok,
            r.unwrap()@ == spec_transactions_at(self.transactions(), chain_id, block_number),
    {
        let mut out: Vec<Transaction> = Vec::new();
        let mut i: usize = 0;
        while i < self.transactions.len()
            invariant
                i <= self.transactions@.len(),
                out@ == spec_transactions_at(
                    self.transactions@.take(i as int),
                    chain_id,
                    block_number,
                ),
            decreases self.transactions@.len() - i,
        {
            let t = &self.transactions[i];
            proof {
                assert(self.transactions@.take(i + 1).drop_last() =~= self.transactions@.take(
                    i as int,
                ));
                assert(self.transactions@.take(i + 1).last() == self.transactions@[i as int]);
            }
            if t.chain_id == chain_id && t.height == block_number {
                out.push(Transaction {
                    id: t.id,
                    chain_id: t.chain_id,
                    transaction_hash: t.transaction_hash.clone(),
                    height: t.height,
                    code: t.code,
                    code_space: t.code_space.clone(),
                    tx_data: t.tx_data.clone(),
                    raw_log: t.raw_log.clone(),
                    info: t.info.clone(),
                    memo: crate::records::clone_opt_string(&t.memo),
                    gas_wanted: t.gas_wanted,
                    gas_used: t.gas_used,
                    tx_timestamp: t.tx_timestamp.clone(),
                    inserted_at: t.inserted_at,
                    updated_at: t.updated_at,
                });
            }
            i = i + 1;
        }
        proof {
            assert(self.transactions@.take(self.transactions@.len() as int)
                =~= self.transactions@);
        }
        Ok(out)
    }

    /// The chain's most recently committed block row: the one at its
    /// greatest height.
    pub fn find_latest_block(&self, chain_id: i32) -> (r: Result<Block, StorageError>)
        requires
            self.wf(),
        ensures
            r is Ok <==> has_block_for(self.blocks(), chain_id),
            r is Ok ==> {
                &&& exists|i: int|
                    0 <= i < self.blocks().len() && #[trigger] self.blocks()[i] == r.unwrap()
                &&& r.unwrap().chain_id == chain_id
                &&& is_max_height(self.blocks(), chain_id, r.unwrap().height)
            },
            r is Err ==> r == Result::<Block, StorageError>::Err(StorageError::NotFound),
    {
        match self.latest_block_height(chain_id) {
            Ok(height) => self.find_block_by_height(chain_id, height),
            Err(e) => Err(e),
        }
    }

    /// The chain's block row of greatest height below the bound, if any;
    /// no bound means the greatest overall.
    fn find_max_below(&self, chain_id: i32, bound: &Option<i64>) -> (r: Option<Block>)
        ensures
            r is Some ==> {
                &&& exists|j: int|
                    0 <= j < self.blocks().len() && #[trigger] self.blocks()[j] == r.unwrap()
                &&& r.unwrap().chain_id == chain_id
                &&& (bound is Some ==> r.unwrap().height < bound.unwrap())
                &&& forall|j: int|
                    0 <= j < self.blocks().len() && (#[trigger] self.blocks()[j]).chain_id
                        == chain_id && (bound is Some ==> self.blocks()[j].height
                        < bound.unwrap()) ==> self.blocks()[j].height <= r.unwrap().height
            },
            r is None ==> forall|j: int|
                0 <= j < self.blocks().len() && (#[trigger] self.blocks()[j]).chain_id == chain_id
                    ==> (bound is Some && self.blocks()[j].height >= bound.unwrap()),
    {
        let mut best: Option<usize> = None;
        let mut i: usize = 0;
        while i < self.blocks.len()
            invariant
                i <= self.blocks@.len(),
                best is None ==> forall|j: int|
                    0 <= j < i && (#[trigger] self.blocks@[j]).chain_id == chain_id ==> (
                    bound is Some && self.blocks@[j].height >= bound.unwrap()),
                best is Some ==> {
                    &&& best.unwrap() < i
                    &&& self.blocks@[best.unwrap() as int].chain_id == chain_id
                    &&& (bound is Some ==> self.blocks@[best.unwrap() as int].height
                        < bound.unwrap())
                    &&& forall|j: int|
                        0 <= j < i && (#[trigger] self.blocks@[j]).chain_id == chain_id && (
                        bound is Some ==> self.blocks@[j].height < bound.unwrap())
                            ==> self.blocks@[j].height <= self.blocks@[best.unwrap() as int].height
                },
            decreases self.blocks@.len() - i,
        {
            let b = &self.blocks[i];
            if b.chain_id == chain_id {
                let below = match bound {
                    Some(bd) => b.height < *bd,
                    None => true,
                };
                if below {
                    let better = match best {
                        Some(idx) => b.height > self.blocks[idx].height,
                        None => true,
                    };
                    if better {
                        best = Some(i);
                    }
                }
            }
            i = i + 1;
        }
        match best {
            Some(idx) => {
                let b = &self.blocks[idx];
                let row = Block {
                    id: b.id,
                    chain_id: b.chain_id,
                    height: b.height,
                    block_hash: b.block_hash.clone(),
                    prev_hash: b.prev_hash.clone(),
                    proposer_address: b.proposer_address.clone(),
                    last_commit_hash: b.last_commit_hash.clone(),
                    data_hash: b.data_hash.clone(),
                    validators_hash: b.validators_hash.clone(),
                    next_validators_hash: b.next_validators_hash.clone(),
                    consensus_hash: b.consensus_hash.clone(),
                    app_hash: b.app_hash.clone(),
                    last_result_hash: b.last_result_hash.clone(),
                    evidence_hash: b.evidence_hash.clone(),
                    block_time: b.block_time,
                    inserted_at: b.inserted_at,
                    updated_at: b.updated_at,
                };
                proof {
                    assert(self.blocks@[idx as int] == row);
                }
                Some(row)
            },
            None => None,
        }
    }

    /// A page of the chain's block rows in descending height order: the
    /// row at position `i` of the page has exactly `offset + i` rows of
    /// the chain above it.
    pub fn list_blocks(&self, chain_id: i32, limit: i64, offset: i64) -> (r: Result<
        Vec<Block>,
        StorageError,
    >)
        requires
            self.wf(),
            limit >= 0,
            offset >= 0,
        ensures
            r is Ok,
            r.unwrap()@.len() == spec_page_len(
                count_of_chain(self.blocks(), chain_id),
                limit as int,
                offset as int,
            ),
            forall|i: int|
                0 <= i < r.unwrap()@.len() ==> {
                    &&& exists|j: int|
                        0 <= j < self.blocks().len() && #[trigger] self.blocks()[j]
                            == r.unwrap()@[i]
                    &&& (#[trigger] r.unwrap()@[i]).chain_id == chain_id
                    &&& count_higher(self.blocks(), chain_id, r.unwrap()@[i].height) == offset
                        + i
                },
    {
        let ghost blocks = self.blocks();
        proof {
            self.lemma_wf_counts();
            lemma_count_of_chain_bounds(blocks, chain_id);
        }
        let mut out: Vec<Block> = Vec::new();
        let mut bound: Option<i64> = None;
        let mut rank: i64 = 0;
        while (out.len() as i64) < limit
            invariant
                self.wf(),
                blocks == self.blocks(),
                limit >= 0,
                offset >= 0,
                0 <= rank <= count_of_chain(blocks, chain_id),
                count_of_chain(blocks, chain_id) <= blocks.len() < i64::MAX,
                bound is None ==> rank == 0,
                bound is Some ==> {
                    &&& has_block_at(blocks, chain_id, bound.unwrap())
                    &&& count_higher(blocks, chain_id, bound.unwrap()) == rank - 1
                },
                out@.len() == if rank <= offset {
                    0int
                } else {
                    rank - offset
                },
                out@.len() <= limit,
                forall|i: int|
                    0 <= i < out@.len() ==> {
                        &&& exists|j: int|
                            0 <= j < blocks.len() && #[trigger] blocks[j] == out@[i]
                        &&& (#[trigger] out@[i]).chain_id == chain_id
                        &&& count_higher(blocks, chain_id, out@[i].height) == offset + i
                    },
                out@.len() > 0 ==> bound == Some(out@.last().height),
            decreases count_of_chain(blocks, chain_id) - rank,
        {
            match self.find_max_below(chain_id, &bound) {
                Some(row) => {
                    proof {
                        let h = row.height;
                        if bound is None {
                            lemma_count_higher_zero(blocks, chain_id, h);
                        } else {
                            lemma_count_higher_step(blocks, chain_id, h, bound.unwrap());
                        }
                        assert(count_higher(blocks, chain_id, h) == rank);
                        // the chain has strictly more rows than sit above
                        // the selected one
                        assert(has_block_at(blocks, chain_id, h)) by {
                            let j = choose|j: int|
                                0 <= j < blocks.len() && #[trigger] blocks[j] == row;
                            assert(blocks[j].chain_id == chain_id && blocks[j].height == h);
                        }
                        lemma_count_all_at_bound_ge(blocks, chain_id, h);
                    }
                    let height = row.height;
                    if rank >= offset {
                        out.push(row);
                    }
                    bound = Some(height);
                    rank = rank + 1;
                },
                None => {
                    proof {
                        if bound is None {
                            assert(!has_block_for(blocks, chain_id)) by {
                                if has_block_for(blocks, chain_id) {
                                    let j = choose|j: int|
                                        0 <= j < blocks.len() && (#[trigger] blocks[j]).chain_id
                                            == chain_id;
                                    assert(bound is Some && blocks[j].height >= bound.unwrap());
                                }
                            }
                            lemma_count_of_chain_zero(blocks, chain_id);
                        } else {
                            lemma_count_all_at_bound(blocks, chain_id, bound.unwrap());
                        }
                        assert(rank == count_of_chain(blocks, chain_id));
                    }
                    return Ok(out);
                },
            }
        }
        Ok(out)
    }

    /// The number of persisted block rows.
    pub fn count_blocks(&self) -> (r: Result<i64, StorageError>)
        requires
            self.wf(),
        ensures
            r == Result::<i64, StorageError>::Ok(self.blocks().len() as i64),
    {
        Ok(self.blocks.len() as i64)
    }

    /// The number of persisted chain rows.
    pub fn count_chains(&self) -> (r: Result<i64, StorageError>)
        requires
            self.wf(),
        ensures
            r == Result::<i64, StorageError>::Ok(self.chains().len() as i64),
    {
        Ok(self.chains.len() as i64)
    }

    /// The number of persisted event rows.
    pub fn count_events(&self) -> (r: Result<i64, StorageError>)
        requires
            self.wf(),
        ensures
            r == Result::<i64, StorageError>::Ok(self.events().len() as i64),
    {
        Ok(self.events.len() as i64)
    }

    /// The number of persisted transaction rows.
    pub fn count_transactions(&self) -> (r: Result<i64, StorageError>)
        requires
            self.wf(),
        ensures
            r == Result::<i64, StorageError>::Ok(self.transactions().len() as i64),
    {
        Ok(self.transactions.len() as i64)
    }

    /// The number of persisted message rows.
    pub fn count_messages(&self) -> (r: Result<i64, StorageError>)
        requires
            self.wf(),
        ensures
            r == Result::<i64, StorageError>::Ok(self.messages().len() as i64),
    {
        Ok(self.messages.len() as i64)
    }
}

} // verus!
