//! The sequencer: dispatches per-height fetches concurrently — advancing
//! its cursor on dispatch, not on completion — records completions in the
//! journal whatever order they arrive in, and releases them downstream
//! strictly in order. A height the chain has not produced yet stays in
//! flight and changes nothing.

use vstd::prelude::*;
use crate::errors::Error;
use crate::journal::Journal;
use crate::records::MsgCommittedBlock;

verus! {

/// How long to wait before retrying a height the chain has not produced
/// yet, in milliseconds.
pub const WAIT_FOR_HEIGHT_BACKOFF_MS: u64 = 2000;

/// How often the drain polls the journal, in milliseconds.
pub const DRAIN_INTERVAL_MS: u64 = 200;

/// Whether the height list `s` holds `h`.
pub open spec fn flight_has(s: Seq<u64>, h: u64) -> bool {
    exists|i: int| 0 <= i < s.len() && #[trigger] s[i] == h
}

/// Runs the fetch-reorder stage: a dispatch cursor, the set of heights in
/// flight, and the journal of completed-but-unreleased heights.
pub struct Sequencer {
    journal: Journal,
    next_dispatch: u64,
    in_flight: Vec<u64>,
    limit: usize,
}

impl Sequencer {
    /// The height ingestion began at.
    pub closed spec fn spec_start(&self) -> u64 {
        self.journal.spec_start()
    }

    /// The next height the drain will release.
    pub closed spec fn spec_checkpoint(&self) -> u64 {
        self.journal.spec_checkpoint()
    }

    /// The next height a dispatch will hand out.
    pub closed spec fn spec_next_dispatch(&self) -> u64 {
        self.next_dispatch
    }

    /// The concurrency limit on in-flight heights.
    pub closed spec fn spec_limit(&self) -> usize {
        self.limit
    }

    /// The heights currently being fetched.
    pub closed spec fn in_flight(&self) -> Seq<u64> {
        self.in_flight@
    }

    /// Whether `h` is currently being fetched.
    pub open spec fn in_flight_has(&self, h: u64) -> bool {
        flight_has(self.in_flight(), h)
    }

    /// The completed-but-unreleased results, keyed by height.
    pub closed spec fn pending(&self) -> Map<u64, MsgCommittedBlock> {
        self.journal.pending()
    }

    /// The heights released downstream so far, in release order.
    pub closed spec fn released(&self) -> Seq<u64> {
        self.journal.released()
    }

    /// The sequencer's invariant: every height from the start has been
    /// released, is waiting in the journal, or is in flight — each
    /// exactly once — and nothing beyond the dispatch cursor exists
    /// anywhere.
    pub closed spec fn wf(&self) -> bool {
        &&& self.journal.wf()
        &&& self.journal.spec_checkpoint() <= self.next_dispatch
        &&& forall|i: int, j: int|
            0 <= i < self.in_flight@.len() && 0 <= j < self.in_flight@.len() && i != j
                ==> #[trigger] self.in_flight@[i] != #[trigger] self.in_flight@[j]
        &&& forall|i: int|
            0 <= i < self.in_flight@.len() ==> self.journal.spec_checkpoint() <= (
            #[trigger] self.in_flight@[i]) < self.next_dispatch
        &&& forall|h: u64|
            self.journal.pending().dom().contains(h) ==> h < self.next_dispatch
        &&& forall|h: u64|
            self.journal.spec_checkpoint() <= h < self.next_dispatch
                ==> (flight_has(self.in_flight@, h) <==> !self.journal.pending().dom().contains(
                h,
            ))
    }

    /// Creates a sequencer that will fetch heights from `start_block` on,
    /// at most `limit` at a time. A start height below one is refused.
    pub fn new(start_block: i64, limit: usize) -> (r: Result<Sequencer, Error>)
        ensures
            r is Ok <==> start_block >= 1,
            r is Err ==> r == Result::<Sequencer, Error>::Err(
                Error::StartBlockMustBeGreaterThanZero,
            ),
            r is Ok ==> {
                &&& r.unwrap().wf()
                &&& r.unwrap().spec_start() == start_block as u64
                &&& r.unwrap().spec_checkpoint() == start_block as u64
                &&& r.unwrap().spec_next_dispatch() == start_block as u64
                &&& r.unwrap().spec_limit() == limit
                &&& r.unwrap().in_flight() == Seq::<u64>::empty()
                &&& r.unwrap().pending() == Map::<u64, MsgCommittedBlock>::empty()
                &&& r.unwrap().released() == Seq::<u64>::empty()
            },
    {
        if start_block <= 0 {
            return Err(Error::StartBlockMustBeGreaterThanZero);
        }
        let start = start_block as u64;
        Ok(Sequencer { journal: Journal::new(start), next_dispatch: start, in_flight: Vec::new(), limit })
    }

    /// The next height the drain will release.
    pub fn checkpoint(&self) -> (r: u64)
        ensures
            r == self.spec_checkpoint(),
    {
        self.journal.checkpoint()
    }

    /// Whether a new height may be dispatched: the concurrency limit has
    /// room.
    pub fn can_dispatch(&self) -> (r: bool)
        ensures
            r == (self.in_flight().len() < self.spec_limit() && self.spec_next_dispatch()
                < u64::MAX),
    {
        self.in_flight.len() < self.limit && self.next_dispatch < u64::MAX
    }

    /// Hands out the next height to fetch and advances the cursor — on
    /// dispatch, not on completion.
    pub fn dispatch(&mut self) -> (r: u64)
        requires
            old(self).wf(),
            old(self).in_flight().len() < old(self).spec_limit(),
            old(self).spec_next_dispatch() < u64::MAX,
        ensures
            final(self).wf(),
            r == old(self).spec_next_dispatch(),
            final(self).spec_next_dispatch() == old(self).spec_next_dispatch() + 1,
            final(self).in_flight() == old(self).in_flight().push(r),
            final(self).spec_start() == old(self).spec_start(),
            final(self).spec_checkpoint() == old(self).spec_checkpoint(),
            final(self).spec_limit() == old(self).spec_limit(),
            final(self).pending() == old(self).pending(),
            final(self).released() == old(self).released(),
    {
        let height = self.next_dispatch;
        self.in_flight.push(height);
        self.next_dispatch = height + 1;
        proof {
            let s = self.in_flight@;
            let os = old(self).in_flight@;
            assert forall|h: u64|
                self.journal.spec_checkpoint() <= h < self.next_dispatch implies (flight_has(
                s,
                h,
            ) <==> !self.journal.pending().dom().contains(h)) by {
                if h == height {
                    assert(s[s.len() - 1] == h);
                    assert(flight_has(s, h));
                } else {
                    assert(flight_has(os, h) <==> flight_has(s, h)) by {
                        if flight_has(os, h) {
                            let i = choose|i: int| 0 <= i < os.len() && #[trigger] os[i] == h;
                            assert(s[i] == h);
                        }
                        if flight_has(s, h) {
                            let i = choose|i: int| 0 <= i < s.len() && #[trigger] s[i] == h;
                            assert(i < os.len());
                            assert(os[i] == h);
                        }
                    }
                }
            }
        }
        height
    }

    /// Records the completed result of an in-flight height in the
    /// journal; the height is no longer in flight.
    pub fn on_fetched(&mut self, height: u64, block: MsgCommittedBlock)
        requires
            old(self).wf(),
            old(self).in_flight_has(height),
        ensures
            final(self).wf(),
            final(self).spec_start() == old(self).spec_start(),
            final(self).spec_checkpoint() == old(self).spec_checkpoint(),
            final(self).spec_next_dispatch() == old(self).spec_next_dispatch(),
            final(self).spec_limit() == old(self).spec_limit(),
            final(self).pending() == old(self).pending().insert(height, block),
            final(self).released() == old(self).released(),
            forall|h: u64| final(self).in_flight_has(h) <==> old(self).in_flight_has(h) && h
                != height,
    {
        let mut i: usize = 0;
        while i < self.in_flight.len()
            invariant
                i <= self.in_flight@.len(),
                *self == *old(self),
                self.wf(),
                self.in_flight_has(height),
                forall|j: int| 0 <= j < i ==> #[trigger] self.in_flight@[j] != height,
            decreases self.in_flight@.len() - i,
        {
            if self.in_flight[i] == height {
                let ghost idx = i as int;
                let ghost os = self.in_flight@;
                self.in_flight.remove(i);
                proof {
                    let s = self.in_flight@;
                    assert(forall|j: int| 0 <= j < idx ==> s[j] == os[j]);
                    assert(forall|j: int| idx <= j < s.len() ==> s[j] == os[j + 1]);
                    assert forall|p: int, q: int|
                        0 <= p < s.len() && 0 <= q < s.len() && p != q implies #[trigger] s[p]
                        != #[trigger] s[q] by {
                        let po = if p < idx {
                            p
                        } else {
                            p + 1
                        };
                        let qo = if q < idx {
                            q
                        } else {
                            q + 1
                        };
                        assert(s[p] == os[po]);
                        assert(s[q] == os[qo]);
                    }
                    assert forall|h: u64| flight_has(s, h) implies flight_has(os, h) && h
                        != height by {
                        let j = choose|j: int| 0 <= j < s.len() && #[trigger] s[j] == h;
                        let jo = if j < idx {
                            j
                        } else {
                            j + 1
                        };
                        assert(os[jo] == h);
                        if h == height {
                            assert(os[jo] == os[idx]);
                            assert(jo != idx);
                        }
                    }
                    assert forall|h: u64| flight_has(os, h) && h != height implies flight_has(
                        s,
                        h,
                    ) by {
                        let j = choose|j: int| 0 <= j < os.len() && #[trigger] os[j] == h;
                        assert(j != idx);
                        if j < idx {
                            assert(s[j] == h);
                        } else {
                            assert(s[j - 1] == h);
                        }
                    }
                }
                // the height completed, so it may not be pending yet
                proof {
                    assert(!self.journal.pending().dom().contains(height));
                }
                self.journal.insert(height, block);
                proof {
                    let s = self.in_flight@;
                    assert forall|h: u64|
                        self.journal.spec_checkpoint() <= h < self.next_dispatch implies (
                    flight_has(s, h) <==> !self.journal.pending().dom().contains(h)) by {
                        if h != height {
                            assert(flight_has(os, h) <==> !old(
                                self,
                            ).journal.pending().dom().contains(h));
                        }
                    }
                }
                return ;
            }
            i = i + 1;
        }
        proof {
            // the height was required to be in flight, so the scan finds it
            assert(!flight_has(self.in_flight@, height));
            assert(false);
        }
    }

    /// Acknowledges that the chain has not produced an in-flight height
    /// yet and reports how long to back off before retrying the same
    /// height. The cursor, the journal, the checkpoint and the released
    /// history stay exactly as they were: such a height never advances
    /// anything and never reaches the committer.
    pub fn on_not_yet_available(&mut self, height: u64) -> (r: u64)
        ensures
            *final(self) == *old(self),
            r == WAIT_FOR_HEIGHT_BACKOFF_MS,
    {
        let _ = height;
        WAIT_FOR_HEIGHT_BACKOFF_MS
    }

    /// Releases the result for the checkpoint height if it has arrived,
    /// advancing the checkpoint by one; nothing changes while that height
    /// is still missing.
    pub fn next_ready(&mut self) -> (r: Option<MsgCommittedBlock>)
        requires
            old(self).wf(),
            old(self).spec_checkpoint() < u64::MAX,
        ensures
            final(self).wf(),
            final(self).spec_start() == old(self).spec_start(),
            final(self).spec_next_dispatch() == old(self).spec_next_dispatch(),
            final(self).spec_limit() == old(self).spec_limit(),
            final(self).in_flight() == old(self).in_flight(),
            old(self).pending().dom().contains(old(self).spec_checkpoint()) ==> {
                &&& r == Some(old(self).pending()[old(self).spec_checkpoint()])
                &&& final(self).spec_checkpoint() == old(self).spec_checkpoint() + 1
                &&& final(self).pending() == old(self).pending().remove(
                    old(self).spec_checkpoint(),
                )
                &&& final(self).released() == old(self).released().push(
                    old(self).spec_checkpoint(),
                )
            },
            !old(self).pending().dom().contains(old(self).spec_checkpoint()) ==> {
                &&& r is None
                &&& *final(self) == *old(self)
            },
    {
        let ghost cp = self.journal.spec_checkpoint();
        let r = self.journal.pop_next();
        proof {
            if old(self).pending().dom().contains(cp) {
                assert forall|i: int|
                    0 <= i < self.in_flight@.len() implies self.journal.spec_checkpoint() <= (
                #[trigger] self.in_flight@[i]) < self.next_dispatch by {
                    if old(self).in_flight@[i] == cp {
                        assert(flight_has(old(self).in_flight@, cp));
                    }
                }
            }
        }
        r
    }
}

/// Law: whatever order fetches complete in, the heights a sequencer has
/// released to the committer are exactly the consecutive run
/// `start, start + 1, ...` up to its checkpoint — gapless and free of
/// repeats.
pub proof fn lemma_released_consecutive(s: &Sequencer)
    requires
        s.wf(),
    ensures
        s.released().len() == s.spec_checkpoint() - s.spec_start(),
        forall|i: int|
            0 <= i < s.released().len() ==> #[trigger] s.released()[i] == s.spec_start() + i,
        forall|i: int, k: int|
            0 <= i < s.released().len() && 0 <= k < s.released().len() && i != k
                ==> s.released()[i] != s.released()[k],
{
    crate::journal::lemma_released_consecutive(&s.journal);
}

} // verus!
