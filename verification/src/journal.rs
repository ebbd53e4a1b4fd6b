//! The reordering journal: completed per-height results keyed by height,
//! drained strictly in ascending order from a checkpoint. Out-of-order
//! completions wait here; the drain releases exactly the run
//! `start, start + 1, ...`, one height per release.

use vstd::prelude::*;
use crate::records::MsgCommittedBlock;

verus! {

/// Whether the association list `s` holds an entry for height `h`.
pub open spec fn has_key(s: Seq<(u64, MsgCommittedBlock)>, h: u64) -> bool {
    exists|i: int| 0 <= i < s.len() && (#[trigger] s[i]).0 == h
}

/// An index of the entry for height `h` in `s`.
pub open spec fn key_index(s: Seq<(u64, MsgCommittedBlock)>, h: u64) -> int {
    choose|i: int| 0 <= i < s.len() && (#[trigger] s[i]).0 == h
}

/// Entry heights of `s` are pairwise distinct.
pub open spec fn keys_unique(s: Seq<(u64, MsgCommittedBlock)>) -> bool {
    forall|i: int, j: int|
        0 <= i < s.len() && 0 <= j < s.len() && i != j ==> (#[trigger] s[i]).0 != (
        #[trigger] s[j]).0
}

/// The height-keyed map an association list denotes.
pub open spec fn assoc_map(s: Seq<(u64, MsgCommittedBlock)>) -> Map<u64, MsgCommittedBlock> {
    Map::new(|h: u64| has_key(s, h), |h: u64| s[key_index(s, h)].1)
}

proof fn lemma_assoc_map_len(s: Seq<(u64, MsgCommittedBlock)>)
    requires
        keys_unique(s),
    ensures
        assoc_map(s).dom().finite(),
        assoc_map(s).dom().len() == s.len(),
    decreases s.len(),
{
    if s.len() == 0 {
        assert(assoc_map(s).dom() =~= Set::<u64>::empty());
    } else {
        let sub = s.drop_last();
        let last = s.last();
        lemma_assoc_map_len(sub);
        assert forall|h: u64| has_key(sub, h) implies has_key(s, h) by {
            let i = choose|i: int| 0 <= i < sub.len() && (#[trigger] sub[i]).0 == h;
            assert(s[i].0 == h);
        }
        assert forall|h: u64| has_key(s, h) && h != last.0 implies has_key(sub, h) by {
            let i = choose|i: int| 0 <= i < s.len() && (#[trigger] s[i]).0 == h;
            assert(i < s.len() - 1);
            assert(sub[i].0 == h);
        }
        assert(has_key(s, last.0)) by {
            assert(s[s.len() - 1].0 == last.0);
        }
        assert(!has_key(sub, last.0)) by {
            if has_key(sub, last.0) {
                let i = choose|i: int| 0 <= i < sub.len() && (#[trigger] sub[i]).0 == last.0;
                assert(s[i].0 == last.0);
                assert(s[s.len() - 1].0 == last.0);
            }
        }
        assert(assoc_map(s).dom() =~= assoc_map(sub).dom().insert(last.0));
    }
}

/// Buffers completed heights and releases them in order.
pub struct Journal {
    start: u64,
    checkpoint: u64,
    entries: Vec<(u64, MsgCommittedBlock)>,
    released: Ghost<Seq<u64>>,
}

impl Journal {
    /// The height the journal began at.
    pub closed spec fn spec_start(&self) -> u64 {
        self.start
    }

    /// The next height the drain expects; everything below it has been
    /// released.
    pub closed spec fn spec_checkpoint(&self) -> u64 {
        self.checkpoint
    }

    /// The heights released so far, in release order.
    pub closed spec fn released(&self) -> Seq<u64> {
        self.released@
    }

    /// The completed-but-unreleased results, keyed by height.
    pub closed spec fn pending(&self) -> Map<u64, MsgCommittedBlock> {
        assoc_map(self.entries@)
    }

    /// The journal's invariant: pending heights sit at or above the
    /// checkpoint and are distinct, and the released history is exactly
    /// the consecutive run from `start` to the checkpoint.
    pub closed spec fn wf(&self) -> bool {
        &&& self.start <= self.checkpoint
        &&& keys_unique(self.entries@)
        &&& forall|i: int|
            0 <= i < self.entries@.len() ==> (#[trigger] self.entries@[i]).0 >= self.checkpoint
        &&& self.released@.len() == self.checkpoint - self.start
        &&& forall|i: int|
            0 <= i < self.released@.len() ==> #[trigger] self.released@[i] == self.start + i
    }

    /// Creates an empty journal whose drain starts at `start`.
    pub fn new(start: u64) -> (r: Journal)
        ensures
            r.wf(),
            r.spec_start() == start,
            r.spec_checkpoint() == start,
            r.pending() == Map::<u64, MsgCommittedBlock>::empty(),
            r.released() == Seq::<u64>::empty(),
    {
        let r = Journal {
            start,
            checkpoint: start,
            entries: Vec::new(),
            released: Ghost(Seq::empty()),
        };
        proof {
            assert(r.pending() =~= Map::<u64, MsgCommittedBlock>::empty());
        }
        r
    }

    /// The next height the drain expects.
    pub fn checkpoint(&self) -> (r: u64)
        ensures
            r == self.spec_checkpoint(),
    {
        self.checkpoint
    }

    /// How many completed heights are waiting.
    pub fn len(&self) -> (r: usize)
        requires
            self.wf(),
        ensures
            r == self.pending().dom().len(),
    {
        proof {
            lemma_assoc_map_len(self.entries@);
        }
        self.entries.len()
    }

    /// Whether a completed result for `height` is waiting.
    pub fn contains(&self, height: u64) -> (r: bool)
        ensures
            r == self.pending().dom().contains(height),
    {
        let mut i: usize = 0;
        while i < self.entries.len()
            invariant
                i <= self.entries@.len(),
                forall|j: int| 0 <= j < i ==> (#[trigger] self.entries@[j]).0 != height,
            decreases self.entries@.len() - i,
        {
            if self.entries[i].0 == height {
                proof {
                    assert(has_key(self.entries@, height)) by {
                        assert(self.entries@[i as int].0 == height);
                    }
                }
                return true;
            }
            i = i + 1;
        }
        false
    }

    /// Records the completed result of `height`. The height must not have
    /// been released or recorded already.
    pub fn insert(&mut self, height: u64, block: MsgCommittedBlock)
        requires
            old(self).wf(),
            height >= old(self).spec_checkpoint(),
            !old(self).pending().dom().contains(height),
        ensures
            final(self).wf(),
            final(self).spec_start() == old(self).spec_start(),
            final(self).spec_checkpoint() == old(self).spec_checkpoint(),
            final(self).released() == old(self).released(),
            final(self).pending() == old(self).pending().insert(height, block),
    {
        let ghost old_entries = self.entries@;
        self.entries.push((height, block));
        proof {
            let s = self.entries@;
            assert(s.len() == old_entries.len() + 1);
            assert(s[s.len() - 1].0 == height);
            assert forall|p: int, q: int|
                0 <= p < s.len() && 0 <= q < s.len() && p != q implies (#[trigger] s[p]).0 != (
            #[trigger] s[q]).0 by {
                if p < old_entries.len() && q < old_entries.len() {
                    assert(s[p] == old_entries[p]);
                    assert(s[q] == old_entries[q]);
                } else if p == old_entries.len() {
                    assert(s[q] == old_entries[q]);
                    if old_entries[q].0 == height {
                        assert(has_key(old_entries, height));
                    }
                } else {
                    assert(s[p] == old_entries[p]);
                    if old_entries[p].0 == height {
                        assert(has_key(old_entries, height));
                    }
                }
            }
            assert forall|h: u64| has_key(old_entries, h) implies has_key(s, h) by {
                let i = choose|i: int|
                    0 <= i < old_entries.len() && (#[trigger] old_entries[i]).0 == h;
                assert(s[i].0 == h);
            }
            assert forall|h: u64| has_key(s, h) && h != height implies has_key(
                old_entries,
                h,
            ) by {
                let i = choose|i: int| 0 <= i < s.len() && (#[trigger] s[i]).0 == h;
                assert(i < old_entries.len());
                assert(old_entries[i].0 == h);
            }
            assert(has_key(s, height));
            assert forall|h: u64| has_key(s, h) implies assoc_map(s)[h] == old(
                self,
            ).pending().insert(height, block)[h] by {
                let i = key_index(s, h);
                assert(0 <= i < s.len() && s[i].0 == h);
                if h == height {
                    assert(i == s.len() - 1);
                } else {
                    let io = key_index(old_entries, h);
                    assert(0 <= io < old_entries.len() && old_entries[io].0 == h);
                    assert(s[io].0 == h);
                    assert(i == io);
                    assert(s[i] == old_entries[io]);
                }
            }
            assert(self.pending() =~= old(self).pending().insert(height, block));
        }
    }

    /// Releases the result for the checkpoint height if it has arrived:
    /// removes it, hands it out, and advances the checkpoint by one.
    /// Returns nothing — and changes nothing — while that height is still
    /// missing.
    pub fn pop_next(&mut self) -> (r: Option<MsgCommittedBlock>)
        requires
            old(self).wf(),
            old(self).spec_checkpoint() < u64::MAX,
        ensures
            final(self).wf(),
            final(self).spec_start() == old(self).spec_start(),
            old(self).pending().dom().contains(old(self).spec_checkpoint()) ==> {
                &&& r == Some(old(self).pending()[old(self).spec_checkpoint()])
                &&& final(self).spec_checkpoint() == old(self).spec_checkpoint() + 1
                &&& final(self).pending() == old(self).pending().remove(
                    old(self).spec_checkpoint(),
                )
                &&& final(self).released() == old(self).released().push(
                    old(self).spec_checkpoint(),
                )
            },
            !old(self).pending().dom().contains(old(self).spec_checkpoint()) ==> {
                &&& r is None
                &&& *final(self) == *old(self)
            },
    {
        let cp = self.checkpoint;
        let mut i: usize = 0;
        while i < self.entries.len()
            invariant
                i <= self.entries@.len(),
                cp == self.checkpoint,
                cp < u64::MAX,
                self.wf(),
                forall|j: int| 0 <= j < i ==> (#[trigger] self.entries@[j]).0 != cp,
                *self == *old(self),
            decreases self.entries@.len() - i,
        {
            if self.entries[i].0 == cp {
                let ghost old_entries = self.entries@;
                let ghost idx = i as int;
                proof {
                    assert(has_key(old_entries, cp)) by {
                        assert(old_entries[idx].0 == cp);
                    }
                    assert(key_index(old_entries, cp) == idx) by {
                        let k = key_index(old_entries, cp);
                        assert(0 <= k < old_entries.len() && old_entries[k].0 == cp);
                    }
                }
                let entry = self.entries.remove(i);
                self.checkpoint = cp + 1;
                proof {
                    self.released@ = self.released@.push(cp);
                    let s = self.entries@;
                    assert(s.len() == old_entries.len() - 1);
                    assert(forall|j: int| 0 <= j < idx ==> s[j] == old_entries[j]);
                    assert(forall|j: int|
                        idx <= j < s.len() ==> s[j] == old_entries[j + 1]);
                    assert(entry == old_entries[idx]);
                    assert forall|p: int, q: int|
                        0 <= p < s.len() && 0 <= q < s.len() && p != q implies (
                    #[trigger] s[p]).0 != (#[trigger] s[q]).0 by {
                        let po = if p < idx {
                            p
                        } else {
                            p + 1
                        };
                        let qo = if q < idx {
                            q
                        } else {
                            q + 1
                        };
                        assert(s[p] == old_entries[po]);
                        assert(s[q] == old_entries[qo]);
                    }
                    assert forall|h: u64| has_key(old_entries, h) && h != cp implies has_key(
                        s,
                        h,
                    ) by {
                        let j = choose|j: int|
                            0 <= j < old_entries.len() && (#[trigger] old_entries[j]).0 == h;
                        if j < idx {
                            assert(s[j].0 == h);
                        } else {
                            assert(j != idx);
                            assert(s[j - 1].0 == h);
                        }
                    }
                    assert forall|h: u64| has_key(s, h) implies has_key(old_entries, h) && h
                        != cp by {
                        let j = choose|j: int| 0 <= j < s.len() && (#[trigger] s[j]).0 == h;
                        let jo = if j < idx {
                            j
                        } else {
                            j + 1
                        };
                        assert(s[j] == old_entries[jo]);
                        assert(old_entries[jo].0 == h);
                        if h == cp {
                            assert(old_entries[jo].0 == old_entries[idx].0);
                            assert(jo != idx);
                        }
                    }
                    assert forall|h: u64| has_key(s, h) implies assoc_map(s)[h] == assoc_map(
                        old_entries,
                    )[h] by {
                        let j = key_index(s, h);
                        assert(0 <= j < s.len() && s[j].0 == h);
                        let jo = if j < idx {
                            j
                        } else {
                            j + 1
                        };
                        assert(s[j] == old_entries[jo]);
                        assert(old_entries[jo].0 == h);
                        assert(key_index(old_entries, h) == jo) by {
                            let k = key_index(old_entries, h);
                            assert(0 <= k < old_entries.len() && old_entries[k].0 == h);
                        }
                    }
                    assert(self.pending() =~= old(self).pending().remove(cp));
                    assert(old(self).pending()[cp] == entry.1);
                    assert forall|j: int|
                        0 <= j < self.released@.len() implies #[trigger] self.released@[j]
                        == self.start + j by {
                        if j < self.released@.len() - 1 {
                            assert(self.released@[j] == old(self).released()[j]);
                        }
                    }
                }
                return Some(entry.1);
            }
            i = i + 1;
        }
        proof {
            assert(!has_key(self.entries@, cp));
        }
        None
    }
}

/// Law: whatever order completions arrived in, the heights a journal has
/// released form exactly the consecutive run `start, start + 1, ...` up
/// to its checkpoint — gapless and free of repeats.
pub proof fn lemma_released_consecutive(j: &Journal)
    requires
        j.wf(),
    ensures
        j.released().len() == j.spec_checkpoint() - j.spec_start(),
        forall|i: int|
            0 <= i < j.released().len() ==> #[trigger] j.released()[i] == j.spec_start() + i,
        forall|i: int, k: int|
            0 <= i < j.released().len() && 0 <= k < j.released().len() && i != k
                ==> j.released()[i] != j.released()[k],
{
    assert forall|i: int, k: int|
        0 <= i < j.released().len() && 0 <= k < j.released().len() && i != k implies j.released()[i]
        != j.released()[k] by {
        assert(j.released()[i] == j.spec_start() + i);
        assert(j.released()[k] == j.spec_start() + k);
    }
}

} // verus!
