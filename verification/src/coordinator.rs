//! The block coordinator: the single owner of the pending-work queue and of
//! the confirmed-block watermark.
//!
//! The listener submits block numbers as notifications arrive, in any order
//! and with duplicates; the worker drains them smallest-first and reports
//! each fully processed block back through [`Coordinator::confirm`].  The
//! watermark only ever moves forward, and submissions older than the reorg
//! window are discarded as stale.

use vstd::prelude::*;
use vstd::seq_lib::seq_to_set_is_finite;

verus! {

/// Whether a submitted block number is still inside the mutable window:
/// a submission is accepted exactly when it is younger than
/// `last_confirmed - max_reorg_depth`.
pub open spec fn submit_accepted(last_confirmed: u64, max_reorg_depth: u64, block: u64) -> bool {
    block as int + max_reorg_depth as int > last_confirmed as int
}

/// Owns the canonical "next block to process" state: the deduplicated
/// pending queue and the last confirmed block.
pub struct Coordinator {
    last_confirmed_block: u64,
    max_reorg_depth: u64,
    pending: Vec<u64>,
}

impl Coordinator {
    /// The pending queue is sorted ascending with no duplicates, so the
    /// smallest entry is at the front and each block appears at most once.
    #[verifier::type_invariant]
    spec fn wf(self) -> bool {
        forall|i: int, j: int|
            0 <= i < j < self.pending@.len() ==> self.pending@[i] < self.pending@[j]
    }

    /// The set of block numbers waiting to be processed.
    pub closed spec fn pending_set(self) -> Set<u64> {
        self.pending@.to_set()
    }

    /// The pending set is always finite.
    pub proof fn lemma_pending_set_finite(self)
        ensures
            self.pending_set().finite(),
    {
        seq_to_set_is_finite(self.pending@);
    }

    /// The durable watermark: the highest block confirmed fully processed.
    pub closed spec fn last_confirmed(self) -> u64 {
        self.last_confirmed_block
    }

    /// The configured number of most-recent blocks considered mutable.
    pub closed spec fn reorg_depth(self) -> u64 {
        self.max_reorg_depth
    }

    /// Start the coordinator from the checkpoint loaded at boot; an absent
    /// checkpoint means nothing was ever confirmed.
    pub fn new(max_reorg_depth: u64, checkpoint: Option<u64>) -> (c: Coordinator)
        ensures
            c.last_confirmed() == (match checkpoint {
                Some(b) => b,
                None => 0u64,
            }),
            c.reorg_depth() == max_reorg_depth,
            c.pending_set() == Set::<u64>::empty(),
    {
        let last: u64 = match checkpoint {
            Some(b) => b,
            None => 0,
        };
        let c = Coordinator { last_confirmed_block: last, max_reorg_depth, pending: Vec::new() };
        proof {
            assert(c.pending@.to_set() =~= Set::<u64>::empty());
        }
        c
    }

    /// Accept a notification for `block`.  A block older than the reorg
    /// window is discarded as stale; any other block joins the pending set,
    /// at most once however often it is submitted.
    pub fn submit(&mut self, block: u64) -> (accepted: bool)
        ensures
            accepted == submit_accepted(
                old(self).last_confirmed(),
                old(self).reorg_depth(),
                block,
            ),
            final(self).last_confirmed() == old(self).last_confirmed(),
            final(self).reorg_depth() == old(self).reorg_depth(),
            accepted ==> final(self).pending_set() == old(self).pending_set().insert(block),
            !accepted ==> final(self).pending_set() == old(self).pending_set(),
    {
        proof {
            use_type_invariant(&*self);
        }
        if block <= self.last_confirmed_block && self.last_confirmed_block - block
            >= self.max_reorg_depth {
            return false;
        }
        let ghost s0 = self.pending@;
        let mut idx: usize = 0;
        while idx < self.pending.len() && self.pending[idx] < block
            invariant
                *self == *old(self),
                self.pending@ == s0,
                0 <= idx <= s0.len(),
                forall|k: int| 0 <= k < idx ==> s0[k] < block,
            decreases s0.len() - idx,
        {
            idx = idx + 1;
        }
        if idx < self.pending.len() && self.pending[idx] == block {
            proof {
                assert(s0.contains(block));
                assert(self.pending_set().insert(block) =~= self.pending_set());
            }
            return true;
        }
        let mut p: Vec<u64> = Vec::new();
        std::mem::swap(&mut p, &mut self.pending);
        p.insert(idx, block);
        proof {
            assert(forall|i: int, j: int| 0 <= i < j < p@.len() ==> p@[i] < p@[j]) by {
                assert(forall|k: int| 0 <= k < idx ==> p@[k] == s0[k]);
                assert(forall|k: int| idx < k < p@.len() ==> p@[k] == s0[k - 1]);
                assert(forall|k: int| idx <= k < s0.len() ==> s0[k] >= block);
            };
        }
        self.pending = p;
        proof {
            assert(self.pending@.to_set() =~= s0.to_set().insert(block)) by {
                assert(forall|x: u64| s0.contains(x) ==> #[trigger] self.pending@.contains(x))
                    by {
                    assert(forall|k: int|
                        0 <= k < s0.len() ==> s0[k] == if k < idx {
                            self.pending@[k]
                        } else {
                            self.pending@[k + 1]
                        });
                };
                assert(self.pending@[idx as int] == block);
                assert(forall|k: int|
                    0 <= k < self.pending@.len() ==> k != idx ==> #[trigger] self.pending@[k]
                        == if k < idx {
                        s0[k]
                    } else {
                        s0[k - 1]
                    });
            };
        }
        true
    }

    /// Remove and return the smallest pending block, if any.  This is the
    /// sole dequeue path, so a drained block leaves the pending set.
    pub fn next_block(&mut self) -> (r: Option<u64>)
        ensures
            final(self).last_confirmed() == old(self).last_confirmed(),
            final(self).reorg_depth() == old(self).reorg_depth(),
            match r {
                None => old(self).pending_set().is_empty() && final(self).pending_set() == old(
                    self,
                ).pending_set(),
                Some(b) => {
                    &&& old(self).pending_set().contains(b)
                    &&& forall|x: u64| old(self).pending_set().contains(x) ==> b <= x
                    &&& final(self).pending_set() == old(self).pending_set().remove(b)
                },
            },
    {
        proof {
            use_type_invariant(&*self);
        }
        let ghost s0 = self.pending@;
        if self.pending.len() == 0 {
            proof {
                assert(forall|x: u64| !s0.contains(x));
                assert(s0.to_set() =~= Set::<u64>::empty());
            }
            return None;
        }
        let mut p: Vec<u64> = Vec::new();
        std::mem::swap(&mut p, &mut self.pending);
        let b = p.remove(0);
        self.pending = p;
        proof {
            assert(b == s0[0]);
            assert(s0.contains(b));
            assert(forall|x: u64| s0.contains(x) ==> b <= x);
            assert(self.pending@.to_set() =~= s0.to_set().remove(b)) by {
                assert(forall|k: int|
                    0 <= k < self.pending@.len() ==> #[trigger] self.pending@[k] == s0[k + 1]);
                assert(forall|x: u64| self.pending@.contains(x) ==> s0.contains(x) && x != b);
                assert forall|x: u64| s0.contains(x) && x != b implies #[trigger] self
                    .pending@.contains(x) by {
                    let i = choose|i: int| 0 <= i < s0.len() && s0[i] == x;
                    assert(i != 0);
                    assert(self.pending@[i - 1] == x);
                };
            };
        }
        Some(b)
    }

    /// Record that `block` was fully processed.  The watermark advances only
    /// forward: a confirmation at or below it leaves the state untouched.
    /// The returned value is the new watermark to persist durably, if it
    /// moved.
    pub fn confirm(&mut self, block: u64) -> (r: Option<u64>)
        ensures
            final(self).pending_set() == old(self).pending_set(),
            final(self).reorg_depth() == old(self).reorg_depth(),
            block > old(self).last_confirmed() ==> {
                &&& final(self).last_confirmed() == block
                &&& r == Some(block)
            },
            block <= old(self).last_confirmed() ==> {
                &&& final(self).last_confirmed() == old(self).last_confirmed()
                &&& r is None
            },
    {
        proof {
            use_type_invariant(&*self);
        }
        if block > self.last_confirmed_block {
            self.last_confirmed_block = block;
            Some(block)
        } else {
            None
        }
    }

    /// The current watermark, as a value.
    pub fn last_confirmed_block(&self) -> (b: u64)
        ensures
            b == self.last_confirmed(),
    {
        self.last_confirmed_block
    }

    /// How many distinct blocks are pending.  Because the queue holds each
    /// block at most once, the entry count equals the cardinality of the
    /// pending set.
    pub fn pending_count(&self) -> (n: usize)
        ensures
            n == self.pending_set().len(),
    {
        proof {
            use_type_invariant(self);
            assert(self.pending@.no_duplicates());
            self.pending@.unique_seq_to_set();
        }
        self.pending.len()
    }
}

/// Dequeues observe non-decreasing block numbers: if `b1` is a minimum of
/// the pending set and `b2` is drawn from the set after `b1` left it, then
/// `b1 <= b2`.  Since [`Coordinator::next_block`] always removes a minimum,
/// any drain of the queue yields blocks in non-decreasing order, however the
/// submissions arrived.
pub proof fn lemma_dequeue_monotone(s: Set<u64>, b1: u64, b2: u64)
    requires
        s.contains(b1),
        forall|x: u64| s.contains(x) ==> b1 <= x,
        s.remove(b1).contains(b2),
    ensures
        b1 <= b2,
{
    assert(s.contains(b2));
}

/// Submitting a block number any number of times leaves at most one pending
/// entry for it: insertion into the pending set is idempotent, and the set
/// grows by at most one member per distinct submission.
pub proof fn lemma_submit_dedup(s: Set<u64>, block: u64)
    requires
        s.finite(),
    ensures
        s.insert(block).insert(block) == s.insert(block),
        s.insert(block).len() <= s.len() + 1,
{
    assert(s.insert(block).insert(block) =~= s.insert(block));
    if s.contains(block) {
        assert(s.insert(block) =~= s);
    }
}

/// The reorg-window policy: once the watermark stands at `last`, a
/// submission at or below `last - depth` is rejected as stale, while one
/// above `last` is accepted regardless of the window.
pub proof fn lemma_reorg_window(last: u64, depth: u64, block: u64)
    ensures
        block as int <= last as int - depth as int ==> !submit_accepted(last, depth, block),
        block > last ==> submit_accepted(last, depth, block),
{
}

} // verus!
