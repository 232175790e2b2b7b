//! The per-user reputation counter.
//!
//! Counts consecutive non-spam messages per user identifier since
//! process start. Counts only grow; the engine promotes a user when
//! the count reaches the configured threshold. The count saturates at
//! the type's maximum rather than wrapping.

use vstd::prelude::*;

use std::collections::HashMap;

verus! {

broadcast use vstd::std_specs::hash::group_hash_axioms;

/// A user's count in a counter table, zero when absent.
pub open spec fn count_of(m: Map<i64, u32>, id: i64) -> u32 {
    if m.dom().contains(id) {
        m[id]
    } else {
        0u32
    }
}

/// A count after one more non-spam message: one higher, saturating at
/// the maximum.
pub open spec fn bumped(c: u32) -> u32 {
    if c == u32::MAX {
        c
    } else {
        (c + 1) as u32
    }
}

/// A counter table after a number of increments for one user.
pub open spec fn counts_after(m: Map<i64, u32>, id: i64, n: nat) -> Map<i64, u32>
    decreases n,
{
    if n == 0 {
        m
    } else {
        let prev = counts_after(m, id, (n - 1) as nat);
        prev.insert(id, bumped(count_of(prev, id)))
    }
}

/// Increments are lost-update-free: as long as the count stays in
/// range, a number of increments for one user raises that user's
/// count by exactly that number, and touches no other user's count.
pub proof fn lemma_increments_accumulate(m: Map<i64, u32>, id: i64, n: nat)
    requires
        count_of(m, id) + n <= u32::MAX,
    ensures
        count_of(counts_after(m, id, n), id) == count_of(m, id) + n,
        forall|other: i64| other != id ==> count_of(counts_after(m, id, n), other) == count_of(
            m,
            other,
        ),
    decreases n,
{
    if n > 0 {
        lemma_increments_accumulate(m, id, (n - 1) as nat);
    }
}

/// In-memory table of consecutive non-spam message counts.
pub struct ReputationCounter {
    counts: HashMap<i64, u32>,
}

impl ReputationCounter {
    /// The counter table as a map.
    pub closed spec fn counts(&self) -> Map<i64, u32> {
        self.counts@
    }

    /// An empty table: every user's count is zero.
    pub fn new() -> (r: Self)
        ensures
            r.counts() == Map::<i64, u32>::empty(),
    {
        ReputationCounter { counts: HashMap::new() }
    }

    /// Increments a user's count, creating the entry at one when
    /// absent, and returns the new count.
    pub fn increment(&mut self, id: i64) -> (n: u32)
        ensures
            n == bumped(count_of(old(self).counts(), id)),
            final(self).counts() == old(self).counts().insert(id, n),
    {
        let cur: u32 = match self.counts.get(&id) {
            Some(v) => *v,
            None => 0,
        };
        let n = if cur == u32::MAX {
            cur
        } else {
            cur + 1
        };
        self.counts.insert(id, n);
        n
    }
}

} // verus!
