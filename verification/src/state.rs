//! The engine's shared state: the allowlist mirror and the
//! reputation counter, owned together.
//!
//! Callers that dispatch messages concurrently serialize access to
//! this state; each operation below is one atomic step of the
//! decision pipeline.

use vstd::prelude::*;

use crate::reputation::{bumped, count_of, ReputationCounter};
use crate::whitelist::{line_seq, AllowlistStore};

verus! {

/// The moderation state one process instance owns.
pub struct AppState {
    pub whitelist: AllowlistStore,
    pub ham_counter: ReputationCounter,
}

impl AppState {
    /// Fresh state around a loaded allowlist: every reputation count
    /// starts at zero.
    pub fn new(whitelist: AllowlistStore) -> (s: Self)
        ensures
            s.whitelist == whitelist,
            s.ham_counter.counts() == Map::<i64, u32>::empty(),
    {
        AppState { whitelist, ham_counter: ReputationCounter::new() }
    }
}

/// Whether the user is in the cached allowlist.
pub fn is_user_whitelisted(user_id: i64, state: &AppState) -> (r: bool)
    ensures
        r == state.whitelist.ids().contains(user_id),
{
    state.whitelist.contains(user_id)
}

/// Adds the user to the allowlist mirror. Returns the line owed to
/// the durable file, or nothing when the user was already present:
/// repeating the call appends nothing.
pub fn add_user_to_whitelist(user_id: i64, state: &mut AppState) -> (line: Option<String>)
    requires
        old(state).whitelist.wf(),
    ensures
        final(state).whitelist.wf(),
        final(state).whitelist.ids() == old(state).whitelist.ids().insert(user_id),
        final(state).whitelist.initial_content() == old(state).whitelist.initial_content(),
        final(state).ham_counter == old(state).ham_counter,
        line is Some <==> !old(state).whitelist.ids().contains(user_id),
        match line {
            Some(l) => {
                &&& l@ == line_seq(user_id)
                &&& final(state).whitelist.journal_ids() == old(state).whitelist.journal_ids().push(
                    user_id,
                )
            },
            None => final(state).whitelist.journal_ids() == old(state).whitelist.journal_ids(),
        },
{
    state.whitelist.add(user_id)
}

/// Increments the user's consecutive non-spam count and returns the
/// new value. The allowlist is untouched.
pub fn increment_ham_counter(user_id: i64, state: &mut AppState) -> (n: u32)
    ensures
        n == bumped(count_of(old(state).ham_counter.counts(), user_id)),
        final(state).ham_counter.counts() == old(state).ham_counter.counts().insert(user_id, n),
        final(state).whitelist == old(state).whitelist,
{
    state.ham_counter.increment(user_id)
}

} // verus!
