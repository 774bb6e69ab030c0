//! What the bot remembers while it runs.

use std::collections::HashSet;

use vstd::prelude::*;

use crate::health::{result_models, HealthSnapshot};

verus! {

/// Who may send a meme, and the latest results of the checks.
#[derive(Debug)]
pub struct AppState {
    /// Users whose next media message goes to the approvers.
    pub meme_armed: HashSet<u64>,
    /// Nothing until the first round of checks.
    pub health: Option<HealthSnapshot>,
}

impl AppState {
    /// Nobody may send a meme, and nothing has been checked.
    pub fn new() -> (r: AppState)
        ensures
            r.meme_armed@ == Set::<u64>::empty(),
            r.health is None,
    {
        broadcast use vstd::std_specs::hash::group_hash_axioms;

        AppState { meme_armed: HashSet::new(), health: None }
    }

    /// The user may send a meme.
    pub fn arm_meme(&mut self, user_id: u64)
        ensures
            final(self).meme_armed@ == old(self).meme_armed@.insert(user_id),
            final(self).health == old(self).health,
    {
        broadcast use vstd::std_specs::hash::group_hash_axioms;

        self.meme_armed.insert(user_id);
    }

    /// Whether the user may send a meme; from then on, not any more.
    pub fn take_meme(&mut self, user_id: u64) -> (r: bool)
        ensures
            r == old(self).meme_armed@.contains(user_id),
            final(self).meme_armed@ == old(self).meme_armed@.remove(user_id),
            final(self).health == old(self).health,
    {
        broadcast use vstd::std_specs::hash::group_hash_axioms;

        self.meme_armed.remove(&user_id)
    }

    /// Keeps the results of a round of checks.
    pub fn set_health(&mut self, snapshot: HealthSnapshot)
        ensures
            final(self).health == Some(snapshot),
            final(self).meme_armed == old(self).meme_armed,
    {
        self.health = Some(snapshot);
    }

    /// The latest results of the checks.
    pub fn health(&self) -> (r: Option<HealthSnapshot>)
        ensures
            r is Some <==> self.health is Some,
            r matches Some(snapshot) ==> snapshot.checked_at == self.health->0.checked_at
                && result_models(snapshot.results@) == result_models(self.health->0.results@),
    {
        match &self.health {
            Some(snapshot) => Some(snapshot.copy()),
            None => None,
        }
    }
}

/// A user who may send a meme may do so once: taking the permission twice gives it once, and it
/// concerns nobody else.
pub proof fn meme_is_taken_once(armed: Set<u64>, user_id: u64, other: u64)
    ensures
        armed.insert(user_id).contains(user_id),
        !armed.insert(user_id).remove(user_id).contains(user_id),
        other != user_id ==> (armed.insert(user_id).remove(user_id).contains(other)
            <==> armed.contains(other)),
{
}

} // verus!
