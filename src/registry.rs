use std::collections::HashMap;
use vstd::prelude::*;

use crate::window::{joined, marked, pending, reconciled, GuildWindow, JoinRecord};

verus! {

broadcast use vstd::std_specs::hash::group_hash_axioms;

/// Every guild's join window, keyed by guild. A guild never seen has an empty
/// window; windows are created on first use and never dropped.
pub struct WatcherState {
    guilds: HashMap<u64, GuildWindow>,
}

impl WatcherState {
    /// The records held for `guild`.
    pub closed spec fn window_of(&self, guild: u64) -> Seq<JoinRecord> {
        if self.guilds@.contains_key(guild) {
            self.guilds@[guild]@
        } else {
            Seq::empty()
        }
    }

    /// A registry in which every guild's window is empty.
    pub fn new() -> (st: WatcherState)
        ensures
            forall|g: u64| #[trigger] st.window_of(g) == Seq::<JoinRecord>::empty(),
    {
        WatcherState { guilds: HashMap::new() }
    }

    /// Takes the window of `guild` out of the map, or a fresh one if it has none.
    fn take_window(&mut self, guild: u64) -> (w: GuildWindow)
        ensures
            w@ == old(self).window_of(guild),
            final(self).guilds@ == old(self).guilds@.remove(guild),
    {
        match self.guilds.remove(&guild) {
            Some(w) => w,
            None => GuildWindow::new(),
        }
    }

    /// Records the join of `user_id` to `guild` at `now` and evicts that guild's
    /// stale records; returns its live count. Other guilds are untouched.
    pub fn record_join(&mut self, guild: u64, user_id: u64, now: u64, window_ms: u64) -> (count: usize)
        ensures
            final(self).window_of(guild) == joined(old(self).window_of(guild), user_id, now, window_ms),
            count == final(self).window_of(guild).len(),
            forall|g: u64| g != guild ==> #[trigger] final(self).window_of(g) == old(self).window_of(g),
    {
        let mut w = self.take_window(guild);
        let count = w.record_join(user_id, now, window_ms);
        self.guilds.insert(guild, w);
        count
    }

    /// Forgets the pending joins of `user_id` in `guild`. Other guilds are untouched.
    pub fn reconcile_removal(&mut self, guild: u64, user_id: u64)
        ensures
            final(self).window_of(guild) == reconciled(old(self).window_of(guild), user_id),
            forall|g: u64| g != guild ==> #[trigger] final(self).window_of(g) == old(self).window_of(g),
    {
        let mut w = self.take_window(guild);
        w.reconcile_removal(user_id);
        self.guilds.insert(guild, w);
    }

    /// Marks the join of `user_id` to `guild` at `at` as processed. Other guilds
    /// are untouched.
    pub fn mark_processed(&mut self, guild: u64, user_id: u64, at: u64)
        ensures
            final(self).window_of(guild) == marked(old(self).window_of(guild), user_id, at),
            forall|g: u64| g != guild ==> #[trigger] final(self).window_of(g) == old(self).window_of(g),
    {
        let mut w = self.take_window(guild);
        w.mark_processed(user_id, at);
        self.guilds.insert(guild, w);
    }

    /// The unprocessed records of `guild`, in arrival order.
    pub fn pending_actionable(&self, guild: u64) -> (r: Vec<JoinRecord>)
        ensures
            r@ == pending(self.window_of(guild)),
    {
        match self.guilds.get(&guild) {
            Some(w) => w.pending_actionable(),
            None => {
                proof {
                    reveal(Seq::filter);
                }
                Vec::new()
            },
        }
    }

    /// A copy of the records held for `guild`, in arrival order.
    pub fn records(&self, guild: u64) -> (r: Vec<JoinRecord>)
        ensures
            r@ == self.window_of(guild),
    {
        match self.guilds.get(&guild) {
            Some(w) => w.records(),
            None => Vec::new(),
        }
    }
}

} // verus!
