use vstd::prelude::*;

use crate::config::RaidConfig;
use crate::registry::WatcherState;
use crate::window::{joined, marked, pending, reconciled, JoinRecord};

verus! {

/// What a join event leads to.
pub struct JoinOutcome {
    /// Records of the guild that are live after the join.
    pub live_count: usize,
    /// The pending records to act against, in arrival order; empty unless the
    /// join brought the live count to the threshold.
    pub to_act: Vec<JoinRecord>,
}

/// The records a join leaves to act against: all pending ones once the window
/// `after` the join holds at least `min_users_join` records, none before.
pub open spec fn triggered_actions(after: Seq<JoinRecord>, min_users_join: usize) -> Seq<JoinRecord> {
    if after.len() >= min_users_join {
        pending(after)
    } else {
        Seq::empty()
    }
}

/// Raid detection over every guild, with fixed settings.
pub struct RaidDetector {
    config: RaidConfig,
    state: WatcherState,
}

impl RaidDetector {
    /// The settings this detector runs with.
    pub closed spec fn settings(&self) -> RaidConfig {
        self.config
    }

    /// The records held for `guild`.
    pub closed spec fn window_of(&self, guild: u64) -> Seq<JoinRecord> {
        self.state.window_of(guild)
    }

    /// A detector with `config` and no joins seen.
    pub fn new(config: RaidConfig) -> (d: RaidDetector)
        ensures
            d.settings() == config,
            forall|g: u64| #[trigger] d.window_of(g) == Seq::<JoinRecord>::empty(),
    {
        RaidDetector { config, state: WatcherState::new() }
    }

    /// The settings this detector runs with.
    pub fn config(&self) -> (c: RaidConfig)
        ensures
            c == self.settings(),
    {
        self.config
    }

    /// Handles the join of `user_id` to `guild` at `now`: records it, evicts the
    /// guild's stale joins, and when the live count reaches the threshold hands
    /// back every pending record of the guild for the configured action. The
    /// caller issues the actions and then reports each through `action_issued`.
    pub fn on_join(&mut self, guild: u64, user_id: u64, now: u64) -> (out: JoinOutcome)
        ensures
            final(self).settings() == old(self).settings(),
            final(self).window_of(guild) == joined(
                old(self).window_of(guild),
                user_id,
                now,
                old(self).settings().window_ms,
            ),
            out.live_count == final(self).window_of(guild).len(),
            out.to_act@ == triggered_actions(
                final(self).window_of(guild),
                old(self).settings().min_users_join,
            ),
            forall|g: u64| g != guild ==> #[trigger] final(self).window_of(g) == old(self).window_of(g),
    {
        let live_count = self.state.record_join(guild, user_id, now, self.config.window_ms);
        let to_act = if live_count >= self.config.min_users_join {
            self.state.pending_actionable(guild)
        } else {
            Vec::new()
        };
        JoinOutcome { live_count, to_act }
    }

    /// Handles `user_id` leaving `guild` or being removed from it, for any reason.
    pub fn on_removal(&mut self, guild: u64, user_id: u64)
        ensures
            final(self).settings() == old(self).settings(),
            final(self).window_of(guild) == reconciled(old(self).window_of(guild), user_id),
            forall|g: u64| g != guild ==> #[trigger] final(self).window_of(g) == old(self).window_of(g),
    {
        self.state.reconcile_removal(guild, user_id);
    }

    /// Records that the action against `record` of `guild` was issued, whether
    /// or not it succeeded.
    pub fn action_issued(&mut self, guild: u64, record: JoinRecord)
        ensures
            final(self).settings() == old(self).settings(),
            final(self).window_of(guild) == marked(
                old(self).window_of(guild),
                record.user_id,
                record.occurred_at,
            ),
            forall|g: u64| g != guild ==> #[trigger] final(self).window_of(g) == old(self).window_of(g),
    {
        self.state.mark_processed(guild, record.user_id, record.occurred_at);
    }

    /// A copy of the records held for `guild`, in arrival order.
    pub fn records(&self, guild: u64) -> (r: Vec<JoinRecord>)
        ensures
            r@ == self.window_of(guild),
    {
        self.state.records(guild)
    }

    /// The unprocessed records of `guild`, in arrival order.
    pub fn pending_actionable(&self, guild: u64) -> (r: Vec<JoinRecord>)
        ensures
            r@ == pending(self.window_of(guild)),
    {
        self.state.pending_actionable(guild)
    }
}

/// Below the threshold a join hands back nothing to act against; at or above it,
/// every record of the window that is still pending is handed back, earlier
/// joins of the window included, and nothing already processed.
pub proof fn lemma_threshold_exact(after: Seq<JoinRecord>, min_users_join: usize)
    ensures
        after.len() < min_users_join ==> triggered_actions(after, min_users_join).len() == 0,
        after.len() >= min_users_join ==> forall|i: int|
            0 <= i < after.len() && !after[i].action_taken ==> #[trigger] triggered_actions(
                after,
                min_users_join,
            ).contains(after[i]),
        forall|i: int|
            0 <= i < triggered_actions(after, min_users_join).len() ==> !(#[trigger] triggered_actions(
                after,
                min_users_join,
            )[i]).action_taken,
{
    let pred = |r: JoinRecord| !r.action_taken;
    if after.len() >= min_users_join {
        assert forall|i: int| 0 <= i < after.len() && !after[i].action_taken implies #[trigger] triggered_actions(
            after,
            min_users_join,
        ).contains(after[i]) by {
            after.lemma_filter_contains(pred, i);
        }
        assert forall|i: int| 0 <= i < triggered_actions(after, min_users_join).len() implies !(#[trigger] triggered_actions(
            after,
            min_users_join,
        )[i]).action_taken by {
            after.lemma_filter_pred(pred, i);
        }
    }
}

} // verus!
