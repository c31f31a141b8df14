use vstd::prelude::*;

verus! {

/// One member join observed in a guild.
#[derive(Clone, Copy, Debug, PartialEq, Eq, Structural)]
pub struct JoinRecord {
    /// Monotonic time of the join, in milliseconds.
    pub occurred_at: u64,
    /// The account that joined.
    pub user_id: u64,
    /// Set once the detector has issued its action against this account.
    pub action_taken: bool,
}

/// Milliseconds elapsed from `at` to `now`; a time not yet reached counts as zero.
pub open spec fn age(now: u64, at: u64) -> nat {
    if now >= at {
        (now - at) as nat
    } else {
        0
    }
}

/// A record still counts at `now` when it is no older than the window.
pub open spec fn is_live(r: JoinRecord, now: u64, window_ms: u64) -> bool {
    age(now, r.occurred_at) <= window_ms
}

/// The records of `s` that are still live at `now`, in their order.
pub open spec fn live_records(s: Seq<JoinRecord>, now: u64, window_ms: u64) -> Seq<JoinRecord> {
    s.filter(|r: JoinRecord| is_live(r, now, window_ms))
}

/// The fresh record of a join by `user_id` at `now`.
pub open spec fn fresh_record(user_id: u64, now: u64) -> JoinRecord {
    JoinRecord { occurred_at: now, user_id, action_taken: false }
}

/// The window after a join: the new record appended, then every stale record dropped.
pub open spec fn joined(s: Seq<JoinRecord>, user_id: u64, now: u64, window_ms: u64) -> Seq<JoinRecord> {
    live_records(s.push(fresh_record(user_id, now)), now, window_ms)
}

/// A record survives the removal of `user_id` unless it is that user's and still unprocessed.
pub open spec fn survives_removal(r: JoinRecord, user_id: u64) -> bool {
    r.action_taken || r.user_id != user_id
}

/// The window after `user_id` left or was removed by someone else.
pub open spec fn reconciled(s: Seq<JoinRecord>, user_id: u64) -> Seq<JoinRecord> {
    s.filter(|r: JoinRecord| survives_removal(r, user_id))
}

/// The records that no action has been issued for yet, in their order.
pub open spec fn pending(s: Seq<JoinRecord>) -> Seq<JoinRecord> {
    s.filter(|r: JoinRecord| !r.action_taken)
}

/// `r` with its flag set when it is the join of `user_id` at time `at`.
pub open spec fn mark_one(r: JoinRecord, user_id: u64, at: u64) -> JoinRecord {
    if r.user_id == user_id && r.occurred_at == at {
        JoinRecord { action_taken: true, ..r }
    } else {
        r
    }
}

/// The window after the action against the join of `user_id` at `at` was issued.
pub open spec fn marked(s: Seq<JoinRecord>, user_id: u64, at: u64) -> Seq<JoinRecord> {
    s.map_values(|r: JoinRecord| mark_one(r, user_id, at))
}

/// Every unprocessed record of `after` was already in `before`, unprocessed:
/// no operation turns a processed record back into a pending one.
pub open spec fn no_flag_reset(before: Seq<JoinRecord>, after: Seq<JoinRecord>) -> bool {
    forall|r: JoinRecord| #[trigger] after.contains(r) && !r.action_taken ==> before.contains(r)
}

/// The ordered joins of one guild that are still inside the detection window.
/// The guild it belongs to is the key under which the registry holds it.
pub struct GuildWindow {
    records: Vec<JoinRecord>,
}

impl View for GuildWindow {
    type V = Seq<JoinRecord>;

    closed spec fn view(&self) -> Seq<JoinRecord> {
        self.records@
    }
}

impl GuildWindow {
    /// An empty window.
    pub fn new() -> (w: GuildWindow)
        ensures
            w@ == Seq::<JoinRecord>::empty(),
    {
        GuildWindow { records: Vec::new() }
    }

    /// Number of records currently held.
    pub fn len(&self) -> (n: usize)
        ensures
            n == self@.len(),
    {
        self.records.len()
    }

    /// A copy of the records currently held, in arrival order.
    pub fn records(&self) -> (r: Vec<JoinRecord>)
        ensures
            r@ == self@,
    {
        let mut out: Vec<JoinRecord> = Vec::new();
        let mut i: usize = 0;
        while i < self.records.len()
            invariant
                i <= self.records@.len(),
                out@ == self.records@.subrange(0, i as int),
            decreases self.records@.len() - i,
        {
            out.push(self.records[i]);
            i += 1;
            assert(out@ =~= self.records@.subrange(0, i as int));
        }
        assert(self.records@.subrange(0, i as int) =~= self.records@);
        out
    }
    /// Appends the join of `user_id` at `now`, then drops every record older than
    /// `window_ms`; returns how many records are left.
    pub fn record_join(&mut self, user_id: u64, now: u64, window_ms: u64) -> (count: usize)
        ensures
            final(self)@ == joined(old(self)@, user_id, now, window_ms),
            count == final(self)@.len(),
            forall|i: int|
                0 <= i < final(self)@.len() ==> is_live(#[trigger] final(self)@[i], now, window_ms),
    {
        self.records.push(JoinRecord { occurred_at: now, user_id, action_taken: false });
        let ghost all = self.records@;
        let mut kept: Vec<JoinRecord> = Vec::new();
        let mut i: usize = 0;
        while i < self.records.len()
            invariant
                i <= self.records@.len(),
                self.records@ == all,
                kept@ == live_records(all.subrange(0, i as int), now, window_ms),
            decreases self.records@.len() - i,
        {
            let r = self.records[i];
            let live = if now >= r.occurred_at {
                now - r.occurred_at <= window_ms
            } else {
                true
            };
            proof {
                reveal(Seq::filter);
                assert(all.subrange(0, i + 1).drop_last() =~= all.subrange(0, i as int));
            }
            if live {
                kept.push(r);
            }
            i += 1;
        }
        assert(all.subrange(0, i as int) =~= all);
        self.records = kept;
        proof {
            lemma_live_records_are_live(all, now, window_ms);
        }
        self.records.len()
    }

    /// Forgets the unprocessed joins of `user_id`, who left or was removed by
    /// someone other than the detector. Processed records stay.
    pub fn reconcile_removal(&mut self, user_id: u64)
        ensures
            final(self)@ == reconciled(old(self)@, user_id),
    {
        let ghost all = self.records@;
        let mut kept: Vec<JoinRecord> = Vec::new();
        let mut i: usize = 0;
        while i < self.records.len()
            invariant
                i <= self.records@.len(),
                self.records@ == all,
                kept@ == reconciled(all.subrange(0, i as int), user_id),
            decreases self.records@.len() - i,
        {
            let r = self.records[i];
            proof {
                reveal(Seq::filter);
                assert(all.subrange(0, i + 1).drop_last() =~= all.subrange(0, i as int));
            }
            if r.action_taken || r.user_id != user_id {
                kept.push(r);
            }
            i += 1;
        }
        assert(all.subrange(0, i as int) =~= all);
        self.records = kept;
    }

    /// The records that no action has been issued for yet, in arrival order.
    pub fn pending_actionable(&self) -> (r: Vec<JoinRecord>)
        ensures
            r@ == pending(self@),
    {
        let mut out: Vec<JoinRecord> = Vec::new();
        let mut i: usize = 0;
        while i < self.records.len()
            invariant
                i <= self.records@.len(),
                out@ == pending(self.records@.subrange(0, i as int)),
            decreases self.records@.len() - i,
        {
            let r = self.records[i];
            proof {
                reveal(Seq::filter);
                assert(self.records@.subrange(0, i + 1).drop_last() =~= self.records@.subrange(
                    0,
                    i as int,
                ));
            }
            if !r.action_taken {
                out.push(r);
            }
            i += 1;
        }
        assert(self.records@.subrange(0, i as int) =~= self.records@);
        out
    }

    /// Records that the action against the join of `user_id` at `at` was issued,
    /// whatever its outcome.
    pub fn mark_processed(&mut self, user_id: u64, at: u64)
        ensures
            final(self)@ == marked(old(self)@, user_id, at),
    {
        let ghost all = self.records@;
        let mut i: usize = 0;
        while i < self.records.len()
            invariant
                i <= self.records@.len(),
                self.records@.len() == all.len(),
                forall|j: int| 0 <= j < i ==> self.records@[j] == mark_one(all[j], user_id, at),
                forall|j: int| i <= j < all.len() ==> self.records@[j] == all[j],
            decreases self.records@.len() - i,
        {
            let r = self.records[i];
            if r.user_id == user_id && r.occurred_at == at {
                self.records.set(i, JoinRecord { action_taken: true, ..r });
            }
            i += 1;
        }
        assert(self.records@ =~= marked(all, user_id, at));
    }
}

/// Every record that survives eviction is live.
pub proof fn lemma_live_records_are_live(s: Seq<JoinRecord>, now: u64, window_ms: u64)
    ensures
        forall|i: int|
            0 <= i < live_records(s, now, window_ms).len() ==> is_live(
                #[trigger] live_records(s, now, window_ms)[i],
                now,
                window_ms,
            ),
{
    assert forall|i: int| 0 <= i < live_records(s, now, window_ms).len() implies is_live(
        #[trigger] live_records(s, now, window_ms)[i],
        now,
        window_ms,
    ) by {
        s.lemma_filter_pred(|r: JoinRecord| is_live(r, now, window_ms), i);
    }
}

proof fn lemma_filter_keeps_all(s: Seq<JoinRecord>, pred: spec_fn(JoinRecord) -> bool)
    requires
        forall|i: int| 0 <= i < s.len() ==> #[trigger] pred(s[i]),
    ensures
        s.filter(pred) == s,
    decreases s.len(),
{
    reveal(Seq::filter);
    if s.len() > 0 {
        assert forall|i: int| 0 <= i < s.drop_last().len() implies #[trigger] pred(
            s.drop_last()[i],
        ) by {
            assert(s.drop_last()[i] == s[i]);
        }
        lemma_filter_keeps_all(s.drop_last(), pred);
        assert(pred(s[s.len() - 1]));
        assert(s.drop_last().push(s.last()) =~= s);
    }
}

/// A processed record never becomes pending again: whatever a join, a removal
/// or the marking of a join leaves unprocessed was already there unprocessed
/// (for a join, counting the record it adds), and marking keeps every flag
/// that was set.
pub proof fn lemma_action_flag_monotonic(s: Seq<JoinRecord>, user_id: u64, now: u64, window_ms: u64, at: u64)
    ensures
        no_flag_reset(s.push(fresh_record(user_id, now)), joined(s, user_id, now, window_ms)),
        no_flag_reset(s, reconciled(s, user_id)),
        no_flag_reset(s, marked(s, user_id, at)),
        forall|i: int|
            0 <= i < s.len() && s[i].action_taken ==> (#[trigger] marked(s, user_id, at)[i]).action_taken,
{
    broadcast use Seq::lemma_filter_contains_rev;

    let t = s.push(fresh_record(user_id, now));
    assert forall|r: JoinRecord|
        #[trigger] joined(s, user_id, now, window_ms).contains(r) && !r.action_taken implies t.contains(r) by {
        t.lemma_filter_contains_rev(|x: JoinRecord| is_live(x, now, window_ms), r);
    }
    assert forall|r: JoinRecord|
        #[trigger] reconciled(s, user_id).contains(r) && !r.action_taken implies s.contains(r) by {
        s.lemma_filter_contains_rev(|x: JoinRecord| survives_removal(x, user_id), r);
    }
    let m = marked(s, user_id, at);
    assert forall|r: JoinRecord| #[trigger] m.contains(r) && !r.action_taken implies s.contains(r) by {
        let j = choose|j: int| 0 <= j < m.len() && m[j] == r;
        assert(m[j] == mark_one(s[j], user_id, at));
        assert(s[j] == r);
    }
}

/// Reconciling a removal is a no-op for a user without a pending record, and
/// doing it twice for the same user is the same as doing it once.
pub proof fn lemma_reconcile_idempotent(s: Seq<JoinRecord>, user_id: u64)
    ensures
        (forall|i: int| 0 <= i < s.len() ==> #[trigger] survives_removal(s[i], user_id))
            ==> reconciled(s, user_id) == s,
        reconciled(reconciled(s, user_id), user_id) == reconciled(s, user_id),
{
    let pred = |r: JoinRecord| survives_removal(r, user_id);
    if forall|i: int| 0 <= i < s.len() ==> #[trigger] survives_removal(s[i], user_id) {
        lemma_filter_keeps_all(s, pred);
    }
    let once = reconciled(s, user_id);
    assert forall|i: int| 0 <= i < once.len() implies #[trigger] pred(once[i]) by {
        s.lemma_filter_pred(pred, i);
    }
    lemma_filter_keeps_all(once, pred);
}

/// A processed record outlives any removal event, its own user's included, but
/// not the window: a join at `now` evicts it once it is stale.
pub proof fn lemma_processed_retention(s: Seq<JoinRecord>, user_id: u64, joiner: u64, now: u64, window_ms: u64)
    ensures
        forall|i: int|
            0 <= i < s.len() && s[i].action_taken ==> #[trigger] reconciled(s, user_id).contains(s[i]),
        forall|i: int|
            0 <= i < s.len() && !is_live(s[i], now, window_ms) ==> !(#[trigger] joined(s, joiner, now, window_ms).contains(s[i])),
{
    assert forall|i: int| 0 <= i < s.len() && s[i].action_taken implies #[trigger] reconciled(s, user_id).contains(s[i]) by {
        s.lemma_filter_contains(|r: JoinRecord| survives_removal(r, user_id), i);
    }
    let t = s.push(fresh_record(joiner, now));
    lemma_live_records_are_live(t, now, window_ms);
    assert forall|i: int| 0 <= i < s.len() && !is_live(s[i], now, window_ms) implies !(#[trigger] joined(s, joiner, now, window_ms).contains(s[i])) by {
        let j = joined(s, joiner, now, window_ms);
        if j.contains(s[i]) {
            let k = choose|k: int| 0 <= k < j.len() && j[k] == s[i];
            assert(is_live(j[k], now, window_ms));
        }
    }
}

} // verus!
