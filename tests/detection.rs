use raid_guard::{
    Action, GuildWindow, JoinRecord, RaidConfig, RaidDetector, WatcherState, BAN_DELETE_DAYS,
    DEFAULT_MIN_USERS_JOIN, DEFAULT_WINDOW_MS, RAID_REASON,
};

const GUILD: u64 = 100;
const OTHER_GUILD: u64 = 200;

fn detector() -> RaidDetector {
    RaidDetector::new(RaidConfig::default_config())
}

fn rec(user_id: u64, occurred_at: u64, action_taken: bool) -> JoinRecord {
    JoinRecord { occurred_at, user_id, action_taken }
}

#[test]
fn default_settings() {
    let c = RaidConfig::default_config();
    assert_eq!(c.window_ms, 30_000);
    assert_eq!(c.min_users_join, 8);
    assert_eq!(c.action, Action::Kick);
    assert_eq!(DEFAULT_WINDOW_MS, 30_000);
    assert_eq!(DEFAULT_MIN_USERS_JOIN, 8);
    assert_eq!(BAN_DELETE_DAYS, 7);
    assert_eq!(RAID_REASON, "Suspected bot; performing raid defense");
    assert_eq!(detector().config(), c);
}

#[test]
fn burst_of_eight_within_five_seconds_is_acted_on_then_window_expires() {
    let mut d = detector();
    for i in 0..7u64 {
        let out = d.on_join(GUILD, 10 + i, 1_000 + i * 600);
        assert_eq!(out.live_count, (i + 1) as usize);
        assert!(out.to_act.is_empty());
    }
    let out = d.on_join(GUILD, 17, 5_900);
    assert_eq!(out.live_count, 8);
    assert_eq!(out.to_act.len(), 8);
    let action = d.config().action;
    let mut kicks: Vec<(u64, Action, &str)> = Vec::new();
    for (i, r) in out.to_act.iter().enumerate() {
        assert_eq!(r.user_id, 10 + i as u64);
        assert!(!r.action_taken);
        kicks.push((r.user_id, action, RAID_REASON));
        d.action_issued(GUILD, *r);
    }
    assert_eq!(kicks.len(), 8);
    assert!(kicks.iter().all(|k| k.1 == Action::Kick && k.2 == "Suspected bot; performing raid defense"));
    let held = d.records(GUILD);
    assert_eq!(held.len(), 8);
    assert!(held.iter().all(|r| r.action_taken));
    assert!(d.pending_actionable(GUILD).is_empty());

    let out = d.on_join(GUILD, 99, 5_900 + 40_000);
    assert_eq!(out.live_count, 1);
    assert!(out.to_act.is_empty());
    assert_eq!(d.records(GUILD), vec![rec(99, 45_900, false)]);
}

#[test]
fn user_leaving_before_trigger_no_longer_counts() {
    let mut d = detector();
    let out = d.on_join(GUILD, 42, 0);
    assert_eq!(out.live_count, 1);
    d.on_removal(GUILD, 42);
    assert!(d.records(GUILD).is_empty());
    for i in 0..7u64 {
        let out = d.on_join(GUILD, 1 + i, 1_000 + i);
        assert!(out.to_act.is_empty());
    }
    assert_eq!(d.records(GUILD).len(), 7);
    assert!(d.records(GUILD).iter().all(|r| r.user_id != 42));
}

#[test]
fn eviction_keeps_records_exactly_at_window_edge() {
    let mut w = GuildWindow::new();
    assert_eq!(w.record_join(1, 0, 30_000), 1);
    assert_eq!(w.record_join(2, 30_000, 30_000), 2);
    assert_eq!(w.record_join(3, 30_001, 30_000), 2);
    assert_eq!(w.records(), vec![rec(2, 30_000, false), rec(3, 30_001, false)]);
    assert_eq!(w.len(), 2);
}

#[test]
fn eviction_leaves_only_live_records_after_each_join() {
    let mut w = GuildWindow::new();
    let times = [0u64, 5, 12, 20, 21, 40, 41, 90, 91, 92];
    for (i, t) in times.iter().enumerate() {
        let n = w.record_join(i as u64, *t, 10);
        let held = w.records();
        assert_eq!(n, held.len());
        assert!(held.iter().all(|r| *t - r.occurred_at <= 10));
    }
    assert_eq!(w.records().len(), 3);
}

#[test]
fn join_with_earlier_timestamp_keeps_later_records() {
    let mut w = GuildWindow::new();
    w.record_join(1, 100_000, 30_000);
    assert_eq!(w.record_join(2, 50, 30_000), 2);
}

#[test]
fn seven_joins_do_nothing_and_eighth_acts_on_all_pending() {
    let mut d = detector();
    for i in 0..7u64 {
        assert!(d.on_join(GUILD, i, i).to_act.is_empty());
    }
    let out = d.on_join(GUILD, 7, 7);
    let users: Vec<u64> = out.to_act.iter().map(|r| r.user_id).collect();
    assert_eq!(users, vec![0, 1, 2, 3, 4, 5, 6, 7]);
}

#[test]
fn later_join_in_raid_acts_only_on_new_pending_records() {
    let mut d = detector();
    for i in 0..8u64 {
        let out = d.on_join(GUILD, i, i * 10);
        for r in out.to_act.iter() {
            d.action_issued(GUILD, *r);
        }
    }
    let out = d.on_join(GUILD, 8, 100);
    assert_eq!(out.live_count, 9);
    assert_eq!(out.to_act, vec![rec(8, 100, false)]);
}

#[test]
fn smaller_threshold_and_ban_action() {
    let cfg = RaidConfig { window_ms: 1_000, min_users_join: 2, action: Action::Ban };
    let mut d = RaidDetector::new(cfg);
    assert!(d.on_join(GUILD, 1, 0).to_act.is_empty());
    let out = d.on_join(GUILD, 2, 500);
    assert_eq!(out.to_act.len(), 2);
    assert_eq!(d.config().action, Action::Ban);
    assert!(d.on_join(GUILD, 3, 5_000).to_act.is_empty());
}

#[test]
fn processed_flag_is_never_reset() {
    let mut d = detector();
    for i in 0..8u64 {
        let out = d.on_join(GUILD, i, i);
        for r in out.to_act.iter() {
            d.action_issued(GUILD, *r);
        }
    }
    d.on_removal(GUILD, 3);
    d.on_join(GUILD, 3, 20);
    d.on_removal(GUILD, 3);
    d.action_issued(GUILD, rec(3, 3, false));
    let held = d.records(GUILD);
    assert_eq!(held.len(), 8);
    assert!(held.iter().all(|r| r.action_taken));
}

#[test]
fn marking_sets_only_the_matching_join() {
    let mut w = GuildWindow::new();
    w.record_join(5, 10, 30_000);
    w.record_join(6, 11, 30_000);
    w.record_join(5, 12, 30_000);
    w.mark_processed(5, 12);
    assert_eq!(w.records(), vec![rec(5, 10, false), rec(6, 11, false), rec(5, 12, true)]);
    assert_eq!(w.pending_actionable(), vec![rec(5, 10, false), rec(6, 11, false)]);
}

#[test]
fn removal_of_unknown_user_is_noop() {
    let mut w = GuildWindow::new();
    w.record_join(1, 0, 30_000);
    w.record_join(2, 1, 30_000);
    let before = w.records();
    w.reconcile_removal(77);
    assert_eq!(w.records(), before);
}

#[test]
fn removal_twice_equals_once() {
    let mut w = GuildWindow::new();
    w.record_join(1, 0, 30_000);
    w.record_join(2, 1, 30_000);
    w.record_join(1, 2, 30_000);
    w.reconcile_removal(1);
    let once = w.records();
    assert_eq!(once, vec![rec(2, 1, false)]);
    w.reconcile_removal(1);
    assert_eq!(w.records(), once);
}

#[test]
fn processed_record_survives_removal_but_not_eviction() {
    let mut w = GuildWindow::new();
    w.record_join(1, 0, 30_000);
    w.record_join(2, 0, 30_000);
    w.mark_processed(1, 0);
    w.reconcile_removal(1);
    w.reconcile_removal(2);
    assert_eq!(w.records(), vec![rec(1, 0, true)]);
    assert_eq!(w.record_join(3, 30_001, 30_000), 1);
    assert_eq!(w.records(), vec![rec(3, 30_001, false)]);
}

#[test]
fn guilds_are_isolated() {
    let mut d = detector();
    for i in 0..7u64 {
        d.on_join(GUILD, i, i);
    }
    d.on_join(OTHER_GUILD, 100, 7);
    assert_eq!(d.records(GUILD).len(), 7);
    assert_eq!(d.records(OTHER_GUILD).len(), 1);
    let out = d.on_join(GUILD, 7, 8);
    assert_eq!(out.to_act.len(), 8);
    assert!(out.to_act.iter().all(|r| r.user_id != 100));
    d.on_removal(OTHER_GUILD, 3);
    assert_eq!(d.records(GUILD).len(), 8);
    assert_eq!(d.pending_actionable(OTHER_GUILD), vec![rec(100, 7, false)]);
}

#[test]
fn registry_starts_empty_and_keys_by_guild() {
    let mut st = WatcherState::new();
    assert!(st.records(GUILD).is_empty());
    assert!(st.pending_actionable(GUILD).is_empty());
    assert_eq!(st.record_join(GUILD, 1, 0, 30_000), 1);
    assert_eq!(st.record_join(OTHER_GUILD, 1, 0, 30_000), 1);
    st.mark_processed(GUILD, 1, 0);
    st.reconcile_removal(OTHER_GUILD, 1);
    assert_eq!(st.records(GUILD), vec![rec(1, 0, true)]);
    assert!(st.records(OTHER_GUILD).is_empty());
}
