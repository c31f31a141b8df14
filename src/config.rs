use vstd::prelude::*;

verus! {

/// The punitive action applied to the accounts of a detected raid.
#[derive(Clone, Copy, Debug, PartialEq, Eq, Structural)]
pub enum Action {
    Kick,
    Ban,
}

/// Reason attached to every kick or ban issued by the detector.
pub const RAID_REASON: &'static str = "Suspected bot; performing raid defense";

/// Number of days of message history removed along with a ban.
pub const BAN_DELETE_DAYS: u8 = 7;

/// Default length of the sliding join window, in milliseconds.
pub const DEFAULT_WINDOW_MS: u64 = 30_000;

/// Default number of joins within the window that counts as a raid.
pub const DEFAULT_MIN_USERS_JOIN: usize = 8;

/// Process-wide detection settings.
#[derive(Clone, Copy, Debug, PartialEq, Eq, Structural)]
pub struct RaidConfig {
    /// Joins older than this many milliseconds leave the window.
    pub window_ms: u64,
    /// A join that brings the live count to this value or above triggers action.
    pub min_users_join: usize,
    /// What is done to each pending account once a raid is detected.
    pub action: Action,
}

impl RaidConfig {
    /// The settings the detector runs with unless told otherwise.
    pub fn default_config() -> (r: RaidConfig)
        ensures
            r.window_ms == DEFAULT_WINDOW_MS,
            r.min_users_join == DEFAULT_MIN_USERS_JOIN,
            r.action == Action::Kick,
    {
        RaidConfig { window_ms: DEFAULT_WINDOW_MS, min_users_join: DEFAULT_MIN_USERS_JOIN, action: Action::Kick }
    }
}

} // verus!
