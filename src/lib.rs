//! Detection of join raids: per-guild sliding windows of recent joins, a
//! threshold that triggers a kick or ban of every pending joiner, and the
//! bookkeeping that reconciles the windows with removal events.
pub mod config;
pub mod window;
pub mod registry;
pub mod detector;

pub use config::{Action, RaidConfig, BAN_DELETE_DAYS, DEFAULT_MIN_USERS_JOIN, DEFAULT_WINDOW_MS, RAID_REASON};
pub use detector::{JoinOutcome, RaidDetector};
pub use registry::WatcherState;
pub use window::{GuildWindow, JoinRecord};
