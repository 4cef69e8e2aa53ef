//! Limits and intervals shared by the configuration rules and the polling logic.
use vstd::prelude::*;

verus! {

/// Minimum hardware poll interval (ms): the EC tool takes ~50-100ms per
/// call, so 200ms prevents overlapping calls while keeping the UI responsive.
pub const POLL_RATE_MIN_MS: u32 = 200;

/// Minimum battery charge limit (%); the EC enforces ~25% in hardware.
pub const CHARGE_LIMIT_MIN: u32 = 25;

/// Maximum battery charge limit (%).
pub const CHARGE_LIMIT_MAX: u32 = 100;

/// No user interaction for this long (ms) counts as idle.
pub const IDLE_THRESHOLD_MS: u64 = 10_000;

/// Background poll interval while idle outside curve mode (ms).
pub const IDLE_INTERVAL_MS: u64 = 2_000;

/// UI tick interval while the user is idle (ms).
pub const UI_IDLE_INTERVAL_MS: u64 = 1_000;

/// UI tick interval while the window is hidden in the tray (ms).
pub const UI_HIDDEN_INTERVAL_MS: u64 = 500;

/// Expansion card / PD port scan interval (ms).
pub const EXPANSION_SCAN_MS: u64 = 10_000;

/// Firmware versions refresh interval (ms).
pub const VERSIONS_REFRESH_MS: u64 = 60_000;

/// Consecutive identical PD port samples before a Source port without a PD
/// contract is taken for a USB-A expansion card.
pub const STABLE_THRESHOLD: usize = 2;

} // verus!
