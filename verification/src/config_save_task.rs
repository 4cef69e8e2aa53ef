//! Decisions of the background task that persists the configuration and
//! re-applies the battery charge limit when it changes.
use vstd::prelude::*;
use crate::types::{Config, SettingU8};

verus! {

/// Debounce window (ms): a save happens only after this long without a
/// further change, so slider drags do not cause a write per step.
pub const DEBOUNCE_MS: u64 = 100;

/// The part of the configuration that the EC must be told about.
pub fn battery_key(cfg: &Config) -> (k: Option<SettingU8>)
    ensures
        k == cfg.battery.charge_limit_max_pct,
{
    cfg.battery.charge_limit_max_pct
}

/// The maximum charge level to program for a charge-limit setting: its
/// value when enabled, otherwise no limit (100%).
pub fn charge_limit_target(limit: SettingU8) -> (pct: u8)
    ensures
        pct == (if limit.enabled { limit.value } else { 100u8 }),
{
    if limit.enabled {
        limit.value
    } else {
        100
    }
}

/// Whether a saved configuration must be followed by programming the EC:
/// its battery key differs from the last one applied (`None` before the
/// first).
pub fn battery_changed(last: Option<Option<SettingU8>>, cfg: &Config) -> (b: bool)
    ensures
        b == (last != Some(cfg.battery.charge_limit_max_pct)),
{
    let key = battery_key(cfg);
    match last {
        None => true,
        Some(prev) => match (prev, key) {
            (None, None) => false,
            (Some(a), Some(k)) => !(a.enabled == k.enabled && a.value == k.value),
            _ => true,
        },
    }
}

} // verus!
