use std::sync::Arc;

use framework_crate::temp_chart::{
    TempSample, ThermalHistory, HISTORY_MAX_MS, HISTORY_PUBLISH_MS, HISTORY_SECONDS,
    HISTORY_WINDOW_OPTIONS,
};

fn sample(ts: i64) -> TempSample {
    TempSample { ts_ms: ts, temps: Arc::new(Vec::new()) }
}

#[test]
fn history_new_is_empty() {
    let h = ThermalHistory::new();
    assert!(h.draft.is_empty());
    assert!(h.published.is_empty());
    assert_eq!(h.last_publish_ms, 0);
}

#[test]
fn push_sample_prunes_expired_entries() {
    let mut h = ThermalHistory::new();
    let now = 100_000i64;
    h.push_sample(sample(now - 100_000), now);
    h.push_sample(sample(now - 20_000), now);
    h.push_sample(sample(now - 10_000), now);
    h.push_sample(sample(now), now);
    assert_eq!(h.draft.len(), 3, "expired entry should be pruned");
    assert_eq!(h.draft.front().unwrap().ts_ms, now - 20_000);
}

#[test]
fn snapshot_publishes_immediately_on_first_call() {
    let mut h = ThermalHistory::new();
    let now = 100_000i64;
    h.push_sample(sample(now), now);
    let snap = h.snapshot(now);
    assert_eq!(snap.len(), 1);
    assert!(Arc::ptr_eq(&snap, &h.published));
}

#[test]
fn snapshot_reuses_arc_within_publish_interval() {
    let mut h = ThermalHistory::new();
    let now = 100_000i64;
    h.push_sample(sample(now), now);
    let snap1 = h.snapshot(now);
    h.push_sample(sample(now + 200), now + 200);
    let snap2 = h.snapshot(now + 900);
    assert!(Arc::ptr_eq(&snap1, &snap2), "no republish within interval");
    assert_eq!(snap2.len(), 1);
}

#[test]
fn snapshot_republishes_after_interval() {
    let mut h = ThermalHistory::new();
    let now = 100_000i64;
    h.push_sample(sample(now), now);
    let snap1 = h.snapshot(now);
    h.push_sample(sample(now + 1_500), now + 1_500);
    let snap2 = h.snapshot(now + 1_500);
    assert!(!Arc::ptr_eq(&snap1, &snap2), "should republish after interval");
    assert_eq!(snap2.len(), 2);
}

// --- Further cases -------------------------------------------------------

#[test]
fn window_constants() {
    assert_eq!(HISTORY_MAX_MS, 60_000);
    assert_eq!(HISTORY_PUBLISH_MS, 1_000);
    assert_eq!(HISTORY_SECONDS, 30);
    assert_eq!(HISTORY_WINDOW_OPTIONS, [15, 30, 60]);
}

#[test]
fn push_sample_cutoff_is_inclusive() {
    let mut h = ThermalHistory::new();
    let now = 200_000i64;
    h.push_sample(sample(now - HISTORY_MAX_MS), now);
    assert!(h.draft.is_empty(), "a sample exactly at the cutoff is dropped");
    h.push_sample(sample(now - HISTORY_MAX_MS + 1), now);
    assert_eq!(h.draft.len(), 1);
}

#[test]
fn push_sample_prunes_only_the_leading_run() {
    let mut h = ThermalHistory::new();
    let now = 100_000i64;
    h.push_sample(sample(now), now);
    // An out-of-order old sample behind a fresh one stays until it reaches the front.
    h.push_sample(sample(0), now);
    let ts: Vec<i64> = h.draft.iter().map(|s| s.ts_ms).collect();
    assert_eq!(ts, vec![now, 0]);
}

#[test]
fn snapshot_at_exact_interval_republishes() {
    let mut h = ThermalHistory::new();
    h.push_sample(sample(5_000), 5_000);
    let snap1 = h.snapshot(5_000);
    h.push_sample(sample(6_000), 6_000);
    let snap2 = h.snapshot(5_000 + HISTORY_PUBLISH_MS);
    assert!(!Arc::ptr_eq(&snap1, &snap2));
    assert_eq!(snap2.len(), 2);
    assert_eq!(h.last_publish_ms, 6_000);
}

#[test]
fn push_does_not_touch_published() {
    let mut h = ThermalHistory::new();
    h.push_sample(sample(1_000), 1_000);
    let snap = h.snapshot(1_000);
    h.push_sample(sample(1_100), 1_100);
    assert_eq!(snap.len(), 1);
    assert_eq!(h.published.len(), 1);
    assert_eq!(h.draft.len(), 2);
}
