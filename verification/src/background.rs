//! Decisions of the background polling loop: how long to sleep, when to
//! rescan, when a reading is stored, what a poll does after its temperature
//! read (count failures, recreate the client, the curve-mode fail-safe),
//! how to seed and advance the manual fan ramp, when to re-assert a duty,
//! how to track the fan speed baseline, and how the PD port history and the
//! USB-C markers evolve. The loop itself (sleeping, EC I/O) runs in
//! the application and hands each outcome back to these functions.
use std::collections::VecDeque;
use vstd::prelude::*;
use crate::cli::ec_wrapper::{fans_view, temps_view, FanReading, PowerRole, ThermalData, UsbCPort};
use crate::fan_control::{apply_rate_limit, rate_step, stepper_output, stepper_retargeted, CurveStepper};
use crate::limits::{IDLE_INTERVAL_MS, IDLE_THRESHOLD_MS, POLL_RATE_MIN_MS};
use crate::types::{control_temp, curve_control_temp, FanControlMode, ManualConfig};

verus! {

/// PD port history depth: three samples at the expansion scan interval tell
/// a USB-A card (stable source without contract) from a device that shows
/// the same signature briefly while enumerating.
pub const MAX_PD_HISTORY: usize = 3;

/// Consecutive EC read failures tolerated before the client is recreated.
pub const MAX_EC_IO_FAILURES: u32 = 5;

/// Consecutive EC duty write failures tolerated before the client is recreated.
pub const MAX_EC_WRITE_FAILURES: u32 = 5;

/// A converged duty is written again after this long without a write (ms),
/// which recovers fans that the EC reset during an undetected sleep.
pub const FAN_REASSERT_INTERVAL_MS: u64 = 30_000;

/// In curve mode, fan control is handed back to the firmware at most this
/// often (ms) while temperatures cannot be read.
pub const CURVE_TEMP_FAILOVER_MS: u64 = 30_000;

/// The fan speed baseline is re-based at most this often (ms).
pub const FAN_MAX_RPM_RESET_INTERVAL_MS: u64 = 60_000;

/// Step (percentage points per poll) of the manual-mode ramp.
pub const MANUAL_RAMP_STEP: u32 = 10;

/// Duty given to fans that appear before any manual duty was chosen.
pub const PER_FAN_DEFAULT_DUTY: u32 = 50;

/// Lower bound of a duty estimated from a spinning fan.
pub const ESTIMATE_MIN_DUTY: u32 = 10;

/// CPU power limits are re-read this often (ms) while the user is active.
pub const CPU_POWER_POLL_MS: u64 = 5000;

/// Crashes of the polling task tolerated in a row before giving up.
pub const MAX_CONSECUTIVE_FAILURES: u32 = 10;

/// `now - since`, saturating at 0.
pub open spec fn elapsed(now: u64, since: u64) -> int {
    if now >= since { now - since } else { 0 }
}

/// At least `interval` ms have passed between `since` and `now`.
pub fn elapsed_at_least(now: u64, since: u64, interval: u64) -> (b: bool)
    ensures
        b == (elapsed(now, since) >= interval),
{
    now.saturating_sub(since) >= interval
}

/// The user counts as idle after `IDLE_THRESHOLD_MS` without interaction.
pub fn is_idle(now: u64, last_interaction: u64) -> (b: bool)
    ensures
        b == (elapsed(now, last_interaction) > IDLE_THRESHOLD_MS),
{
    now.saturating_sub(last_interaction) > IDLE_THRESHOLD_MS
}

pub open spec fn at_least(v: u64, lo: u64) -> u64 {
    if v >= lo { v } else { lo }
}

/// How long the loop sleeps before the next poll: the curve interval in
/// curve mode (curves keep reacting while the user is idle), otherwise the
/// idle interval when idle and the poll interval when not; configured
/// intervals never go below the minimum poll rate.
pub fn poll_interval(mode: FanControlMode, curve_poll_ms: u64, poll_ms: u64, idle: bool) -> (ms: u64)
    ensures
        ms == (if mode == FanControlMode::Curve {
            at_least(curve_poll_ms, POLL_RATE_MIN_MS as u64)
        } else if idle {
            IDLE_INTERVAL_MS
        } else {
            at_least(poll_ms, POLL_RATE_MIN_MS as u64)
        }),
{
    let min = POLL_RATE_MIN_MS as u64;
    match mode {
        FanControlMode::Curve => if curve_poll_ms >= min { curve_poll_ms } else { min },
        _ => if idle {
            IDLE_INTERVAL_MS
        } else if poll_ms >= min {
            poll_ms
        } else {
            min
        },
    }
}

// ---------------------------------------------------------------------------
// Fan speed bookkeeping
// ---------------------------------------------------------------------------

/// The highest fan speed among `fans`, `None` without fans.
pub open spec fn max_rpm_of(fans: Seq<FanReading>) -> Option<u32>
    decreases fans.len(),
{
    if fans.len() == 0 {
        None
    } else {
        match max_rpm_of(fans.drop_last()) {
            None => Some(fans.last().rpm),
            Some(m) => Some(if m >= fans.last().rpm { m } else { fans.last().rpm }),
        }
    }
}

pub fn max_fan_rpm(fans: &[FanReading]) -> (r: Option<u32>)
    ensures
        r == max_rpm_of(fans@),
{
    let mut best: Option<u32> = None;
    let mut i: usize = 0;
    while i < fans.len()
        invariant
            i <= fans@.len(),
            best == max_rpm_of(fans@.take(i as int)),
        decreases fans@.len() - i,
    {
        let rpm = fans[i].rpm;
        best = match best {
            None => Some(rpm),
            Some(m) => Some(if m >= rpm { m } else { rpm }),
        };
        i = i + 1;
        assert(fans@.take(i as int).drop_last() =~= fans@.take(i - 1));
    }
    assert(fans@.take(fans@.len() as int) =~= fans@);
    best
}

/// The duty a fan at `rpm` is estimated to run at, given the speed
/// baseline `fan_max_rpm`: 0 for a stopped fan, the minimum when the
/// baseline is unknown, otherwise its share of the baseline in percent,
/// kept within the minimum and 100.
pub open spec fn estimated_duty(rpm: u32, fan_max_rpm: u32) -> u32 {
    if rpm == 0 {
        0
    } else if fan_max_rpm == 0 {
        ESTIMATE_MIN_DUTY
    } else {
        let pct = (rpm as int) * 100 / (fan_max_rpm as int);
        if pct < ESTIMATE_MIN_DUTY { ESTIMATE_MIN_DUTY } else if pct > 100 { 100 } else { pct as u32 }
    }
}

/// The duty the fans are estimated to run at, from the fastest fan (`None`
/// without fans). Seeds the manual ramp so a mode switch does not jump.
pub fn estimate_duty(max_rpm: Option<u32>, fan_max_rpm: u32) -> (d: Option<u32>)
    ensures
        d == match max_rpm {
            None => None,
            Some(rpm) => Some(estimated_duty(rpm, fan_max_rpm)),
        },
        d matches Some(v) ==> v == 0 || (ESTIMATE_MIN_DUTY <= v <= 100),
{
    match max_rpm {
        None => None,
        Some(rpm) => {
            if rpm == 0 {
                Some(0)
            } else if fan_max_rpm == 0 {
                Some(ESTIMATE_MIN_DUTY)
            } else {
                let pct: u64 = (rpm as u64) * 100 / (fan_max_rpm as u64);
                Some(if pct < ESTIMATE_MIN_DUTY as u64 {
                    ESTIMATE_MIN_DUTY
                } else if pct > 100 {
                    100
                } else {
                    pct as u32
                })
            }
        },
    }
}

/// The fan speed baseline and its re-base time after a sample whose fastest
/// fan ran at `sample_max`: the baseline only ever rises; a re-base is
/// recorded once `FAN_MAX_RPM_RESET_INTERVAL_MS` has passed since the last.
pub fn update_fan_max_rpm(prev: u32, last_reset: u64, sample_max: Option<u32>, now: u64) -> (r: (u32, u64))
    ensures
        r == match sample_max {
            None => (prev, last_reset),
            Some(m) => if elapsed(now, last_reset) >= FAN_MAX_RPM_RESET_INTERVAL_MS {
                (if m >= prev { m } else { prev }, now)
            } else {
                (if m > prev { m } else { prev }, last_reset)
            },
        },
        r.0 >= prev,
        sample_max matches Some(m) ==> r.0 >= m,
{
    match sample_max {
        None => (prev, last_reset),
        Some(m) => {
            if now.saturating_sub(last_reset) >= FAN_MAX_RPM_RESET_INTERVAL_MS {
                (if m >= prev { m } else { prev }, now)
            } else if m > prev {
                (m, last_reset)
            } else {
                (prev, last_reset)
            }
        },
    }
}

/// The duty given to fans that appear: the manual duty, else the default.
pub fn per_fan_fill(manual: Option<ManualConfig>) -> (d: u32)
    ensures
        d == match manual {
            Some(m) => m.duty_pct,
            None => PER_FAN_DEFAULT_DUTY,
        },
{
    match manual {
        Some(m) => m.duty_pct,
        None => PER_FAN_DEFAULT_DUTY,
    }
}

/// The per-fan duties fitted to `fan_count` fans (no fans leaves them as
/// they are): extra duties are dropped, new fans get `fill`.
pub open spec fn fitted_duties(duties: Seq<u32>, fan_count: nat, fill: u32) -> Seq<u32> {
    if fan_count == 0 || duties.len() == fan_count {
        duties
    } else if duties.len() < fan_count {
        duties + Seq::new((fan_count - duties.len()) as nat, |_i: int| fill)
    } else {
        duties.take(fan_count as int)
    }
}

/// Fits the per-fan duties to the number of fans seen; returns whether
/// they changed.
pub fn fit_per_fan_duty(duties: &mut Vec<u32>, fan_count: usize, fill: u32) -> (resized: bool)
    ensures
        final(duties)@ == fitted_duties(old(duties)@, fan_count as nat, fill),
        resized == (fan_count != 0 && old(duties)@.len() != fan_count),
{
    if fan_count == 0 || duties.len() == fan_count {
        return false;
    }
    let ghost before = duties@;
    if duties.len() < fan_count {
        duties.resize(fan_count, fill);
        assert(duties@ =~= before + Seq::new((fan_count - before.len()) as nat, |_i: int| fill)) by {
            assert forall|i: int| 0 <= i < duties@.len() implies duties@[i]
                == (before + Seq::new((fan_count - before.len()) as nat, |_i: int| fill))[i] by {
                if i < before.len() {
                    assert(duties@.subrange(0, before.len() as int)[i] == before[i]);
                }
            }
        }
    } else {
        duties.truncate(fan_count);
    }
    true
}

// ---------------------------------------------------------------------------
// Fan duty decisions
// ---------------------------------------------------------------------------

/// The manual ramp's starting point on entering manual mode: the last duty
/// actually written, else the estimate from the fan speeds.
pub fn manual_seed(last_applied: u32, estimate: Option<u32>) -> (s: Option<u32>)
    ensures
        s == if last_applied > 0 { Some(last_applied) } else { estimate },
{
    if last_applied > 0 { Some(last_applied) } else { estimate }
}

/// The ramp's starting point when the loop starts: the duty saved from a
/// previous run, else (in manual mode) the estimate, else none.
pub fn initial_ramp(saved_duty: u32, is_manual: bool, estimate: Option<u32>) -> (s: Option<u32>)
    ensures
        s == if saved_duty > 0 { Some(saved_duty) } else if is_manual { estimate } else { None },
{
    if saved_duty > 0 {
        Some(saved_duty)
    } else if is_manual {
        estimate
    } else {
        None
    }
}

/// The mode taken as "last seen" when the loop starts: none for disabled
/// (so firmware fan control is restored once), else the configured mode.
pub fn initial_last_mode(mode: FanControlMode) -> (m: Option<FanControlMode>)
    ensures
        m == if mode == FanControlMode::Disabled { None } else { Some(mode) },
{
    match mode {
        FanControlMode::Disabled => None,
        _ => Some(mode),
    }
}

/// Whether firmware fan control must be restored in disabled mode: on
/// entering it (or on the first poll).
pub fn restore_firmware_control(last_mode: Option<FanControlMode>) -> (b: bool)
    ensures
        b == (last_mode != Some(FanControlMode::Disabled)),
{
    !matches!(last_mode, Some(FanControlMode::Disabled))
}

/// The largest of `s`, `None` when it is empty.
pub open spec fn seq_max(s: Seq<u32>) -> Option<u32>
    decreases s.len(),
{
    if s.len() == 0 {
        None
    } else {
        match seq_max(s.drop_last()) {
            None => Some(s.last()),
            Some(m) => Some(if m >= s.last() { m } else { s.last() }),
        }
    }
}

fn max_duty(s: &[u32]) -> (r: Option<u32>)
    ensures
        r == seq_max(s@),
{
    let mut best: Option<u32> = None;
    let mut i: usize = 0;
    while i < s.len()
        invariant
            i <= s@.len(),
            best == seq_max(s@.take(i as int)),
        decreases s@.len() - i,
    {
        let v = s[i];
        best = match best {
            None => Some(v),
            Some(m) => Some(if m >= v { m } else { v }),
        };
        i = i + 1;
        assert(s@.take(i as int).drop_last() =~= s@.take(i - 1));
    }
    assert(s@.take(s@.len() as int) =~= s@);
    best
}

/// The fan-control state the loop carries from poll to poll: the mode seen
/// last, the unified and per-fan manual ramps, the last unified manual duty
/// written, and the curve stepper.
pub struct FanRamps {
    pub last_fan_mode: Option<FanControlMode>,
    pub manual_ramp: Option<u32>,
    pub per_fan_ramp: Option<Vec<u32>>,
    pub last_manual_duty: Option<u32>,
    pub stepper: CurveStepper,
}

impl FanRamps {
    /// The state when the loop starts in `mode`, with the duty saved from a
    /// previous run (0 for none) and the duty estimated from the fans.
    pub fn new(mode: FanControlMode, saved_duty: u32, estimate: Option<u32>) -> (r: FanRamps)
        ensures
            r.last_fan_mode == (if mode == FanControlMode::Disabled { None } else { Some(mode) }),
            r.manual_ramp == (if saved_duty > 0 {
                Some(saved_duty)
            } else if mode == FanControlMode::Manual {
                estimate
            } else {
                None
            }),
            r.per_fan_ramp is None,
            r.last_manual_duty is None,
            r.stepper.last_duty == (if saved_duty > 0 { Some(saved_duty) } else { None }),
            r.stepper.active_target is None,
            !r.stepper.anchored,
    {
        let is_manual = match mode {
            FanControlMode::Manual => true,
            _ => false,
        };
        FanRamps {
            last_fan_mode: initial_last_mode(mode),
            manual_ramp: initial_ramp(saved_duty, is_manual, estimate),
            per_fan_ramp: None,
            last_manual_duty: None,
            stepper: if saved_duty > 0 { CurveStepper::with_last_duty(saved_duty) } else { CurveStepper::new() },
        }
    }

    /// Fan control in `mode` begins: on a change of mode the stepper and the
    /// manual ramps start over, the unified ramp from the last duty written
    /// (`last_applied`, 0 for none) or else the estimate in manual mode;
    /// without a change nothing moves.
    pub fn enter_mode(&mut self, mode: FanControlMode, last_applied: u32, estimate: Option<u32>)
        ensures
            old(self).last_fan_mode == Some(mode) ==> final(self).manual_ramp == old(self).manual_ramp
                && final(self).per_fan_ramp == old(self).per_fan_ramp
                && final(self).last_manual_duty == old(self).last_manual_duty
                && final(self).stepper == old(self).stepper,
            old(self).last_fan_mode != Some(mode) ==> {
                &&& final(self).manual_ramp == (if mode == FanControlMode::Manual {
                    if last_applied > 0 { Some(last_applied) } else { estimate }
                } else {
                    None
                })
                &&& final(self).per_fan_ramp is None
                &&& final(self).last_manual_duty is None
                &&& final(self).stepper.last_duty is None
                &&& final(self).stepper.active_target is None
                &&& !final(self).stepper.anchored
                &&& final(self).stepper.transition_start_temp == old(self).stepper.transition_start_temp
            },
            final(self).last_fan_mode == old(self).last_fan_mode,
    {
        let changed = match self.last_fan_mode {
            Some(m) => m != mode,
            None => true,
        };
        if changed {
            self.stepper.reset();
            self.last_manual_duty = None;
            self.per_fan_ramp = None;
            self.manual_ramp = match mode {
                FanControlMode::Manual => manual_seed(last_applied, estimate),
                _ => None,
            };
        }
    }

    /// A resume from sleep was seen: the firmware took fan control back, so
    /// every ramp starts over and the mode is treated as newly entered.
    pub fn on_resume(&mut self)
        ensures
            final(self).last_fan_mode is None,
            final(self).manual_ramp is None,
            final(self).per_fan_ramp is None,
            final(self).last_manual_duty is None,
            final(self).stepper.last_duty is None,
            final(self).stepper.active_target is None,
            !final(self).stepper.anchored,
            final(self).stepper.transition_start_temp == old(self).stepper.transition_start_temp,
    {
        self.stepper.reset();
        self.last_manual_duty = None;
        self.manual_ramp = None;
        self.per_fan_ramp = None;
        self.last_fan_mode = None;
    }

    /// The unified manual ramp after a step to `next` (see `manual_step`):
    /// when no write was needed, or the write succeeded, the ramp moves to
    /// `next` (and a successful write records it as the last duty written);
    /// after a failed write both stay as they were.
    pub fn manual_outcome(&mut self, next: u32, write_needed: bool, written: bool)
        ensures
            final(self).manual_ramp == (if !write_needed || written { Some(next) } else { old(self).manual_ramp }),
            final(self).last_manual_duty == (if write_needed && written {
                Some(next)
            } else {
                old(self).last_manual_duty
            }),
            final(self).per_fan_ramp == old(self).per_fan_ramp,
            final(self).last_fan_mode == old(self).last_fan_mode,
            final(self).stepper == old(self).stepper,
    {
        if !write_needed || written {
            self.manual_ramp = Some(next);
        }
        if write_needed && written {
            self.last_manual_duty = Some(next);
        }
    }

    /// The per-fan ramps for `fan_count` fans: kept when there are some,
    /// else every fan starts at `seed`.
    pub fn ensure_per_fan_ramp(&mut self, seed: u32, fan_count: usize)
        ensures
            old(self).per_fan_ramp is Some ==> final(self).per_fan_ramp == old(self).per_fan_ramp,
            old(self).per_fan_ramp is None ==> (final(self).per_fan_ramp matches Some(r) && r@ == Seq::new(
                fan_count as nat,
                |_i: int| seed,
            )),
            final(self).manual_ramp == old(self).manual_ramp,
            final(self).last_manual_duty == old(self).last_manual_duty,
            final(self).last_fan_mode == old(self).last_fan_mode,
            final(self).stepper == old(self).stepper,
    {
        if self.per_fan_ramp.is_none() {
            let mut r: Vec<u32> = Vec::new();
            let mut i: usize = 0;
            while i < fan_count
                invariant
                    i <= fan_count,
                    r@ == Seq::new(i as nat, |_i: int| seed),
                decreases fan_count - i,
            {
                r.push(seed);
                i = i + 1;
                assert(r@ =~= Seq::new(i as nat, |_i: int| seed));
            }
            self.per_fan_ramp = Some(r);
        }
    }

    /// Fan `idx` was written `duty`: its ramp moves there (a failed write
    /// leaves the ramps alone, so this is called only on success).
    pub fn per_fan_written(&mut self, idx: usize, duty: u32)
        ensures
            match (old(self).per_fan_ramp, final(self).per_fan_ramp) {
                (Some(a), Some(b)) => b@ == (if idx < a@.len() { a@.update(idx as int, duty) } else { a@ }),
                (None, None) => true,
                _ => false,
            },
            final(self).manual_ramp == old(self).manual_ramp,
            final(self).last_manual_duty == old(self).last_manual_duty,
            final(self).last_fan_mode == old(self).last_fan_mode,
            final(self).stepper == old(self).stepper,
    {
        if let Some(r) = &mut self.per_fan_ramp {
            if idx < r.len() {
                r.set(idx, duty);
            }
        }
    }

    /// After a round of per-fan writes: the unified ramp follows the highest
    /// per-fan duty, and when some write succeeded that duty (0 without
    /// fans) is the one to record as last applied.
    pub fn per_fan_done(&mut self, wrote_any: bool) -> (last_applied: Option<u32>)
        ensures
            final(self).manual_ramp == match old(self).per_fan_ramp {
                Some(r) => seq_max(r@),
                None => old(self).manual_ramp,
            },
            last_applied == (if wrote_any && old(self).per_fan_ramp is Some {
                Some(match seq_max(old(self).per_fan_ramp->0@) { Some(m) => m, None => 0u32 })
            } else {
                None
            }),
            final(self).per_fan_ramp == old(self).per_fan_ramp,
            final(self).last_manual_duty == old(self).last_manual_duty,
            final(self).last_fan_mode == old(self).last_fan_mode,
            final(self).stepper == old(self).stepper,
    {
        match &self.per_fan_ramp {
            Some(r) => {
                let m = max_duty(r.as_slice());
                self.manual_ramp = m;
                if wrote_any {
                    Some(match m { Some(v) => v, None => 0 })
                } else {
                    None
                }
            },
            None => None,
        }
    }

    /// Curve-mode control for one poll: the control temperature from the
    /// readings and the configured sensors drives the stepper along the full
    /// curve; the duty to write is the stepper's new duty, or its current one
    /// again when it has none and no write happened for
    /// `FAN_REASSERT_INTERVAL_MS`. The stepper's applied duty moves only
    /// when the application reports a write (`CurveStepper::note_applied`).
    pub fn curve_duty_to_write(
        &mut self,
        temps: &[(String, i32)],
        sensors: &[String],
        hysteresis_c: u32,
        rate_limit_up: u32,
        rate_limit_down: Option<u32>,
        full_points: &[[u32; 2]],
        now: u64,
        last_write_ms: u64,
    ) -> (d: Option<u32>)
        ensures
            ({
                let t = control_temp(temps@, sensors@) as i32;
                let stepped = stepper_output(old(self).stepper, t, hysteresis_c, rate_limit_up, rate_limit_down, full_points@);
                &&& final(self).stepper == stepper_retargeted(old(self).stepper, t, hysteresis_c, full_points@)
                &&& d == (if stepped is None && elapsed(now, last_write_ms) >= FAN_REASSERT_INTERVAL_MS {
                    old(self).stepper.last_duty
                } else {
                    stepped
                })
            }),
            final(self).last_fan_mode == old(self).last_fan_mode,
            final(self).manual_ramp == old(self).manual_ramp,
            final(self).per_fan_ramp == old(self).per_fan_ramp,
            final(self).last_manual_duty == old(self).last_manual_duty,
    {
        let t = curve_control_temp(temps, sensors);
        let stepped = self.stepper.next(t, hysteresis_c, rate_limit_up, rate_limit_down, full_points);
        let current = self.stepper.current_duty();
        curve_write_duty(stepped, current, now, last_write_ms)
    }
}

/// One step of the unified manual ramp toward `target`, from the current
/// ramp value (the target itself when there is none). Returns the next
/// duty and whether to write it: always when it differs from the last
/// written duty, and after `FAN_REASSERT_INTERVAL_MS` without a write even
/// when it does not.
pub fn manual_step(current: Option<u32>, target: u32, last_written: Option<u32>, now: u64, last_write_ms: u64) -> (r: (u32, bool))
    ensures
        r.0 == rate_step(
            match current { Some(c) => c as int, None => target as int },
            target as int,
            MANUAL_RAMP_STEP as int,
        ),
        r.1 == (last_written != Some(r.0) || elapsed(now, last_write_ms) >= FAN_REASSERT_INTERVAL_MS),
{
    let from = match current {
        Some(c) => c,
        None => target,
    };
    let next = apply_rate_limit(from, target, MANUAL_RAMP_STEP);
    let converged = match last_written {
        Some(l) => l == next,
        None => false,
    };
    let reassert = converged && now.saturating_sub(last_write_ms) >= FAN_REASSERT_INTERVAL_MS;
    (next, !converged || reassert)
}

/// The starting point of the per-fan ramps: the last duty written, else
/// the estimate, else the first fan's target.
pub fn per_fan_seed(last_applied: u32, estimate: Option<u32>, first_target: u32) -> (s: u32)
    ensures
        s == if last_applied > 0 {
            last_applied
        } else {
            match estimate { Some(e) => e, None => first_target }
        },
{
    if last_applied > 0 {
        last_applied
    } else {
        match estimate {
            Some(e) => e,
            None => first_target,
        }
    }
}

/// One step of a single fan's ramp toward `target`: the duty to write, or
/// `None` when the ramp has converged and neither a resume nor a periodic
/// re-assert asks for a write.
pub fn per_fan_step(current: u32, target: u32, just_resumed: bool, reassert: bool) -> (r: Option<u32>)
    ensures
        ({
            let next = rate_step(current as int, target as int, MANUAL_RAMP_STEP as int);
            r == if next == current && !just_resumed && !reassert { None } else { Some(next as u32) }
        }),
{
    let next = apply_rate_limit(current, target, MANUAL_RAMP_STEP);
    if next == current && !just_resumed && !reassert {
        None
    } else {
        Some(next)
    }
}

/// The duty to write in curve mode: the stepper's new duty, or, when it
/// has none and no write happened for `FAN_REASSERT_INTERVAL_MS`, its
/// current duty again.
pub fn curve_write_duty(stepped: Option<u32>, current: Option<u32>, now: u64, last_write_ms: u64) -> (d: Option<u32>)
    ensures
        d == if stepped is None && elapsed(now, last_write_ms) >= FAN_REASSERT_INTERVAL_MS { current } else { stepped },
{
    if stepped.is_none() && now.saturating_sub(last_write_ms) >= FAN_REASSERT_INTERVAL_MS {
        current
    } else {
        stepped
    }
}

/// One more consecutive failure: the new count (saturating) and whether it
/// reached `limit`, which calls for recreating the EC client.
pub fn count_failure(failures: u32, limit: u32) -> (r: (u32, bool))
    ensures
        r.0 == if failures < u32::MAX { failures + 1 } else { failures as int },
        r.1 == (r.0 >= limit),
{
    let n = failures.saturating_add(1);
    (n, n >= limit)
}

/// A switch from AC to battery calls for resetting the power limits.
pub fn pl_reset_needed(ac_was: bool, ac_now: bool) -> (b: bool)
    ensures
        b == (ac_was && !ac_now),
{
    ac_was && !ac_now
}

// ---------------------------------------------------------------------------
// Recording a thermal reading
// ---------------------------------------------------------------------------

fn same_temps(a: &[(String, i32)], b: &[(String, i32)]) -> (r: bool)
    ensures
        r == (temps_view(a@) == temps_view(b@)),
{
    if a.len() != b.len() {
        assert(temps_view(a@).len() != temps_view(b@).len());
        return false;
    }
    let mut i: usize = 0;
    while i < a.len()
        invariant
            i <= a@.len(),
            a@.len() == b@.len(),
            forall|j: int| 0 <= j < i ==> #[trigger] temps_view(a@)[j] == temps_view(b@)[j],
        decreases a@.len() - i,
    {
        if a[i].0 != b[i].0 || a[i].1 != b[i].1 {
            assert(temps_view(a@)[i as int] != temps_view(b@)[i as int]);
            return false;
        }
        i = i + 1;
    }
    assert(temps_view(a@) =~= temps_view(b@));
    true
}

fn same_fans(a: &[FanReading], b: &[FanReading]) -> (r: bool)
    ensures
        r == (fans_view(a@) == fans_view(b@)),
{
    if a.len() != b.len() {
        assert(fans_view(a@).len() != fans_view(b@).len());
        return false;
    }
    let mut i: usize = 0;
    while i < a.len()
        invariant
            i <= a@.len(),
            a@.len() == b@.len(),
            forall|j: int| 0 <= j < i ==> #[trigger] fans_view(a@)[j] == fans_view(b@)[j],
        decreases a@.len() - i,
    {
        if a[i].name != b[i].name || a[i].rpm != b[i].rpm {
            assert(fans_view(a@)[i as int] != fans_view(b@)[i as int]);
            return false;
        }
        i = i + 1;
    }
    assert(fans_view(a@) =~= fans_view(b@));
    true
}

/// Whether reading `t` differs from the held one `cur` and must be stored:
/// always when none is held, else when a temperature or a fan (name or
/// speed) differs, so fan speed changes at flat temperatures are kept too.
pub fn thermal_changed(cur: &Option<ThermalData>, t: &ThermalData) -> (b: bool)
    ensures
        b == match cur {
            None => true,
            Some(c) => temps_view(c.temps@) != temps_view(t.temps@) || fans_view(c.fans@) != fans_view(t.fans@),
        },
{
    match cur {
        None => true,
        Some(c) => {
            let ct: &Vec<(String, i32)> = &c.temps;
            let tt: &Vec<(String, i32)> = &t.temps;
            !same_temps(ct.as_slice(), tt.as_slice()) || !same_fans(c.fans.as_slice(), t.fans.as_slice())
        },
    }
}

// ---------------------------------------------------------------------------
// The poll step: read failures and the curve-mode fail-safe
// ---------------------------------------------------------------------------

/// `failures + 1`, saturating.
pub open spec fn bumped(failures: u32) -> u32 {
    if failures < u32::MAX { (failures + 1) as u32 } else { failures }
}

/// The curve-mode fail-safe on a poll whose temperatures are empty, given
/// the time of the last hand-over to the firmware and the consecutive read
/// failures so far: (hand fan control to the firmware now, the new failure
/// count, recreate the EC client). Empty temperatures count as one more
/// failure; at `MAX_EC_IO_FAILURES` the client is recreated; otherwise
/// control goes to the firmware once `CURVE_TEMP_FAILOVER_MS` have passed
/// since the last hand-over.
pub open spec fn failsafe(now: u64, last_failover: u64, failures: u32) -> (bool, u32, bool) {
    let n = bumped(failures);
    let reset = n >= MAX_EC_IO_FAILURES;
    (!reset && elapsed(now, last_failover) >= CURVE_TEMP_FAILOVER_MS, n, reset)
}

pub fn curve_failsafe(now: u64, last_failover: u64, failures: u32) -> (r: (bool, u32, bool))
    ensures
        r == failsafe(now, last_failover, failures),
{
    let n = failures.saturating_add(1);
    let reset = n >= MAX_EC_IO_FAILURES;
    (!reset && now.saturating_sub(last_failover) >= CURVE_TEMP_FAILOVER_MS, n, reset)
}

/// What the polling loop keeps between polls for its fail-safes.
#[derive(Clone, Copy, Debug, PartialEq, Eq, Structural)]
pub struct PollDecisions {
    /// Consecutive failed (or empty) temperature reads.
    pub read_failures: u32,
    /// When fan control was last handed to the firmware by the curve
    /// fail-safe (ms, monotonic).
    pub last_curve_failover_ms: u64,
}

/// What a poll learned before fan control.
#[derive(Clone, Copy, Debug, PartialEq, Eq, Structural)]
pub struct PollEvent {
    /// The selected fan mode.
    pub mode: FanControlMode,
    /// A fan curve is configured.
    pub curve_configured: bool,
    /// This poll's temperature read succeeded.
    pub read_ok: bool,
    /// The thermal data held after this poll (`None` when there is none),
    /// as whether its temperatures are empty.
    pub held_temps_empty: Option<bool>,
    /// Now (ms, monotonic).
    pub now: u64,
}

/// What the loop does next.
#[derive(Clone, Copy, Debug, PartialEq, Eq, Structural)]
pub enum PollAction {
    /// Drop the EC client, pause, and start the next poll (a new client is
    /// opened then).
    ResetEc,
    /// Hand fan control to the firmware (report the outcome with
    /// `note_failover`), then start the next poll.
    HandToFirmware,
    /// Write no duty this poll.
    SkipFanControl,
    /// Go on with the selected mode's fan control.
    ControlFans,
}

/// The poll step: a failed read counts a failure and recreates the client
/// at `MAX_EC_IO_FAILURES`; a good read clears the count. In curve mode with
/// a curve and held thermal data whose temperatures are empty, no duty is
/// written (a 0 °C control temperature would stop the fans): the fail-safe
/// decides between recreating the client, handing control to the firmware
/// and doing nothing. Otherwise the mode's fan control runs.
pub open spec fn poll_next(s: PollDecisions, ev: PollEvent) -> (PollDecisions, PollAction) {
    let f0 = if ev.read_ok { 0u32 } else { bumped(s.read_failures) };
    if !ev.read_ok && f0 >= MAX_EC_IO_FAILURES {
        (PollDecisions { read_failures: f0, ..s }, PollAction::ResetEc)
    } else if ev.mode == FanControlMode::Curve && ev.curve_configured && ev.held_temps_empty == Some(true) {
        let r = failsafe(ev.now, s.last_curve_failover_ms, f0);
        (
            PollDecisions { read_failures: r.1, ..s },
            if r.2 {
                PollAction::ResetEc
            } else if r.0 {
                PollAction::HandToFirmware
            } else {
                PollAction::SkipFanControl
            },
        )
    } else {
        (PollDecisions { read_failures: f0, ..s }, PollAction::ControlFans)
    }
}

/// The state after fan control was handed to the firmware at `now`.
pub open spec fn handed_over(s: PollDecisions, now: u64) -> PollDecisions {
    PollDecisions { read_failures: 0, last_curve_failover_ms: now }
}

impl PollDecisions {
    /// The state when the loop starts.
    pub fn new() -> (s: PollDecisions)
        ensures
            s == (PollDecisions { read_failures: 0, last_curve_failover_ms: 0 }),
    {
        PollDecisions { read_failures: 0, last_curve_failover_ms: 0 }
    }
}

pub fn poll_step(s: &mut PollDecisions, ev: PollEvent) -> (a: PollAction)
    ensures
        (*final(s), a) == poll_next(*old(s), ev),
{
    let f0: u32 = if ev.read_ok { 0 } else { s.read_failures.saturating_add(1) };
    if !ev.read_ok && f0 >= MAX_EC_IO_FAILURES {
        s.read_failures = f0;
        return PollAction::ResetEc;
    }
    let failsafe_due = match ev.mode {
        FanControlMode::Curve => ev.curve_configured && matches!(ev.held_temps_empty, Some(true)),
        _ => false,
    };
    if failsafe_due {
        let (handover, n, reset) = curve_failsafe(ev.now, s.last_curve_failover_ms, f0);
        s.read_failures = n;
        if reset {
            PollAction::ResetEc
        } else if handover {
            PollAction::HandToFirmware
        } else {
            PollAction::SkipFanControl
        }
    } else {
        s.read_failures = f0;
        PollAction::ControlFans
    }
}

/// Records a successful hand-over of fan control to the firmware at `now`:
/// the next one waits `CURVE_TEMP_FAILOVER_MS`, and the failure count
/// starts again.
pub fn note_failover(s: &mut PollDecisions, now: u64)
    ensures
        *final(s) == handed_over(*old(s), now),
{
    s.last_curve_failover_ms = now;
    s.read_failures = 0;
}

/// Law: the client is recreated exactly when the failure count reaches
/// `MAX_EC_IO_FAILURES`; after any other step the count stays below it.
pub proof fn lemma_reset_iff_limit(s: PollDecisions, ev: PollEvent)
    ensures
        (poll_next(s, ev).1 == PollAction::ResetEc) == (poll_next(s, ev).0.read_failures >= MAX_EC_IO_FAILURES),
{
}

/// Law: in curve mode with a curve, empty temperatures never lead to a
/// duty write.
pub proof fn lemma_no_write_on_empty_temps(s: PollDecisions, ev: PollEvent)
    requires
        ev.mode == FanControlMode::Curve,
        ev.curve_configured,
        ev.held_temps_empty == Some(true),
    ensures
        poll_next(s, ev).1 != PollAction::ControlFans,
{
}

/// Law: fan control is handed to the firmware at most once per
/// `CURVE_TEMP_FAILOVER_MS`: a poll only hands over once that long has
/// passed since the last hand-over, no step moves the hand-over time, and
/// after a hand-over at `t` no poll before `t + CURVE_TEMP_FAILOVER_MS`
/// hands over again.
pub proof fn lemma_failover_throttled(s: PollDecisions, ev: PollEvent, t: u64)
    ensures
        poll_next(s, ev).1 == PollAction::HandToFirmware ==> elapsed(ev.now, s.last_curve_failover_ms)
            >= CURVE_TEMP_FAILOVER_MS,
        poll_next(s, ev).0.last_curve_failover_ms == s.last_curve_failover_ms,
        t <= ev.now < t + CURVE_TEMP_FAILOVER_MS ==> poll_next(handed_over(s, t), ev).1
            != PollAction::HandToFirmware,
{
}

/// Law: a good read outside the fail-safe clears the failure count.
pub proof fn lemma_good_read_clears(s: PollDecisions, ev: PollEvent)
    requires
        ev.read_ok,
        poll_next(s, ev).1 == PollAction::ControlFans,
    ensures
        poll_next(s, ev).0.read_failures == 0,
{
}

// ---------------------------------------------------------------------------
// PD port history and USB-C markers
// ---------------------------------------------------------------------------

/// The history after recording `sample`: appended, the oldest dropped when
/// it grows past `MAX_PD_HISTORY`.
pub open spec fn pushed_history(h: Seq<Vec<UsbCPort>>, sample: Vec<UsbCPort>) -> Seq<Vec<UsbCPort>> {
    if h.len() + 1 > MAX_PD_HISTORY { h.push(sample).drop_first() } else { h.push(sample) }
}

pub fn push_pd_ports_history(history: &mut VecDeque<Vec<UsbCPort>>, sample: Vec<UsbCPort>)
    ensures
        final(history)@ == pushed_history(old(history)@, sample),
{
    history.push_back(sample);
    if history.len() > MAX_PD_HISTORY {
        let ghost prev = history@;
        let _ = history.pop_front();
        assert(history@ =~= prev.drop_first());
    }
}

/// Law: a history of at most `MAX_PD_HISTORY` samples stays so, and its
/// newest sample is the one just recorded.
pub proof fn lemma_history_bounded(h: Seq<Vec<UsbCPort>>, sample: Vec<UsbCPort>)
    requires
        h.len() <= MAX_PD_HISTORY,
    ensures
        pushed_history(h, sample).len() <= MAX_PD_HISTORY,
        pushed_history(h, sample).last() == sample,
{
}

/// Some port of `ports` reports port number `i` as a sink.
pub open spec fn sink_at(ports: Seq<UsbCPort>, i: int) -> bool {
    exists|j: int| 0 <= j < ports.len() && #[trigger] ports[j].port == i && ports[j].power_role == Some(PowerRole::Sink)
}

pub open spec fn any_sink(ports: Seq<UsbCPort>) -> bool {
    exists|j: int| 0 <= j < ports.len() && #[trigger] ports[j].power_role == Some(PowerRole::Sink)
}

/// The number of marker slots `ports` needs: one past the highest port.
pub open spec fn slots_needed(ports: Seq<UsbCPort>) -> nat
    decreases ports.len(),
{
    if ports.len() == 0 {
        0
    } else {
        let rest = slots_needed(ports.drop_last());
        let here = ports.last().port as nat + 1;
        if rest >= here { rest } else { here }
    }
}

/// The USB-C markers after a PD scan: unchanged without any sink; else
/// grown to cover every reported port and set for each port that sinks.
/// Only USB-C ports can sink, so a marker is never cleared.
pub open spec fn marked(seen: Seq<bool>, ports: Seq<UsbCPort>) -> Seq<bool> {
    if !any_sink(ports) {
        seen
    } else {
        let len = if seen.len() >= slots_needed(ports) { seen.len() } else { slots_needed(ports) };
        Seq::new(len, |i: int| (i < seen.len() && seen[i]) || sink_at(ports, i))
    }
}

proof fn lemma_slots_needed(ports: Seq<UsbCPort>)
    ensures
        forall|j: int| 0 <= j < ports.len() ==> (#[trigger] ports[j]).port < slots_needed(ports),
    decreases ports.len(),
{
    if ports.len() > 0 {
        lemma_slots_needed(ports.drop_last());
        assert forall|j: int| 0 <= j < ports.len() implies (#[trigger] ports[j]).port < slots_needed(ports) by {
            if j < ports.len() - 1 {
                assert(ports.drop_last()[j] == ports[j]);
            }
        }
    }
}

pub fn mark_pd_usb_c_seen(seen: &mut Vec<bool>, ports: &[UsbCPort])
    requires
        forall|j: int| 0 <= j < ports@.len() ==> (#[trigger] ports@[j]).port < u32::MAX,
    ensures
        final(seen)@ == marked(old(seen)@, ports@),
{
    let mut need: usize = 0;
    let mut has_sink = false;
    let mut i: usize = 0;
    while i < ports.len()
        invariant
            i <= ports@.len(),
            forall|j: int| 0 <= j < ports@.len() ==> (#[trigger] ports@[j]).port < u32::MAX,
            need == slots_needed(ports@.take(i as int)),
            has_sink == any_sink(ports@.take(i as int)),
        decreases ports@.len() - i,
    {
        let p = ports[i];
        let here = p.port as usize + 1;
        if here > need {
            need = here;
        }
        if p.power_role == Some(PowerRole::Sink) {
            has_sink = true;
        }
        i = i + 1;
        let ghost t = ports@.take(i as int);
        assert(t.drop_last() =~= ports@.take(i - 1));
        assert(has_sink == any_sink(t)) by {
            if has_sink && !(p.power_role == Some(PowerRole::Sink)) {
                let j = choose|j: int| 0 <= j < ports@.take(i - 1).len()
                    && #[trigger] ports@.take(i - 1)[j].power_role == Some(PowerRole::Sink);
                assert(t[j] == ports@.take(i - 1)[j]);
            }
            if any_sink(t) && !(p.power_role == Some(PowerRole::Sink)) {
                let j = choose|j: int| 0 <= j < t.len() && #[trigger] t[j].power_role == Some(PowerRole::Sink);
                assert(j < i - 1);
                assert(ports@.take(i - 1)[j] == t[j]);
            }
            if p.power_role == Some(PowerRole::Sink) {
                assert(t[i - 1] == p);
            }
        }
    }
    assert(ports@.take(ports@.len() as int) =~= ports@);
    if !has_sink {
        return;
    }
    let ghost old_seen = seen@;
    if seen.len() < need {
        seen.resize(need, false);
    }
    let ghost grown = seen@;
    assert(forall|k: int| 0 <= k < grown.len() ==> grown[k] == (k < old_seen.len() && old_seen[k])) by {
        assert forall|k: int| 0 <= k < grown.len() implies grown[k] == (k < old_seen.len() && old_seen[k]) by {
            if k < old_seen.len() && grown.len() > old_seen.len() {
                assert(grown.subrange(0, old_seen.len() as int)[k] == old_seen[k]);
            }
        }
    }
    proof {
        lemma_slots_needed(ports@);
    }
    let mut k: usize = 0;
    while k < ports.len()
        invariant
            k <= ports@.len(),
            seen@.len() == grown.len(),
            grown.len() >= need,
            need == slots_needed(ports@),
            forall|j: int| 0 <= j < ports@.len() ==> (#[trigger] ports@[j]).port < slots_needed(ports@),
            forall|x: int| 0 <= x < grown.len() ==> grown[x] == (x < old_seen.len() && old_seen[x]),
            forall|x: int| 0 <= x < seen@.len() ==> #[trigger] seen@[x] == (grown[x] || sink_at(ports@.take(k as int), x)),
        decreases ports@.len() - k,
    {
        let p = ports[k];
        let ghost before = seen@;
        if p.power_role == Some(PowerRole::Sink) {
            seen.set(p.port as usize, true);
        }
        k = k + 1;
        let ghost t = ports@.take(k as int);
        assert forall|x: int| 0 <= x < seen@.len() implies #[trigger] seen@[x] == (grown[x] || sink_at(t, x)) by {
            if sink_at(ports@.take(k - 1), x) {
                let j = choose|j: int| 0 <= j < ports@.take(k - 1).len() && #[trigger] ports@.take(k - 1)[j].port == x
                    && ports@.take(k - 1)[j].power_role == Some(PowerRole::Sink);
                assert(t[j] == ports@.take(k - 1)[j]);
            }
            if sink_at(t, x) && !sink_at(ports@.take(k - 1), x) {
                let j = choose|j: int| 0 <= j < t.len() && #[trigger] t[j].port == x && t[j].power_role == Some(PowerRole::Sink);
                if j < k - 1 {
                    assert(ports@.take(k - 1)[j] == t[j]);
                }
                assert(j == k - 1);
            }
            if p.power_role == Some(PowerRole::Sink) && x == p.port {
                assert(t[k - 1] == p);
            }
        }
    }
    assert(ports@.take(ports@.len() as int) =~= ports@);
    assert(seen@ =~= marked(old_seen, ports@));
}

/// Law: a USB-C marker, once set, stays set.
pub proof fn lemma_marks_persist(seen: Seq<bool>, ports: Seq<UsbCPort>, i: int)
    requires
        0 <= i < seen.len(),
        seen[i],
    ensures
        i < marked(seen, ports).len(),
        marked(seen, ports)[i],
{
}

} // verus!
