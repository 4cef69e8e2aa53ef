//! How the settings the user changes in the interface update the
//! configuration: each change clamps its value to the allowed range and
//! touches only the part of the configuration it is about.
use vstd::prelude::*;
use crate::limits::{CHARGE_LIMIT_MAX, CHARGE_LIMIT_MIN, POLL_RATE_MIN_MS};
use crate::types::{
    clamp_int, Config, FanControlMode, GlobalCurveConfig, ManualConfig, SettingU8, UI_REFRESH_MS_MAX,
    UI_REFRESH_MS_MIN,
};

verus! {

/// Lowest duty the manual and quit duty sliders accept (%).
pub const SLIDER_DUTY_MIN: u32 = 10;

/// Highest duty (%).
pub const SLIDER_DUTY_MAX: u32 = 100;

/// Temperature range (°C) a curve point can be dragged to.
pub const CURVE_EDIT_TEMP_MIN: u32 = 1;
pub const CURVE_EDIT_TEMP_MAX: u32 = 99;

fn clamp(v: u32, lo: u32, hi: u32) -> (r: u32)
    requires
        lo <= hi,
    ensures
        r == clamp_int(v as int, lo as int, hi as int),
{
    if v < lo { lo } else if v > hi { hi } else { v }
}

/// Everything but the fan settings is unchanged.
pub open spec fn same_except_fan(a: &Config, b: &Config) -> bool {
    a.battery == b.battery && a.telemetry == b.telemetry
}

/// The duty chosen on the manual or quit slider, kept within the slider range.
pub fn slider_duty(duty: u32) -> (d: u32)
    ensures
        d == clamp_int(duty as int, SLIDER_DUTY_MIN as int, SLIDER_DUTY_MAX as int),
{
    clamp(duty, SLIDER_DUTY_MIN, SLIDER_DUTY_MAX)
}

/// Selects a fan mode; choosing the curve without curve settings creates
/// the default ones.
pub fn set_fan_mode(cfg: &mut Config, mode: FanControlMode)
    ensures
        final(cfg).fan.mode == mode,
        !(mode == FanControlMode::Curve && old(cfg).fan.curve is None) ==> final(cfg).fan.curve == old(cfg).fan.curve,
        mode == FanControlMode::Curve && old(cfg).fan.curve is None ==> (final(cfg).fan.curve matches Some(g) && {
            &&& g.curve.sensors@.len() == 0
            &&& g.curve.points@.len() == 0
            &&& g.curve.hysteresis_c == 0
            &&& g.curve.rate_limit_pct_per_step == 0
            &&& g.curve.rate_limit_down_pct_per_step is None
            &&& g.poll_ms == 0
        }),
        final(cfg).fan.manual == old(cfg).fan.manual,
        final(cfg).fan.unified_duty == old(cfg).fan.unified_duty,
        final(cfg).fan.per_fan_duty@ == old(cfg).fan.per_fan_duty@,
        same_except_fan(old(cfg), final(cfg)),
{
    if matches!(mode, FanControlMode::Curve) && cfg.fan.curve.is_none() {
        cfg.fan.curve = Some(GlobalCurveConfig::default());
    }
    cfg.fan.mode = mode;
}

/// Sets the manual duty (kept within the slider range) and returns it.
pub fn set_manual_duty(cfg: &mut Config, duty: u32) -> (d: u32)
    ensures
        d == clamp_int(duty as int, SLIDER_DUTY_MIN as int, SLIDER_DUTY_MAX as int),
        final(cfg).fan.manual == Some(ManualConfig { duty_pct: d }),
        final(cfg).fan.mode == old(cfg).fan.mode,
        final(cfg).fan.curve == old(cfg).fan.curve,
        final(cfg).fan.unified_duty == old(cfg).fan.unified_duty,
        final(cfg).fan.per_fan_duty@ == old(cfg).fan.per_fan_duty@,
        same_except_fan(old(cfg), final(cfg)),
{
    let d = slider_duty(duty);
    cfg.fan.manual = Some(ManualConfig { duty_pct: d });
    d
}

/// Chooses between one duty for all fans and a duty per fan.
pub fn set_unified_duty(cfg: &mut Config, unified: bool)
    ensures
        final(cfg).fan.unified_duty == unified,
        final(cfg).fan.mode == old(cfg).fan.mode,
        final(cfg).fan.manual == old(cfg).fan.manual,
        final(cfg).fan.curve == old(cfg).fan.curve,
        final(cfg).fan.per_fan_duty@ == old(cfg).fan.per_fan_duty@,
        same_except_fan(old(cfg), final(cfg)),
{
    cfg.fan.unified_duty = unified;
}

/// Sets the duty of fan `idx` (0..=100); an index past the known fans
/// changes nothing.
pub fn set_per_fan_duty(duties: &mut Vec<u32>, idx: usize, duty: u32)
    ensures
        final(duties)@ == if idx < old(duties)@.len() {
            old(duties)@.update(idx as int, clamp_int(duty as int, 0, SLIDER_DUTY_MAX as int) as u32)
        } else {
            old(duties)@
        },
{
    let d = clamp(duty, 0, SLIDER_DUTY_MAX);
    if idx < duties.len() {
        duties.set(idx, d);
    }
}

/// Moves curve point `idx` to (temp, duty), kept within the editor's range;
/// without curve settings or such a point nothing changes.
pub fn move_curve_point(cfg: &mut Config, idx: usize, temp: u32, duty: u32)
    ensures
        ({
            let p: [u32; 2] = [
                clamp_int(temp as int, CURVE_EDIT_TEMP_MIN as int, CURVE_EDIT_TEMP_MAX as int) as u32,
                clamp_int(duty as int, 0, SLIDER_DUTY_MAX as int) as u32,
            ];
            match (old(cfg).fan.curve, final(cfg).fan.curve) {
                (Some(o), Some(n)) => {
                    &&& n.curve.points@ == if idx < o.curve.points@.len() {
                        o.curve.points@.update(idx as int, p)
                    } else {
                        o.curve.points@
                    }
                    &&& n.curve.sensors@ == o.curve.sensors@
                    &&& n.curve.hysteresis_c == o.curve.hysteresis_c
                    &&& n.curve.rate_limit_pct_per_step == o.curve.rate_limit_pct_per_step
                    &&& n.curve.rate_limit_down_pct_per_step == o.curve.rate_limit_down_pct_per_step
                    &&& n.poll_ms == o.poll_ms
                },
                (None, None) => true,
                _ => false,
            }
        }),
        final(cfg).fan.mode == old(cfg).fan.mode,
        final(cfg).fan.manual == old(cfg).fan.manual,
        final(cfg).fan.unified_duty == old(cfg).fan.unified_duty,
        final(cfg).fan.per_fan_duty@ == old(cfg).fan.per_fan_duty@,
        same_except_fan(old(cfg), final(cfg)),
{
    let t = clamp(temp, CURVE_EDIT_TEMP_MIN, CURVE_EDIT_TEMP_MAX);
    let d = clamp(duty, 0, SLIDER_DUTY_MAX);
    let curve = cfg.fan.curve.take();
    cfg.fan.curve = match curve {
        Some(g) => {
            let mut g = g;
            if idx < g.curve.points.len() {
                g.curve.points.set(idx, [t, d]);
            }
            Some(g)
        },
        None => None,
    };
}

/// Sets the curve's hysteresis (taken as given; `validate` bounds it).
pub fn set_curve_hysteresis(cfg: &mut Config, h: u32)
    ensures
        match (old(cfg).fan.curve, final(cfg).fan.curve) {
            (Some(o), Some(n)) => n.curve.hysteresis_c == h && n.curve.points@ == o.curve.points@
                && n.curve.sensors@ == o.curve.sensors@
                && n.curve.rate_limit_pct_per_step == o.curve.rate_limit_pct_per_step
                && n.curve.rate_limit_down_pct_per_step == o.curve.rate_limit_down_pct_per_step
                && n.poll_ms == o.poll_ms,
            (None, None) => true,
            _ => false,
        },
        final(cfg).fan.mode == old(cfg).fan.mode,
        final(cfg).fan.manual == old(cfg).fan.manual,
        same_except_fan(old(cfg), final(cfg)),
{
    let curve = cfg.fan.curve.take();
    cfg.fan.curve = match curve {
        Some(g) => {
            let mut g = g;
            g.curve.hysteresis_c = h;
            Some(g)
        },
        None => None,
    };
}

/// Sets the curve's rate limit (taken as given; `validate` bounds it).
pub fn set_curve_rate_limit(cfg: &mut Config, r: u32)
    ensures
        match (old(cfg).fan.curve, final(cfg).fan.curve) {
            (Some(o), Some(n)) => n.curve.rate_limit_pct_per_step == r && n.curve.points@ == o.curve.points@
                && n.curve.sensors@ == o.curve.sensors@
                && n.curve.hysteresis_c == o.curve.hysteresis_c
                && n.curve.rate_limit_down_pct_per_step == o.curve.rate_limit_down_pct_per_step
                && n.poll_ms == o.poll_ms,
            (None, None) => true,
            _ => false,
        },
        final(cfg).fan.mode == old(cfg).fan.mode,
        final(cfg).fan.manual == old(cfg).fan.manual,
        same_except_fan(old(cfg), final(cfg)),
{
    let curve = cfg.fan.curve.take();
    cfg.fan.curve = match curve {
        Some(g) => {
            let mut g = g;
            g.curve.rate_limit_pct_per_step = r;
            Some(g)
        },
        None => None,
    };
}

/// Drives the curve by the single sensor `name`; without curve settings
/// nothing changes.
pub fn select_curve_sensor(cfg: &mut Config, name: String)
    ensures
        match (old(cfg).fan.curve, final(cfg).fan.curve) {
            (Some(o), Some(n)) => n.curve.sensors@.len() == 1 && n.curve.sensors@[0] == name
                && n.curve.points@ == o.curve.points@
                && n.curve.hysteresis_c == o.curve.hysteresis_c
                && n.curve.rate_limit_pct_per_step == o.curve.rate_limit_pct_per_step
                && n.curve.rate_limit_down_pct_per_step == o.curve.rate_limit_down_pct_per_step
                && n.poll_ms == o.poll_ms,
            (None, None) => true,
            _ => false,
        },
        final(cfg).fan.mode == old(cfg).fan.mode,
        final(cfg).fan.manual == old(cfg).fan.manual,
        same_except_fan(old(cfg), final(cfg)),
{
    let curve = cfg.fan.curve.take();
    cfg.fan.curve = match curve {
        Some(g) => {
            let mut g = g;
            let mut sensors: Vec<String> = Vec::new();
            sensors.push(name);
            g.curve.sensors = sensors;
            Some(g)
        },
        None => None,
    };
}

/// The charge limit setting created when none exists yet.
pub open spec fn default_charge_limit() -> SettingU8 {
    SettingU8 { enabled: false, value: CHARGE_LIMIT_MIN as u8 }
}

/// Turns the charge limit on or off, creating it at the minimum when
/// absent and raising a value below the minimum to it.
pub fn toggle_charge_limit(cfg: &mut Config, enabled: bool)
    ensures
        ({
            let base = match old(cfg).battery.charge_limit_max_pct {
                Some(s) => s,
                None => default_charge_limit(),
            };
            final(cfg).battery.charge_limit_max_pct == Some(SettingU8 {
                enabled,
                value: if base.value < CHARGE_LIMIT_MIN { CHARGE_LIMIT_MIN as u8 } else { base.value },
            })
        }),
        final(cfg).battery.charge_rate_c == old(cfg).battery.charge_rate_c,
        final(cfg).battery.charge_rate_soc_threshold_pct == old(cfg).battery.charge_rate_soc_threshold_pct,
        final(cfg).fan == old(cfg).fan,
        final(cfg).telemetry == old(cfg).telemetry,
{
    let base = match cfg.battery.charge_limit_max_pct {
        Some(s) => s,
        None => SettingU8 { enabled: false, value: CHARGE_LIMIT_MIN as u8 },
    };
    let value = if base.value < CHARGE_LIMIT_MIN as u8 { CHARGE_LIMIT_MIN as u8 } else { base.value };
    cfg.battery.charge_limit_max_pct = Some(SettingU8 { enabled, value });
}

/// Sets the charge limit value (at most 100%), creating the setting
/// (disabled) when absent.
pub fn set_charge_limit(cfg: &mut Config, value: u32)
    ensures
        ({
            let base = match old(cfg).battery.charge_limit_max_pct {
                Some(s) => s,
                None => default_charge_limit(),
            };
            final(cfg).battery.charge_limit_max_pct == Some(SettingU8 {
                enabled: base.enabled,
                value: (if value < CHARGE_LIMIT_MAX { value } else { CHARGE_LIMIT_MAX }) as u8,
            })
        }),
        final(cfg).battery.charge_rate_c == old(cfg).battery.charge_rate_c,
        final(cfg).battery.charge_rate_soc_threshold_pct == old(cfg).battery.charge_rate_soc_threshold_pct,
        final(cfg).fan == old(cfg).fan,
        final(cfg).telemetry == old(cfg).telemetry,
{
    let base = match cfg.battery.charge_limit_max_pct {
        Some(s) => s,
        None => SettingU8 { enabled: false, value: CHARGE_LIMIT_MIN as u8 },
    };
    let v = if value < CHARGE_LIMIT_MAX { value } else { CHARGE_LIMIT_MAX };
    cfg.battery.charge_limit_max_pct = Some(SettingU8 { enabled: base.enabled, value: v as u8 });
}

/// Sets the state of charge above which the charge rate limit applies;
/// 0 removes the threshold.
pub fn set_charge_rate_soc_threshold(cfg: &mut Config, pct: u8)
    ensures
        final(cfg).battery.charge_rate_soc_threshold_pct == if pct == 0 { None } else { Some(pct) },
        final(cfg).battery.charge_limit_max_pct == old(cfg).battery.charge_limit_max_pct,
        final(cfg).battery.charge_rate_c == old(cfg).battery.charge_rate_c,
        final(cfg).fan == old(cfg).fan,
        final(cfg).telemetry == old(cfg).telemetry,
{
    cfg.battery.charge_rate_soc_threshold_pct = if pct == 0 { None } else { Some(pct) };
}

/// Sets the hardware poll interval, at least the minimum poll rate, and
/// returns it.
pub fn set_poll_rate(cfg: &mut Config, ms: u64) -> (r: u64)
    ensures
        r == if ms >= POLL_RATE_MIN_MS { ms } else { POLL_RATE_MIN_MS as u64 },
        final(cfg).telemetry.poll_ms == r,
        final(cfg).telemetry.ui_refresh_ms == old(cfg).telemetry.ui_refresh_ms,
        final(cfg).telemetry.selected_sensors@ == old(cfg).telemetry.selected_sensors@,
        final(cfg).fan == old(cfg).fan,
        final(cfg).battery == old(cfg).battery,
{
    let r = if ms >= POLL_RATE_MIN_MS as u64 { ms } else { POLL_RATE_MIN_MS as u64 };
    cfg.telemetry.poll_ms = r;
    r
}

/// Sets the interface refresh interval, kept within its range, and
/// returns it.
pub fn set_ui_refresh_rate(cfg: &mut Config, ms: u64) -> (r: u64)
    ensures
        r == clamp_int(ms as int, UI_REFRESH_MS_MIN as int, UI_REFRESH_MS_MAX as int),
        final(cfg).telemetry.ui_refresh_ms == r,
        final(cfg).telemetry.poll_ms == old(cfg).telemetry.poll_ms,
        final(cfg).telemetry.selected_sensors@ == old(cfg).telemetry.selected_sensors@,
        final(cfg).fan == old(cfg).fan,
        final(cfg).battery == old(cfg).battery,
{
    let r = if ms < UI_REFRESH_MS_MIN { UI_REFRESH_MS_MIN } else if ms > UI_REFRESH_MS_MAX { UI_REFRESH_MS_MAX } else { ms };
    cfg.telemetry.ui_refresh_ms = r;
    r
}

/// The names of a list of strings.
pub open spec fn names(s: Seq<String>) -> Seq<Seq<char>> {
    s.map_values(|x: String| x@)
}

/// `s` without any occurrence of `name`.
pub open spec fn without(s: Seq<Seq<char>>, name: Seq<char>) -> Seq<Seq<char>>
    decreases s.len(),
{
    if s.len() == 0 {
        s
    } else {
        let r = without(s.drop_last(), name);
        if s.last() == name { r } else { r.push(s.last()) }
    }
}

/// The sensors selected for display after toggling `name`: an empty
/// selection first stands for all `keys`; turning a sensor on adds it once,
/// turning it off removes every occurrence.
pub open spec fn toggled_selection(selected: Seq<Seq<char>>, keys: Seq<Seq<char>>, name: Seq<char>, enabled: bool) -> Seq<Seq<char>> {
    let base = if selected.len() == 0 { keys } else { selected };
    if enabled {
        if base.contains(name) { base } else { base.push(name) }
    } else {
        without(base, name)
    }
}

fn contains_name(list: &Vec<String>, name: &String) -> (b: bool)
    ensures
        b == names(list@).contains(name@),
{
    let mut i: usize = 0;
    while i < list.len()
        invariant
            i <= list@.len(),
            forall|k: int| 0 <= k < i ==> list@[k]@ != name@,
        decreases list@.len() - i,
    {
        if list[i] == *name {
            assert(names(list@)[i as int] == name@);
            return true;
        }
        i = i + 1;
    }
    assert forall|k: int| 0 <= k < names(list@).len() implies names(list@)[k] != name@ by {
        assert(names(list@)[k] == list@[k]@);
    }
    false
}

fn without_name(list: Vec<String>, name: &String) -> (r: Vec<String>)
    ensures
        names(r@) == without(names(list@), name@),
{
    let mut out: Vec<String> = Vec::new();
    let mut i: usize = 0;
    while i < list.len()
        invariant
            i <= list@.len(),
            names(out@) == without(names(list@.take(i as int)), name@),
        decreases list@.len() - i,
    {
        let s = list[i].clone();
        let ghost before = out@;
        let keep = !(s == *name);
        if keep {
            out.push(s);
            assert(names(out@) =~= names(before).push(s@));
        }
        i = i + 1;
        assert(names(list@.take(i as int)).drop_last() =~= names(list@.take(i - 1)));
        assert(names(list@.take(i as int)).last() == s@);
    }
    assert(list@.take(list@.len() as int) =~= list@);
    out
}

fn clone_names(list: &Vec<String>) -> (r: Vec<String>)
    ensures
        r@ == list@,
{
    let mut out: Vec<String> = Vec::new();
    let mut i: usize = 0;
    while i < list.len()
        invariant
            i <= list@.len(),
            out@ == list@.take(i as int),
        decreases list@.len() - i,
    {
        let s = list[i].clone();
        out.push(s);
        i = i + 1;
        assert(out@ =~= list@.take(i as int));
    }
    assert(list@.take(list@.len() as int) =~= list@);
    out
}

/// Toggles the display of sensor `name` (see [`toggled_selection`]), with
/// `keys` the sensors currently reported.
pub fn toggle_sensor(cfg: &mut Config, keys: &Vec<String>, name: String, enabled: bool)
    ensures
        names(final(cfg).telemetry.selected_sensors@) == toggled_selection(
            names(old(cfg).telemetry.selected_sensors@),
            names(keys@),
            name@,
            enabled,
        ),
        final(cfg).telemetry.poll_ms == old(cfg).telemetry.poll_ms,
        final(cfg).telemetry.ui_refresh_ms == old(cfg).telemetry.ui_refresh_ms,
        final(cfg).fan == old(cfg).fan,
        final(cfg).battery == old(cfg).battery,
{
    let mut selected: Vec<String> = Vec::new();
    std::mem::swap(&mut selected, &mut cfg.telemetry.selected_sensors);
    if selected.len() == 0 {
        selected = clone_names(keys);
    }
    if enabled {
        if !contains_name(&selected, &name) {
            let ghost before = selected@;
            selected.push(name);
            assert(names(selected@) =~= names(before).push(name@));
        }
    } else {
        selected = without_name(selected, &name);
    }
    cfg.telemetry.selected_sensors = selected;
}

/// Law: a slider duty is always one the fans accept, and a duty already in
/// range is kept as chosen.
pub proof fn lemma_slider_duty_in_range(duty: u32)
    ensures
        SLIDER_DUTY_MIN <= clamp_int(duty as int, SLIDER_DUTY_MIN as int, SLIDER_DUTY_MAX as int) <= SLIDER_DUTY_MAX,
        SLIDER_DUTY_MIN <= duty <= SLIDER_DUTY_MAX ==> clamp_int(duty as int, SLIDER_DUTY_MIN as int, SLIDER_DUTY_MAX as int) == duty,
{
}

} // verus!
