//! Persistent configuration, its validation rules, and the helpers that
//! turn sensor readings into the temperature driving the fan curve.
use vstd::prelude::*;
use crate::cli::ec_wrapper::{battery_data_empty, BatteryData};
use crate::limits::{CHARGE_LIMIT_MAX, CHARGE_LIMIT_MIN, POLL_RATE_MIN_MS};

verus! {

pub const POLL_MS_MIN: u64 = 200;
pub const POLL_MS_MAX: u64 = 2000;
pub const UI_REFRESH_MS_MIN: u64 = 50;
pub const UI_REFRESH_MS_MAX: u64 = 1000;
pub const DUTY_PCT_MAX: u32 = 100;
pub const CURVE_POLL_MS_MIN: u64 = 500;
pub const CURVE_POLL_MS_MAX: u64 = 5000;
pub const HYSTERESIS_C_MAX: u32 = 10;
pub const RATE_LIMIT_MIN: u32 = 1;
pub const RATE_LIMIT_MAX: u32 = 100;
/// Range of the charge rate limit, in thousandths of C (0.05 C to 1 C).
pub const CHARGE_RATE_MILLI_C_MIN: u32 = 50;
pub const CHARGE_RATE_MILLI_C_MAX: u32 = 1000;
/// Highest state of charge (%) usable as the charge rate threshold.
pub const SOC_THRESHOLD_MAX: u8 = 100;
/// Maximum temperature (°C) of the curve domain and the plots.
pub const CURVE_TEMP_MAX: u32 = 110;

// ---------------------------------------------------------------------------
// Configuration types
// ---------------------------------------------------------------------------

#[derive(Clone, Copy, Debug, PartialEq, Eq, Structural)]
pub enum FanControlMode {
    Disabled,
    Manual,
    Curve,
}

#[derive(Clone, Copy, Debug, PartialEq, Eq, Structural)]
pub struct ManualConfig {
    pub duty_pct: u32,
}

#[derive(Clone, Copy, Debug, PartialEq, Eq, Structural)]
pub struct SettingU8 {
    pub enabled: bool,
    pub value: u8,
}

#[derive(Clone, Debug, PartialEq)]
pub struct CurveConfig {
    pub sensors: Vec<String>,
    pub points: Vec<[u32; 2]>,
    pub hysteresis_c: u32,
    pub rate_limit_pct_per_step: u32,
    pub rate_limit_down_pct_per_step: Option<u32>,
}

#[derive(Clone, Debug, PartialEq)]
pub struct GlobalCurveConfig {
    pub curve: CurveConfig,
    pub poll_ms: u64,
}

#[derive(Clone, Debug, PartialEq)]
pub struct FanControlConfig {
    pub mode: FanControlMode,
    pub manual: Option<ManualConfig>,
    pub curve: Option<GlobalCurveConfig>,
    pub unified_duty: bool,
    pub per_fan_duty: Vec<u32>,
}

#[derive(Clone, Debug, PartialEq)]
pub struct TelemetryConfig {
    pub poll_ms: u64,
    pub ui_refresh_ms: u64,
    pub selected_sensors: Vec<String>,
}

/// A charge rate limit: whether it is on, and the rate in thousandths of C
/// (the configuration file holds it in C).
#[derive(Clone, Copy, Debug, PartialEq, Eq, Structural)]
pub struct SettingChargeRate {
    pub enabled: bool,
    pub milli_c: u32,
}

#[derive(Clone, Copy, Debug, PartialEq, Eq, Structural)]
pub struct BatteryConfig {
    pub charge_limit_max_pct: Option<SettingU8>,
    pub charge_rate_c: Option<SettingChargeRate>,
    pub charge_rate_soc_threshold_pct: Option<u8>,
}

#[derive(Clone, Debug, PartialEq)]
pub struct Config {
    pub fan: FanControlConfig,
    pub battery: BatteryConfig,
    pub telemetry: TelemetryConfig,
}

/// The latest battery state shown by the application.
#[derive(Clone, Debug, PartialEq)]
pub struct BatteryInfo {
    pub power_info: BatteryData,
}

impl Default for BatteryInfo {
    fn default() -> (b: Self)
        ensures
            battery_data_empty(b.power_info),
    {
        BatteryInfo { power_info: BatteryData::default() }
    }
}

// ---------------------------------------------------------------------------
// Defaults
// ---------------------------------------------------------------------------

pub open spec fn default_points_seq() -> Seq<[u32; 2]> {
    seq![[30u32, 0u32], [45u32, 20u32], [60u32, 40u32], [75u32, 80u32], [85u32, 100u32]]
}

impl Default for FanControlMode {
    fn default() -> (m: Self)
        ensures
            m == FanControlMode::Disabled,
    {
        FanControlMode::Disabled
    }
}

impl Default for FanControlConfig {
    fn default() -> (c: Self)
        ensures
            c.mode == FanControlMode::Disabled,
            c.manual is None,
            c.curve is None,
            c.unified_duty,
            c.per_fan_duty@ == Seq::<u32>::empty(),
    {
        FanControlConfig {
            mode: FanControlMode::Disabled,
            manual: None,
            curve: None,
            unified_duty: true,
            per_fan_duty: Vec::new(),
        }
    }
}

impl Default for CurveConfig {
    fn default() -> (c: Self)
        ensures
            c.sensors@ == Seq::<String>::empty(),
            c.points@ == Seq::<[u32; 2]>::empty(),
            c.hysteresis_c == 0,
            c.rate_limit_pct_per_step == 0,
            c.rate_limit_down_pct_per_step is None,
    {
        CurveConfig {
            sensors: Vec::new(),
            points: Vec::new(),
            hysteresis_c: 0,
            rate_limit_pct_per_step: 0,
            rate_limit_down_pct_per_step: None,
        }
    }
}

impl Default for GlobalCurveConfig {
    fn default() -> (c: Self)
        ensures
            c.curve.sensors@ == Seq::<String>::empty(),
            c.curve.points@ == Seq::<[u32; 2]>::empty(),
            c.curve.hysteresis_c == 0,
            c.curve.rate_limit_pct_per_step == 0,
            c.curve.rate_limit_down_pct_per_step is None,
            c.poll_ms == 0,
    {
        GlobalCurveConfig { curve: CurveConfig::default(), poll_ms: 0 }
    }
}

impl Default for TelemetryConfig {
    fn default() -> (c: Self)
        ensures
            c.poll_ms == 500,
            c.ui_refresh_ms == 500,
            c.selected_sensors@ == Seq::<String>::empty(),
    {
        TelemetryConfig { poll_ms: 500, ui_refresh_ms: 500, selected_sensors: Vec::new() }
    }
}

impl Default for SettingU8 {
    fn default() -> (s: Self)
        ensures
            !s.enabled,
            s.value == 0,
    {
        SettingU8 { enabled: false, value: 0 }
    }
}

impl Default for BatteryConfig {
    fn default() -> (b: Self)
        ensures
            b.charge_limit_max_pct is None,
            b.charge_rate_c is None,
            b.charge_rate_soc_threshold_pct is None,
    {
        BatteryConfig { charge_limit_max_pct: None, charge_rate_c: None, charge_rate_soc_threshold_pct: None }
    }
}

impl Default for Config {
    fn default() -> (c: Self)
        ensures
            c.fan.mode == FanControlMode::Disabled,
            c.fan.manual is None,
            c.fan.curve is None,
            c.fan.unified_duty,
            c.fan.per_fan_duty@ == Seq::<u32>::empty(),
            c.battery.charge_limit_max_pct is None,
            c.battery.charge_rate_c is None,
            c.battery.charge_rate_soc_threshold_pct is None,
            c.telemetry.poll_ms == 500,
            c.telemetry.ui_refresh_ms == 500,
            c.telemetry.selected_sensors@ == Seq::<String>::empty(),
    {
        Config {
            fan: FanControlConfig::default(),
            battery: BatteryConfig::default(),
            telemetry: TelemetryConfig::default(),
        }
    }
}

pub fn default_true() -> (b: bool)
    ensures
        b,
{
    true
}

/// The default fan curve.
pub fn default_points() -> (v: Vec<[u32; 2]>)
    ensures
        v@ == default_points_seq(),
{
    let v = vec![[30u32, 0u32], [45u32, 20u32], [60u32, 40u32], [75u32, 80u32], [85u32, 100u32]];
    assert(v@ =~= default_points_seq());
    v
}

pub fn default_poll_ms() -> (r: u64)
    ensures
        r == 500,
{
    500
}

pub fn default_hysteresis_c() -> (r: u32)
    ensures
        r == 2,
{
    2
}

pub fn default_rate_limit_pct_per_step() -> (r: u32)
    ensures
        r == 10,
{
    10
}

// ---------------------------------------------------------------------------
// Fan mode encoding
// ---------------------------------------------------------------------------

pub open spec fn mode_code(m: FanControlMode) -> u8 {
    match m {
        FanControlMode::Disabled => 0,
        FanControlMode::Manual => 1,
        FanControlMode::Curve => 2,
    }
}

pub open spec fn mode_of_code(v: u8) -> FanControlMode {
    if v == 1 {
        FanControlMode::Manual
    } else if v == 2 {
        FanControlMode::Curve
    } else {
        FanControlMode::Disabled
    }
}

impl FanControlMode {
    /// Decodes a stored mode; unknown values fall back to `Disabled`.
    pub fn from_u8(v: u8) -> (m: Self)
        ensures
            m == mode_of_code(v),
    {
        match v {
            0 => FanControlMode::Disabled,
            1 => FanControlMode::Manual,
            2 => FanControlMode::Curve,
            _ => FanControlMode::Disabled,
        }
    }

    pub fn to_u8(self) -> (v: u8)
        ensures
            v == mode_code(self),
    {
        match self {
            FanControlMode::Disabled => 0,
            FanControlMode::Manual => 1,
            FanControlMode::Curve => 2,
        }
    }
}

/// Encoding a mode and decoding it again gives the mode back, and every
/// code in range decodes to the mode it encodes.
pub proof fn lemma_mode_code_roundtrip(m: FanControlMode, v: u8)
    ensures
        mode_of_code(mode_code(m)) == m,
        v <= 2 ==> mode_code(mode_of_code(v)) == v,
{
}

// ---------------------------------------------------------------------------
// Full curve
// ---------------------------------------------------------------------------

pub open spec fn has_temp(pts: Seq<[u32; 2]>, t: u32) -> bool {
    exists|i: int| 0 <= i < pts.len() && #[trigger] pts[i][0] == t
}

/// The user's points framed by `[0, 0]` and `[CURVE_TEMP_MAX, 100]` where
/// the user did not give a point at those temperatures.
pub open spec fn framed_points(pts: Seq<[u32; 2]>) -> Seq<[u32; 2]> {
    let lead: Seq<[u32; 2]> = if has_temp(pts, 0) { seq![] } else { seq![[0u32, 0u32]] };
    let tail: Seq<[u32; 2]> = if has_temp(pts, CURVE_TEMP_MAX) { seq![] } else { seq![[CURVE_TEMP_MAX, 100u32]] };
    lead + pts + tail
}

/// Temperature → duty, where a later point at a temperature overrides an
/// earlier one.
pub open spec fn last_duty_map(pts: Seq<[u32; 2]>) -> Map<u32, u32>
    decreases pts.len(),
{
    if pts.len() == 0 {
        Map::empty()
    } else {
        last_duty_map(pts.drop_last()).insert(pts.last()[0], pts.last()[1])
    }
}

pub open spec fn strictly_increasing_temps(r: Seq<[u32; 2]>) -> bool {
    forall|i: int, j: int| 0 <= i < j < r.len() ==> #[trigger] r[i][0] < #[trigger] r[j][0]
}

/// `r` lists the map `m` as points in strictly increasing temperature order.
pub open spec fn lists_map(r: Seq<[u32; 2]>, m: Map<u32, u32>) -> bool {
    &&& strictly_increasing_temps(r)
    &&& forall|i: int| 0 <= i < r.len() ==> #[trigger] m.contains_key(r[i][0]) && m[r[i][0]] == r[i][1]
    &&& forall|k: u32| #[trigger] m.contains_key(k) ==> exists|i: int| 0 <= i < r.len() && r[i][0] == k
}

/// Adds `p` to the sorted point list `r`, replacing a point at the same
/// temperature.
#[verifier::spinoff_prover]
fn insert_point(r: &mut Vec<[u32; 2]>, p: [u32; 2], Ghost(m): Ghost<Map<u32, u32>>)
    requires
        lists_map(old(r)@, m),
    ensures
        lists_map(final(r)@, m.insert(p[0], p[1])),
{
    let ghost r0 = r@;
    let mut j: usize = 0;
    while j < r.len() && r[j][0] < p[0]
        invariant
            r@ == r0,
            j <= r0.len(),
            forall|i: int| 0 <= i < j ==> #[trigger] r0[i][0] < p[0],
        decreases r0.len() - j,
    {
        j = j + 1;
    }
    let ghost m2 = m.insert(p[0], p[1]);
    assert(lists_map(r0, m));
    if j < r.len() && r[j][0] == p[0] {
        r.set(j, p);
        let ghost r1 = r@;
        assert forall|a: int, b: int| 0 <= a < b < r1.len() implies #[trigger] r1[a][0] < #[trigger] r1[b][0] by {
            assert(r0[a][0] < r0[b][0]);
        }
        assert forall|i: int| 0 <= i < r1.len() implies #[trigger] m2.contains_key(r1[i][0]) && m2[r1[i][0]] == r1[i][1] by {
            if i != j {
                assert(r0[i][0] != r0[j as int][0]) by {
                    if i < j { assert(r0[i][0] < r0[j as int][0]); } else { assert(r0[j as int][0] < r0[i][0]); }
                }
            }
        }
        assert forall|k: u32| #[trigger] m2.contains_key(k) implies exists|i: int| 0 <= i < r1.len() && r1[i][0] == k by {
            if k == p[0] {
                assert(r1[j as int][0] == k);
            } else {
                let i = choose|i: int| 0 <= i < r0.len() && r0[i][0] == k;
                assert(r1[i][0] == k);
            }
        }
    } else {
        r.insert(j, p);
        let ghost r1 = r@;
        assert forall|i: int| j < i < r1.len() implies #[trigger] r1[i] == r0[i - 1] by {}
        assert forall|i: int| 0 <= i < j implies #[trigger] r1[i] == r0[i] by {}
        assert(forall|i: int| j <= i < r0.len() ==> p[0] < #[trigger] r0[i][0]) by {
            assert forall|i: int| j <= i < r0.len() implies p[0] < #[trigger] r0[i][0] by {
                if j < r0.len() {
                    assert(r0[j as int][0] > p[0]);
                    if i > j { assert(r0[j as int][0] < r0[i][0]); }
                }
            }
        }
        assert forall|a: int, b: int| 0 <= a < b < r1.len() implies #[trigger] r1[a][0] < #[trigger] r1[b][0] by {
            if a < j && b < j {
                assert(r0[a][0] < r0[b][0]);
            } else if a < j && b == j {
            } else if a < j {
                assert(r1[b] == r0[b - 1]);
                assert(r0[a][0] < p[0]);
            } else if a == j {
                assert(r1[b] == r0[b - 1]);
            } else {
                assert(r0[a - 1][0] < r0[b - 1][0]);
            }
        }
        assert forall|i: int| 0 <= i < r1.len() implies #[trigger] m2.contains_key(r1[i][0]) && m2[r1[i][0]] == r1[i][1] by {
            if i < j {
                assert(r1[i] == r0[i]);
                assert(r0[i][0] < p[0]);
                assert(0 <= i < r0.len());
                assert(m.contains_key(r0[i][0]));
            } else if i > j {
                let k = i - 1;
                assert(0 <= k < r0.len());
                assert(r1[i] == r0[k]);
                assert(p[0] < r0[k][0]);
                assert(m.contains_key(r0[k][0]) && m[r0[k][0]] == r0[k][1]);
            }
        }
        assert forall|k: u32| #[trigger] m2.contains_key(k) implies exists|i: int| 0 <= i < r1.len() && r1[i][0] == k by {
            if k == p[0] {
                assert(r1[j as int][0] == k);
            } else {
                let i = choose|i: int| 0 <= i < r0.len() && r0[i][0] == k;
                if i < j {
                    assert(r1[i][0] == k);
                } else {
                    assert(r1[i + 1][0] == k);
                }
            }
        }
    }
}

fn contains_temp(points: &[[u32; 2]], t: u32) -> (b: bool)
    ensures
        b == has_temp(points@, t),
{
    let mut i: usize = 0;
    while i < points.len()
        invariant
            i <= points@.len(),
            forall|k: int| 0 <= k < i ==> #[trigger] points@[k][0] != t,
        decreases points@.len() - i,
    {
        if points[i][0] == t {
            assert(points@[i as int][0] == t);
            return true;
        }
        i = i + 1;
    }
    false
}

/// `q` agrees with the last point of `pts` at its temperature.
pub open spec fn is_last_point(pts: Seq<[u32; 2]>, q: [u32; 2]) -> bool {
    exists|j: int|
        0 <= j < pts.len() && #[trigger] pts[j][0] == q[0] && pts[j][1] == q[1]
            && forall|k: int| j < k < pts.len() ==> #[trigger] pts[k][0] != q[0]
}

proof fn lemma_last_duty_map(s: Seq<[u32; 2]>, t: u32)
    ensures
        last_duty_map(s).contains_key(t) == has_temp(s, t),
        has_temp(s, t) ==> exists|j: int|
            0 <= j < s.len() && #[trigger] s[j][0] == t && s[j][1] == last_duty_map(s)[t]
                && forall|k: int| j < k < s.len() ==> #[trigger] s[k][0] != t,
    decreases s.len(),
{
    if s.len() > 0 {
        let rest = s.drop_last();
        let n = s.len() - 1;
        lemma_last_duty_map(rest, t);
        if s[n][0] == t {
            assert(s[n][0] == t && s[n][1] == last_duty_map(s)[t]);
            assert(has_temp(s, t));
        } else {
            if has_temp(rest, t) {
                let j = choose|j: int|
                    0 <= j < rest.len() && #[trigger] rest[j][0] == t && rest[j][1] == last_duty_map(rest)[t]
                        && forall|k: int| j < k < rest.len() ==> #[trigger] rest[k][0] != t;
                assert(s[j] == rest[j]);
                assert forall|k: int| j < k < s.len() implies #[trigger] s[k][0] != t by {
                    if k < n {
                        assert(s[k] == rest[k]);
                    }
                }
                assert(has_temp(s, t));
            } else {
                assert(!has_temp(s, t)) by {
                    if has_temp(s, t) {
                        let i = choose|i: int| 0 <= i < s.len() && #[trigger] s[i][0] == t;
                        assert(i != n);
                        assert(rest[i] == s[i]);
                    }
                }
            }
        }
    }
}

/// The direct reading of the full curve: strictly increasing temperatures;
/// exactly the user's temperatures plus 0 and `CURVE_TEMP_MAX`; a point at
/// a user temperature is the user's last point there; the other points are
/// `[0, 0]` and `[CURVE_TEMP_MAX, 100]`.
pub open spec fn full_curve_of(pts: Seq<[u32; 2]>, r: Seq<[u32; 2]>) -> bool {
    &&& strictly_increasing_temps(r)
    &&& forall|t: u32| #[trigger] has_temp(r, t) == (has_temp(pts, t) || t == 0 || t == CURVE_TEMP_MAX)
    &&& forall|i: int| 0 <= i < r.len() && has_temp(pts, r[i][0]) ==> is_last_point(pts, #[trigger] r[i])
    &&& forall|i: int| 0 <= i < r.len() && !has_temp(pts, r[i][0]) ==>
        ((#[trigger] r[i])[0] == 0 && r[i][1] == 0) || (r[i][0] == CURVE_TEMP_MAX && r[i][1] == 100)
}

proof fn lemma_full_curve_direct(pts: Seq<[u32; 2]>, r: Seq<[u32; 2]>)
    requires
        lists_map(r, last_duty_map(framed_points(pts))),
    ensures
        full_curve_of(pts, r),
{
    let f = framed_points(pts);
    let m = last_duty_map(f);
    let a: int = if has_temp(pts, 0) { 0 } else { 1 };
    let lead: Seq<[u32; 2]> = if has_temp(pts, 0) { seq![] } else { seq![[0u32, 0u32]] };
    let tail: Seq<[u32; 2]> = if has_temp(pts, CURVE_TEMP_MAX) { seq![] } else { seq![[CURVE_TEMP_MAX, 100u32]] };
    assert(f == lead + pts + tail);
    assert(lead.len() == a);
    assert forall|k: int| 0 <= k < pts.len() implies #[trigger] f[k + a] == pts[k] by {}
    assert forall|t: u32| #[trigger] has_temp(r, t) == (has_temp(pts, t) || t == 0 || t == CURVE_TEMP_MAX) by {
        lemma_last_duty_map(f, t);
        if has_temp(r, t) {
            let i = choose|i: int| 0 <= i < r.len() && #[trigger] r[i][0] == t;
            assert(m.contains_key(r[i][0]));
        }
        if has_temp(pts, t) {
            let k = choose|k: int| 0 <= k < pts.len() && #[trigger] pts[k][0] == t;
            assert(f[k + a][0] == t);
            assert(has_temp(f, t));
        } else if t == 0 {
            assert(f[0][0] == 0);
            assert(has_temp(f, t));
        } else if t == CURVE_TEMP_MAX {
            assert(f[f.len() - 1][0] == CURVE_TEMP_MAX);
            assert(has_temp(f, t));
        }
        if has_temp(f, t) {
            assert(m.contains_key(t));
        }
        if has_temp(f, t) && !has_temp(pts, t) {
            let i = choose|i: int| 0 <= i < f.len() && #[trigger] f[i][0] == t;
            if a <= i < a + pts.len() {
                assert(pts[i - a][0] == t);
            }
        }
    }
    assert forall|i: int| 0 <= i < r.len() && has_temp(pts, r[i][0]) implies is_last_point(pts, #[trigger] r[i]) by {
        let t = r[i][0];
        lemma_last_duty_map(f, t);
        let k0 = choose|k: int| 0 <= k < pts.len() && #[trigger] pts[k][0] == t;
        assert(f[k0 + a][0] == t);
        assert(has_temp(f, t));
        let j = choose|j: int|
            0 <= j < f.len() && #[trigger] f[j][0] == t && f[j][1] == m[t]
                && forall|k: int| j < k < f.len() ==> #[trigger] f[k][0] != t;
        if j < a {
            assert(f[j] == lead[j]);
        } else if j >= a + pts.len() {
            assert(f[j] == tail[j - a - pts.len()]);
        }
        let jp = j - a;
        assert(pts[jp] == f[j]);
        assert forall|k: int| jp < k < pts.len() implies #[trigger] pts[k][0] != t by {
            assert(f[k + a] == pts[k]);
        }
        assert(pts[jp][0] == r[i][0] && pts[jp][1] == r[i][1]);
    }
    assert forall|i: int| 0 <= i < r.len() && !has_temp(pts, r[i][0]) implies
        ((#[trigger] r[i])[0] == 0 && r[i][1] == 0) || (r[i][0] == CURVE_TEMP_MAX && r[i][1] == 100) by {
        let t = r[i][0];
        lemma_last_duty_map(f, t);
        let j = choose|j: int|
            0 <= j < f.len() && #[trigger] f[j][0] == t && f[j][1] == m[t]
                && forall|k: int| j < k < f.len() ==> #[trigger] f[k][0] != t;
        if a <= j < a + pts.len() {
            assert(pts[j - a] == f[j]);
        } else if j < a {
            assert(f[j] == lead[j]);
        } else {
            assert(f[j] == tail[j - a - pts.len()]);
        }
    }
}

/// The curve actually used for control: the user's points framed by
/// `[0, 0]` and `[CURVE_TEMP_MAX, 100]` (unless the user gave points at those
/// temperatures), sorted by temperature, where a later point at a
/// temperature overrides an earlier one.
pub fn curve_full_points(points: &[[u32; 2]]) -> (full: Vec<[u32; 2]>)
    ensures
        lists_map(full@, last_duty_map(framed_points(points@))),
        full_curve_of(points@, full@),
{
    let has_zero = contains_temp(points, 0);
    let has_max = contains_temp(points, CURVE_TEMP_MAX);
    let mut framed: Vec<[u32; 2]> = Vec::new();
    if !has_zero {
        framed.push([0u32, 0u32]);
    }
    let mut i: usize = 0;
    while i < points.len()
        invariant
            i <= points@.len(),
            framed@ == (if has_temp(points@, 0) { seq![] } else { seq![[0u32, 0u32]] }) + points@.take(i as int),
        decreases points@.len() - i,
    {
        framed.push(points[i]);
        i = i + 1;
        assert(points@.take(i as int) == points@.take(i - 1).push(points@[i - 1]));
    }
    if !has_max {
        framed.push([CURVE_TEMP_MAX, 100u32]);
    }
    assert(points@.take(points@.len() as int) =~= points@);
    assert(framed@ =~= framed_points(points@));
    let mut full: Vec<[u32; 2]> = Vec::new();
    let mut k: usize = 0;
    assert(framed@.take(0) =~= Seq::<[u32; 2]>::empty());
    while k < framed.len()
        invariant
            k <= framed@.len(),
            lists_map(full@, last_duty_map(framed@.take(k as int))),
        decreases framed@.len() - k,
    {
        let p = framed[k];
        insert_point(&mut full, p, Ghost(last_duty_map(framed@.take(k as int))));
        k = k + 1;
        assert(framed@.take(k as int).drop_last() =~= framed@.take(k - 1));
    }
    assert(framed@.take(framed@.len() as int) =~= framed@);
    proof {
        lemma_full_curve_direct(points@, full@);
    }
    full
}

// ---------------------------------------------------------------------------
// Validation
// ---------------------------------------------------------------------------

pub open spec fn clamp_int(v: int, lo: int, hi: int) -> int {
    if v < lo { lo } else if v > hi { hi } else { v }
}

/// A curve point with both coordinates inside the plot domain.
pub open spec fn clamp_point(p: [u32; 2]) -> [u32; 2] {
    [clamp_int(p[0] as int, 0, CURVE_TEMP_MAX as int) as u32, clamp_int(p[1] as int, 0, 100) as u32]
}

/// The curve points after validation: an empty list is replaced by the
/// default curve, and every point is clamped into the plot domain.
pub open spec fn validated_points(pts: Seq<[u32; 2]>) -> Seq<[u32; 2]> {
    let base = if pts.len() == 0 { default_points_seq() } else { pts };
    base.map_values(|p: [u32; 2]| clamp_point(p))
}

/// The curve sensors after validation: at most the first one is kept.
pub open spec fn validated_sensors(s: Seq<String>) -> Seq<String> {
    if s.len() > 1 { s.take(1) } else { s }
}

pub open spec fn point_in_domain(p: [u32; 2]) -> bool {
    p[0] <= CURVE_TEMP_MAX && p[1] <= 100
}

pub proof fn lemma_clamp_point_in_domain(p: [u32; 2])
    ensures
        point_in_domain(clamp_point(p)),
        point_in_domain(p) ==> clamp_point(p) == p,
{
    let q = clamp_point(p);
    assert(q[0] == clamp_int(p[0] as int, 0, CURVE_TEMP_MAX as int) as u32);
    assert(q[1] == clamp_int(p[1] as int, 0, 100) as u32);
    if point_in_domain(p) {
        assert(q@ =~= p@);
    }
}

/// All values of the configuration lie in their allowed ranges.
pub open spec fn config_valid(c: &Config) -> bool {
    &&& POLL_MS_MIN <= c.telemetry.poll_ms <= POLL_MS_MAX
    &&& UI_REFRESH_MS_MIN <= c.telemetry.ui_refresh_ms <= UI_REFRESH_MS_MAX
    &&& (c.fan.manual matches Some(m) ==> m.duty_pct <= DUTY_PCT_MAX)
    &&& (c.fan.curve matches Some(g) ==> {
        &&& CURVE_POLL_MS_MIN <= g.poll_ms <= CURVE_POLL_MS_MAX
        &&& g.curve.hysteresis_c <= HYSTERESIS_C_MAX
        &&& RATE_LIMIT_MIN <= g.curve.rate_limit_pct_per_step <= RATE_LIMIT_MAX
        &&& (g.curve.rate_limit_down_pct_per_step matches Some(d) ==> RATE_LIMIT_MIN <= d <= RATE_LIMIT_MAX)
        &&& g.curve.points@.len() > 0
        &&& g.curve.sensors@.len() <= 1
        &&& forall|i: int| 0 <= i < g.curve.points@.len() ==> point_in_domain(#[trigger] g.curve.points@[i])
    })
    &&& (forall|i: int| 0 <= i < c.fan.per_fan_duty@.len() ==> #[trigger] c.fan.per_fan_duty@[i] <= DUTY_PCT_MAX)
    &&& (c.battery.charge_limit_max_pct matches Some(s) ==> CHARGE_LIMIT_MIN <= s.value <= CHARGE_LIMIT_MAX)
    &&& (c.battery.charge_rate_c matches Some(r) ==> CHARGE_RATE_MILLI_C_MIN <= r.milli_c <= CHARGE_RATE_MILLI_C_MAX)
    &&& (c.battery.charge_rate_soc_threshold_pct matches Some(t) ==> t <= SOC_THRESHOLD_MAX)
}

/// What `validate` does to the curve settings.
pub open spec fn curve_validated(old: GlobalCurveConfig, new: GlobalCurveConfig) -> bool {
    &&& new.poll_ms == clamp_int(old.poll_ms as int, CURVE_POLL_MS_MIN as int, CURVE_POLL_MS_MAX as int)
    &&& new.curve.hysteresis_c == clamp_int(old.curve.hysteresis_c as int, 0, HYSTERESIS_C_MAX as int)
    &&& new.curve.rate_limit_pct_per_step == clamp_int(
        old.curve.rate_limit_pct_per_step as int,
        RATE_LIMIT_MIN as int,
        RATE_LIMIT_MAX as int,
    )
    &&& new.curve.rate_limit_down_pct_per_step == match old.curve.rate_limit_down_pct_per_step {
        Some(d) => Some(clamp_int(d as int, RATE_LIMIT_MIN as int, RATE_LIMIT_MAX as int) as u32),
        None => None,
    }
    &&& new.curve.points@ == validated_points(old.curve.points@)
    &&& new.curve.sensors@ == validated_sensors(old.curve.sensors@)
}

fn clamp_u64(v: u64, lo: u64, hi: u64) -> (r: u64)
    requires
        lo <= hi,
    ensures
        r == clamp_int(v as int, lo as int, hi as int),
{
    if v < lo { lo } else if v > hi { hi } else { v }
}

fn clamp_u32(v: u32, lo: u32, hi: u32) -> (r: u32)
    requires
        lo <= hi,
    ensures
        r == clamp_int(v as int, lo as int, hi as int),
{
    if v < lo { lo } else if v > hi { hi } else { v }
}

fn validate_curve(g: GlobalCurveConfig) -> (r: GlobalCurveConfig)
    ensures
        curve_validated(g, r),
{
    let GlobalCurveConfig { curve, poll_ms } = g;
    let CurveConfig { sensors, points, hysteresis_c, rate_limit_pct_per_step, rate_limit_down_pct_per_step } = curve;
    let poll_ms = clamp_u64(poll_ms, CURVE_POLL_MS_MIN, CURVE_POLL_MS_MAX);
    let hysteresis_c = clamp_u32(hysteresis_c, 0, HYSTERESIS_C_MAX);
    let rate_limit_pct_per_step = clamp_u32(rate_limit_pct_per_step, RATE_LIMIT_MIN, RATE_LIMIT_MAX);
    let rate_limit_down_pct_per_step = match rate_limit_down_pct_per_step {
        Some(d) => Some(clamp_u32(d, RATE_LIMIT_MIN, RATE_LIMIT_MAX)),
        None => None,
    };
    let mut points = if points.len() == 0 { default_points() } else { points };
    let ghost base = points@;
    let mut sensors = sensors;
    if sensors.len() > 1 {
        sensors.truncate(1);
    }
    let n = points.len();
    let mut i: usize = 0;
    while i < n
        invariant
            n == points@.len(),
            n == base.len(),
            i <= n,
            forall|j: int| 0 <= j < i ==> points@[j] == clamp_point(#[trigger] base[j]),
            forall|j: int| i <= j < n ==> points@[j] == #[trigger] base[j],
        decreases n - i,
    {
        let p = points[i];
        let q: [u32; 2] = [clamp_u32(p[0], 0, CURVE_TEMP_MAX), clamp_u32(p[1], 0, 100)];
        assert(q == clamp_point(base[i as int]));
        points.set(i, q);
        i = i + 1;
    }
    assert(points@ =~= validated_points(g.curve.points@));
    GlobalCurveConfig {
        curve: CurveConfig {
            sensors,
            points,
            hysteresis_c,
            rate_limit_pct_per_step,
            rate_limit_down_pct_per_step,
        },
        poll_ms,
    }
}

fn clamp_duties(v: Vec<u32>) -> (r: Vec<u32>)
    ensures
        r@ == v@.map_values(|d: u32| clamp_int(d as int, 0, DUTY_PCT_MAX as int) as u32),
{
    let mut v = v;
    let ghost duties = v@;
    let n = v.len();
    let mut i: usize = 0;
    while i < n
        invariant
            n == v@.len(),
            n == duties.len(),
            i <= n,
            forall|j: int| 0 <= j < i ==> v@[j] == clamp_int(#[trigger] duties[j] as int, 0, DUTY_PCT_MAX as int) as u32,
            forall|j: int| i <= j < n ==> v@[j] == #[trigger] duties[j],
        decreases n - i,
    {
        let d = v[i];
        v.set(i, clamp_u32(d, 0, DUTY_PCT_MAX));
        i = i + 1;
    }
    assert(v@ =~= duties.map_values(|d: u32| clamp_int(d as int, 0, DUTY_PCT_MAX as int) as u32));
    v
}

impl Config {
    /// Clamps every value to its allowed range, so that the configuration
    /// can never hold values that could damage the hardware or destabilise
    /// the application. Already valid configurations are left unchanged.
    pub fn validate(&mut self)
        ensures
            config_valid(final(self)),
            final(self).telemetry.poll_ms == clamp_int(
                old(self).telemetry.poll_ms as int,
                POLL_MS_MIN as int,
                POLL_MS_MAX as int,
            ),
            final(self).telemetry.ui_refresh_ms == clamp_int(
                old(self).telemetry.ui_refresh_ms as int,
                UI_REFRESH_MS_MIN as int,
                UI_REFRESH_MS_MAX as int,
            ),
            final(self).telemetry.selected_sensors@ == old(self).telemetry.selected_sensors@,
            final(self).fan.mode == old(self).fan.mode,
            final(self).fan.unified_duty == old(self).fan.unified_duty,
            final(self).fan.manual == match old(self).fan.manual {
                Some(m) => Some(ManualConfig { duty_pct: clamp_int(m.duty_pct as int, 0, DUTY_PCT_MAX as int) as u32 }),
                None => None,
            },
            match (old(self).fan.curve, final(self).fan.curve) {
                (Some(o), Some(n)) => curve_validated(o, n),
                (None, None) => true,
                _ => false,
            },
            final(self).fan.per_fan_duty@ == old(self).fan.per_fan_duty@.map_values(
                |d: u32| clamp_int(d as int, 0, DUTY_PCT_MAX as int) as u32,
            ),
            final(self).battery.charge_limit_max_pct == match old(self).battery.charge_limit_max_pct {
                Some(s) => Some(SettingU8 {
                    enabled: s.enabled,
                    value: clamp_int(s.value as int, CHARGE_LIMIT_MIN as int, CHARGE_LIMIT_MAX as int) as u8,
                }),
                None => None,
            },
            final(self).battery.charge_rate_c == match old(self).battery.charge_rate_c {
                Some(r) => Some(SettingChargeRate {
                    enabled: r.enabled,
                    milli_c: clamp_int(r.milli_c as int, CHARGE_RATE_MILLI_C_MIN as int, CHARGE_RATE_MILLI_C_MAX as int) as u32,
                }),
                None => None,
            },
            final(self).battery.charge_rate_soc_threshold_pct == match old(self).battery.charge_rate_soc_threshold_pct {
                Some(t) => Some(if t > SOC_THRESHOLD_MAX { SOC_THRESHOLD_MAX } else { t }),
                None => None,
            },
            // idempotence: a valid configuration is a fixed point
            config_valid(old(self)) ==> {
                &&& final(self).telemetry == old(self).telemetry
                &&& final(self).fan.manual == old(self).fan.manual
                &&& final(self).fan.per_fan_duty@ == old(self).fan.per_fan_duty@
                &&& final(self).battery == old(self).battery
                &&& (final(self).fan.curve matches Some(n) ==> old(self).fan.curve matches Some(o) && {
                    &&& n.poll_ms == o.poll_ms
                    &&& n.curve.hysteresis_c == o.curve.hysteresis_c
                    &&& n.curve.rate_limit_pct_per_step == o.curve.rate_limit_pct_per_step
                    &&& n.curve.rate_limit_down_pct_per_step == o.curve.rate_limit_down_pct_per_step
                    &&& n.curve.points@ == o.curve.points@
                    &&& n.curve.sensors@ == o.curve.sensors@
                })
            },
    {
        self.telemetry.poll_ms = clamp_u64(self.telemetry.poll_ms, POLL_RATE_MIN_MS as u64, POLL_MS_MAX);
        self.telemetry.ui_refresh_ms = clamp_u64(self.telemetry.ui_refresh_ms, UI_REFRESH_MS_MIN, UI_REFRESH_MS_MAX);
        self.fan.manual = match self.fan.manual {
            Some(m) => Some(ManualConfig { duty_pct: clamp_u32(m.duty_pct, 0, DUTY_PCT_MAX) }),
            None => None,
        };
        let ghost c0 = self.fan.curve;
        assert(c0 == old(self).fan.curve);
        let curve = self.fan.curve.take();
        assert(curve == c0);
        self.fan.curve = match curve {
            Some(g) => Some(validate_curve(g)),
            None => None,
        };
        let mut duties: Vec<u32> = Vec::new();
        std::mem::swap(&mut duties, &mut self.fan.per_fan_duty);
        self.fan.per_fan_duty = clamp_duties(duties);
        self.battery.charge_limit_max_pct = match self.battery.charge_limit_max_pct {
            Some(s) => Some(SettingU8 {
                enabled: s.enabled,
                value: clamp_u32(s.value as u32, CHARGE_LIMIT_MIN, CHARGE_LIMIT_MAX) as u8,
            }),
            None => None,
        };
        self.battery.charge_rate_c = match self.battery.charge_rate_c {
            Some(r) => Some(SettingChargeRate {
                enabled: r.enabled,
                milli_c: clamp_u32(r.milli_c, CHARGE_RATE_MILLI_C_MIN, CHARGE_RATE_MILLI_C_MAX),
            }),
            None => None,
        };
        self.battery.charge_rate_soc_threshold_pct = match self.battery.charge_rate_soc_threshold_pct {
            Some(t) => Some(if t > SOC_THRESHOLD_MAX { SOC_THRESHOLD_MAX } else { t }),
            None => None,
        };
        proof {
            if let Some(g) = &self.fan.curve {
                let pts = g.curve.points@;
                let old_pts = old(self).fan.curve->0.curve.points@;
                let base = if old_pts.len() == 0 { default_points_seq() } else { old_pts };
                assert forall|i: int| 0 <= i < pts.len() implies point_in_domain(#[trigger] pts[i]) by {
                    assert(pts[i] == clamp_point(base[i]));
                    lemma_clamp_point_in_domain(base[i]);
                }
                if config_valid(old(self)) {
                    assert forall|i: int| 0 <= i < old_pts.len() implies #[trigger] pts[i] == old_pts[i] by {
                        assert(point_in_domain(old_pts[i]));
                        lemma_clamp_point_in_domain(old_pts[i]);
                    }
                    assert(pts =~= old_pts);
                }
            }
            if config_valid(old(self)) {
                assert(self.fan.per_fan_duty@ =~= old(self).fan.per_fan_duty@);
            }
        }
    }
}

// ---------------------------------------------------------------------------
// Saving
// ---------------------------------------------------------------------------

/// The points of `s` at temperature `t`, in order.
pub open spec fn points_at(s: Seq<[u32; 2]>, t: u32) -> Seq<[u32; 2]>
    decreases s.len(),
{
    if s.len() == 0 {
        s
    } else {
        let r = points_at(s.drop_last(), t);
        if s.last()[0] == t { r.push(s.last()) } else { r }
    }
}

/// Temperatures never decrease along `s`.
pub open spec fn temps_nondecreasing(s: Seq<[u32; 2]>) -> bool {
    forall|a: int, b: int| 0 <= a <= b < s.len() ==> s[a][0] <= s[b][0]
}

/// `r` is `s` sorted by temperature, points at equal temperatures keeping
/// their order.
pub open spec fn stably_sorted_by_temp(s: Seq<[u32; 2]>, r: Seq<[u32; 2]>) -> bool {
    &&& r.len() == s.len()
    &&& temps_nondecreasing(r)
    &&& forall|t: u32| #[trigger] points_at(r, t) == points_at(s, t)
}

proof fn lemma_points_at_concat(a: Seq<[u32; 2]>, b: Seq<[u32; 2]>, t: u32)
    ensures
        points_at(a + b, t) == points_at(a, t) + points_at(b, t),
    decreases b.len(),
{
    if b.len() == 0 {
        assert(a + b =~= a);
        assert(points_at(b, t) =~= Seq::<[u32; 2]>::empty());
        assert(points_at(a, t) + points_at(b, t) =~= points_at(a, t));
    } else {
        lemma_points_at_concat(a, b.drop_last(), t);
        assert((a + b).drop_last() =~= a + b.drop_last());
        assert((a + b).last() == b.last());
        if b.last()[0] == t {
            assert(points_at(a, t) + points_at(b.drop_last(), t).push(b.last())
                =~= (points_at(a, t) + points_at(b.drop_last(), t)).push(b.last()));
        }
    }
}

proof fn lemma_points_at_none(s: Seq<[u32; 2]>, t: u32)
    requires
        forall|i: int| 0 <= i < s.len() ==> s[i][0] != t,
    ensures
        points_at(s, t) == Seq::<[u32; 2]>::empty(),
    decreases s.len(),
{
    if s.len() > 0 {
        lemma_points_at_none(s.drop_last(), t);
    }
}

proof fn lemma_points_at_single(p: [u32; 2], t: u32)
    ensures
        points_at(seq![p], t) == if p[0] == t { seq![p] } else { Seq::<[u32; 2]>::empty() },
{
    reveal_with_fuel(points_at, 2);
    assert(seq![p].drop_last() =~= Seq::<[u32; 2]>::empty());
    assert(seq![p].last() == p);
    assert(points_at(Seq::<[u32; 2]>::empty(), t) == Seq::<[u32; 2]>::empty());
    assert(Seq::<[u32; 2]>::empty().push(p) =~= seq![p]);
}

/// Sorts points by temperature; points at the same temperature keep their
/// order.
pub fn sort_points_by_temp(points: Vec<[u32; 2]>) -> (r: Vec<[u32; 2]>)
    ensures
        stably_sorted_by_temp(points@, r@),
{
    let mut r: Vec<[u32; 2]> = Vec::new();
    let mut i: usize = 0;
    while i < points.len()
        invariant
            i <= points@.len(),
            r@.len() == i,
            temps_nondecreasing(r@),
            forall|t: u32| #[trigger] points_at(r@, t) == points_at(points@.take(i as int), t),
        decreases points@.len() - i,
    {
        let p = points[i];
        let ghost r0 = r@;
        let mut j: usize = r.len();
        while j > 0 && r[j - 1][0] > p[0]
            invariant
                r@ == r0,
                j <= r0.len(),
                forall|k: int| j <= k < r0.len() ==> #[trigger] r0[k][0] > p[0],
            decreases j,
        {
            j = j - 1;
        }
        r.insert(j, p);
        proof {
            let pre = r0.take(j as int);
            let post = r0.skip(j as int);
            assert(r0 =~= pre + post);
            assert(r@ =~= pre + seq![p] + post);
            assert forall|a: int, b: int| 0 <= a <= b < r@.len() implies r@[a][0] <= r@[b][0] by {
                if a < j && b > j {
                    assert(r@[b] == r0[b - 1]);
                    assert(r@[a] == r0[a]);
                } else if a < j && b == j {
                    assert(r0[a][0] <= r0[j - 1][0]);
                } else if a == j && b > j {
                    assert(r@[b] == r0[b - 1]);
                } else if a > j {
                    assert(r@[a] == r0[a - 1] && r@[b] == r0[b - 1]);
                }
            }
            let ti = points@.take(i + 1);
            assert(ti =~= points@.take(i as int) + seq![p]);
            assert forall|t: u32| #[trigger] points_at(r@, t) == points_at(ti, t) by {
                lemma_points_at_concat(pre + seq![p], post, t);
                lemma_points_at_concat(pre, seq![p], t);
                lemma_points_at_concat(pre, post, t);
                lemma_points_at_concat(points@.take(i as int), seq![p], t);
                lemma_points_at_single(p, t);
                if t == p[0] {
                    assert forall|k: int| 0 <= k < post.len() implies post[k][0] != t by {
                        assert(post[k] == r0[j + k]);
                    }
                    lemma_points_at_none(post, t);
                    assert(points_at(post, t) + seq![p] =~= seq![p]);
                    assert(points_at(pre, t) + points_at(post, t) =~= points_at(pre, t));
                    assert(points_at(pre, t) + seq![p] + Seq::<[u32; 2]>::empty() =~= points_at(pre, t) + seq![p]);
                } else {
                    assert(points_at(pre, t) + Seq::<[u32; 2]>::empty() =~= points_at(pre, t));
                    assert(points_at(points@.take(i as int), t) + Seq::<[u32; 2]>::empty()
                        =~= points_at(points@.take(i as int), t));
                }
            }
        }
        i = i + 1;
    }
    assert(points@.take(points@.len() as int) =~= points@);
    r
}

/// `x` is one of the points of `points_at(s, t)` exactly when it is a
/// point of `s` at temperature `t`.
proof fn lemma_points_at_members(s: Seq<[u32; 2]>, t: u32)
    ensures
        forall|x: [u32; 2]| points_at(s, t).contains(x) ==> s.contains(x),
        forall|i: int| 0 <= i < s.len() && s[i][0] == t ==> points_at(s, t).contains(#[trigger] s[i]),
    decreases s.len(),
{
    if s.len() > 0 {
        let d = s.drop_last();
        lemma_points_at_members(d, t);
        assert forall|x: [u32; 2]| points_at(s, t).contains(x) implies s.contains(x) by {
            let pa = points_at(s, t);
            let pd = points_at(d, t);
            let k = choose|k: int| 0 <= k < pa.len() && pa[k] == x;
            if s.last()[0] == t {
                assert(pa == pd.push(s.last()));
            } else {
                assert(pa == pd);
            }
            if s.last()[0] == t && k == pa.len() - 1 {
                assert(s[s.len() - 1] == x);
            } else {
                assert(pd[k] == x);
                assert(pd.contains(x));
                assert(d.contains(x));
                let w = choose|w: int| 0 <= w < d.len() && d[w] == x;
                assert(d[w] == s[w]);
                assert(s[w] == x);
            }
        }
        assert forall|i: int| 0 <= i < s.len() && s[i][0] == t implies points_at(s, t).contains(#[trigger] s[i]) by {
            if i == s.len() - 1 {
                assert(points_at(s, t)[points_at(s, t).len() - 1] == s[i]);
            } else {
                assert(d[i] == s[i]);
                assert(points_at(d, t).contains(d[i]));
                let k = choose|k: int| 0 <= k < points_at(d, t).len() && points_at(d, t)[k] == d[i];
                assert(points_at(s, t)[k] == s[i]);
            }
        }
    }
}

/// Sorting keeps exactly the points there were.
pub proof fn lemma_sorted_members(s: Seq<[u32; 2]>, r: Seq<[u32; 2]>, k: int)
    requires
        stably_sorted_by_temp(s, r),
        0 <= k < r.len(),
    ensures
        s.contains(r[k]),
{
    let t = r[k][0];
    lemma_points_at_members(r, t);
    lemma_points_at_members(s, t);
    assert(points_at(r, t).contains(r[k]));
    assert(points_at(r, t) == points_at(s, t));
}

impl Config {
    /// Sorts the curve points by temperature (points at equal temperatures
    /// keep their order), as the configuration file lists them; nothing
    /// else changes, and a valid configuration stays valid.
    pub fn sort_curve_points(&mut self)
        ensures
            match (old(self).fan.curve, final(self).fan.curve) {
                (Some(o), Some(n)) => {
                    &&& stably_sorted_by_temp(o.curve.points@, n.curve.points@)
                    &&& n.curve.sensors@ == o.curve.sensors@
                    &&& n.curve.hysteresis_c == o.curve.hysteresis_c
                    &&& n.curve.rate_limit_pct_per_step == o.curve.rate_limit_pct_per_step
                    &&& n.curve.rate_limit_down_pct_per_step == o.curve.rate_limit_down_pct_per_step
                    &&& n.poll_ms == o.poll_ms
                },
                (None, None) => true,
                _ => false,
            },
            final(self).fan.mode == old(self).fan.mode,
            final(self).fan.manual == old(self).fan.manual,
            final(self).fan.unified_duty == old(self).fan.unified_duty,
            final(self).fan.per_fan_duty@ == old(self).fan.per_fan_duty@,
            final(self).battery == old(self).battery,
            final(self).telemetry == old(self).telemetry,
            config_valid(old(self)) ==> config_valid(final(self)),
    {
        let curve = self.fan.curve.take();
        self.fan.curve = match curve {
            Some(g) => {
                let mut g = g;
                let mut pts: Vec<[u32; 2]> = Vec::new();
                std::mem::swap(&mut pts, &mut g.curve.points);
                let sorted = sort_points_by_temp(pts);
                g.curve.points = sorted;
                Some(g)
            },
            None => None,
        };
        proof {
            if config_valid(old(self)) {
                if let Some(n) = &self.fan.curve {
                    let o = old(self).fan.curve->0;
                    assert forall|k: int| 0 <= k < n.curve.points@.len() implies point_in_domain(
                        #[trigger] n.curve.points@[k],
                    ) by {
                        lemma_sorted_members(o.curve.points@, n.curve.points@, k);
                        let w = choose|w: int| 0 <= w < o.curve.points@.len() && o.curve.points@[w] == n.curve.points@[k];
                        assert(point_in_domain(o.curve.points@[w]));
                    }
                }
            }
        }
    }
}
} // verus!

verus! {

// ---------------------------------------------------------------------------
// Sensors
// ---------------------------------------------------------------------------

/// Code point of `c` with ASCII upper-case letters mapped to lower case.
pub open spec fn ascii_lower_code(c: char) -> u32 {
    let u = c as u32;
    if 65 <= u <= 90 { (u + 32) as u32 } else { u }
}

pub open spec fn battery_word() -> Seq<char> {
    seq!['b', 'a', 't', 't', 'e', 'r', 'y']
}

/// `name` equals "battery" up to ASCII case.
pub open spec fn is_battery_name(name: Seq<char>) -> bool {
    &&& name.len() == battery_word().len()
    &&& forall|i: int| 0 <= i < name.len() ==> ascii_lower_code(#[trigger] name[i]) == battery_word()[i] as u32
}

/// Whether a sensor is the battery temperature sensor (ASCII case-insensitive).
pub fn is_battery_sensor(name: &str) -> (b: bool)
    ensures
        b == is_battery_name(name@),
{
    let word: [char; 7] = ['b', 'a', 't', 't', 'e', 'r', 'y'];
    assert(word@ =~= battery_word());
    let n = name.unicode_len();
    if n != 7 {
        return false;
    }
    let mut i: usize = 0;
    while i < 7
        invariant
            n == name@.len(),
            n == 7,
            i <= 7,
            word@ == battery_word(),
            forall|k: int| 0 <= k < i ==> ascii_lower_code(#[trigger] name@[k]) == battery_word()[k] as u32,
        decreases 7 - i,
    {
        let c = name.get_char(i);
        let u = c as u32;
        let lower = if 65 <= u && u <= 90 { u + 32 } else { u };
        assert(lower == ascii_lower_code(name@[i as int]));
        if lower != word[i] as u32 {
            return false;
        }
        i = i + 1;
    }
    true
}

pub open spec fn opt_max(a: Option<int>, b: int) -> Option<int> {
    match a {
        None => Some(b),
        Some(x) => Some(if x >= b { x } else { b }),
    }
}

/// Hottest reading, skipping the battery sensor when `skip_battery`.
pub open spec fn max_temp(temps: Seq<(String, i32)>, skip_battery: bool) -> Option<int>
    decreases temps.len(),
{
    if temps.len() == 0 {
        None
    } else {
        let rest = max_temp(temps.drop_last(), skip_battery);
        let e = temps.last();
        if skip_battery && is_battery_name(e.0@) { rest } else { opt_max(rest, e.1 as int) }
    }
}

/// Reading of the sensor called `name`, if there is one.
pub open spec fn lookup_temp(temps: Seq<(String, i32)>, name: Seq<char>) -> Option<int>
    decreases temps.len(),
{
    if temps.len() == 0 {
        None
    } else if temps[0].0@ == name {
        Some(temps[0].1 as int)
    } else {
        lookup_temp(temps.drop_first(), name)
    }
}

/// Hottest reading among the configured sensors that have a reading.
pub open spec fn configured_max(temps: Seq<(String, i32)>, sensors: Seq<String>) -> Option<int>
    decreases sensors.len(),
{
    if sensors.len() == 0 {
        None
    } else {
        let rest = configured_max(temps, sensors.drop_last());
        match lookup_temp(temps, sensors.last()@) {
            Some(t) => opt_max(rest, t),
            None => rest,
        }
    }
}

/// Temperature that drives the fan curve.
pub open spec fn control_temp(temps: Seq<(String, i32)>, sensors: Seq<String>) -> int {
    let fallback = match max_temp(temps, true) {
        Some(t) => t,
        None => match max_temp(temps, false) {
            Some(t) => t,
            None => 0,
        },
    };
    if sensors.len() == 0 {
        fallback
    } else {
        match configured_max(temps, sensors) {
            Some(t) => t,
            None => fallback,
        }
    }
}

/// No two readings are of sensors with the same name (as in a map keyed by
/// sensor name).
pub open spec fn distinct_sensors(temps: Seq<(String, i32)>) -> bool {
    forall|i: int, j: int| 0 <= i < j < temps.len() ==> #[trigger] temps[i].0@ != #[trigger] temps[j].0@
}

/// Reading `i` counts for the maximum (the battery sensor is skipped when
/// `skip_battery`).
pub open spec fn counts(temps: Seq<(String, i32)>, skip_battery: bool, i: int) -> bool {
    !(skip_battery && is_battery_name(temps[i].0@))
}

/// Reading `i` is of one of the configured `sensors`.
pub open spec fn configured_reading(temps: Seq<(String, i32)>, sensors: Seq<String>, i: int) -> bool {
    exists|j: int| 0 <= j < sensors.len() && #[trigger] sensors[j]@ == temps[i].0@
}

/// `v` is the largest reading that counts, and one of them.
pub open spec fn max_counted(temps: Seq<(String, i32)>, skip_battery: bool, v: int) -> bool {
    &&& exists|i: int| 0 <= i < temps.len() && #[trigger] counts(temps, skip_battery, i) && temps[i].1 == v
    &&& forall|i: int| 0 <= i < temps.len() && #[trigger] counts(temps, skip_battery, i) ==> temps[i].1 <= v
}

/// `v` is the largest reading of a configured sensor, and one of them.
pub open spec fn max_configured(temps: Seq<(String, i32)>, sensors: Seq<String>, v: int) -> bool {
    &&& exists|i: int| 0 <= i < temps.len() && #[trigger] configured_reading(temps, sensors, i) && temps[i].1 == v
    &&& forall|i: int| 0 <= i < temps.len() && #[trigger] configured_reading(temps, sensors, i) ==> temps[i].1 <= v
}

proof fn lemma_max_temp(temps: Seq<(String, i32)>, skip_battery: bool)
    ensures
        match max_temp(temps, skip_battery) {
            None => forall|i: int| 0 <= i < temps.len() ==> !#[trigger] counts(temps, skip_battery, i),
            Some(v) => max_counted(temps, skip_battery, v),
        },
    decreases temps.len(),
{
    if temps.len() > 0 {
        let rest = temps.drop_last();
        let n = temps.len() - 1;
        lemma_max_temp(rest, skip_battery);
        assert(temps.last() == temps[n]);
        assert forall|i: int| 0 <= i < n implies #[trigger] counts(temps, skip_battery, i) == counts(rest, skip_battery, i) by {
            assert(rest[i] == temps[i]);
        }
        let cn = counts(temps, skip_battery, n);
        match max_temp(rest, skip_battery) {
            None => {
                assert forall|i: int| 0 <= i < n implies !#[trigger] counts(temps, skip_battery, i) by {
                    assert(!counts(rest, skip_battery, i));
                }
                if cn {
                    assert(max_temp(temps, skip_battery) == Some(temps[n].1 as int));
                    assert(counts(temps, skip_battery, n) && temps[n].1 == temps[n].1);
                }
            },
            Some(w) => {
                let i0 = choose|i: int| 0 <= i < rest.len() && #[trigger] counts(rest, skip_battery, i) && rest[i].1 == w;
                assert(rest[i0] == temps[i0]);
                assert(counts(temps, skip_battery, i0));
                assert forall|i: int| 0 <= i < n && #[trigger] counts(temps, skip_battery, i) implies temps[i].1 <= w by {
                    assert(counts(rest, skip_battery, i));
                    assert(rest[i] == temps[i]);
                }
                if cn {
                    let v = if w >= temps[n].1 { w } else { temps[n].1 as int };
                    assert(max_temp(temps, skip_battery) == Some(v));
                    assert(counts(temps, skip_battery, n));
                } else {
                    assert(max_temp(temps, skip_battery) == Some(w));
                }
            },
        }
    }
}

proof fn lemma_lookup_temp(temps: Seq<(String, i32)>, name: Seq<char>)
    requires
        distinct_sensors(temps),
    ensures
        forall|i: int| 0 <= i < temps.len() && #[trigger] temps[i].0@ == name ==> lookup_temp(temps, name) == Some(
            temps[i].1 as int,
        ),
        (forall|i: int| 0 <= i < temps.len() ==> #[trigger] temps[i].0@ != name) ==> lookup_temp(temps, name) is None,
    decreases temps.len(),
{
    if temps.len() > 0 {
        let rest = temps.drop_first();
        assert(distinct_sensors(rest)) by {
            assert forall|i: int, j: int| 0 <= i < j < rest.len() implies #[trigger] rest[i].0@ != #[trigger] rest[j].0@ by {
                assert(rest[i] == temps[i + 1] && rest[j] == temps[j + 1]);
            }
        }
        lemma_lookup_temp(rest, name);
        assert forall|i: int| 0 <= i < temps.len() && #[trigger] temps[i].0@ == name implies lookup_temp(temps, name) == Some(
            temps[i].1 as int,
        ) by {
            if i > 0 {
                assert(temps[0].0@ != temps[i].0@);
                assert(rest[i - 1] == temps[i]);
            }
        }
        if forall|i: int| 0 <= i < temps.len() ==> #[trigger] temps[i].0@ != name {
            assert(temps[0].0@ != name);
            assert forall|i: int| 0 <= i < rest.len() implies #[trigger] rest[i].0@ != name by {
                assert(rest[i] == temps[i + 1]);
            }
        }
    }
}

proof fn lemma_configured_max(temps: Seq<(String, i32)>, sensors: Seq<String>)
    requires
        distinct_sensors(temps),
    ensures
        match configured_max(temps, sensors) {
            None => forall|i: int| 0 <= i < temps.len() ==> !#[trigger] configured_reading(temps, sensors, i),
            Some(v) => max_configured(temps, sensors, v),
        },
    decreases sensors.len(),
{
    if sensors.len() == 0 {
        assert forall|i: int| 0 <= i < temps.len() implies !#[trigger] configured_reading(temps, sensors, i) by {}
    } else {
        let rest = sensors.drop_last();
        let n = sensors.len() - 1;
        let name = sensors[n]@;
        assert(sensors.last() == sensors[n]);
        lemma_configured_max(temps, rest);
        lemma_lookup_temp(temps, name);
        assert forall|i: int| 0 <= i < temps.len() implies #[trigger] configured_reading(temps, sensors, i)
            == (configured_reading(temps, rest, i) || temps[i].0@ == name) by {
            if configured_reading(temps, sensors, i) {
                let j = choose|j: int| 0 <= j < sensors.len() && #[trigger] sensors[j]@ == temps[i].0@;
                if j < n {
                    assert(rest[j] == sensors[j]);
                }
            }
            if configured_reading(temps, rest, i) {
                let j = choose|j: int| 0 <= j < rest.len() && #[trigger] rest[j]@ == temps[i].0@;
                assert(sensors[j] == rest[j]);
            }
            if temps[i].0@ == name {
                assert(sensors[n]@ == temps[i].0@);
            }
        }
        if exists|i: int| 0 <= i < temps.len() && #[trigger] temps[i].0@ == name {
            let k = choose|i: int| 0 <= i < temps.len() && #[trigger] temps[i].0@ == name;
            let tk = temps[k].1 as int;
            assert(lookup_temp(temps, name) == Some(tk));
            assert(configured_reading(temps, sensors, k));
            assert forall|i: int| 0 <= i < temps.len() && #[trigger] temps[i].0@ == name implies i == k by {
                if i < k {
                    assert(temps[i].0@ != temps[k].0@);
                } else if i > k {
                    assert(temps[k].0@ != temps[i].0@);
                }
            }
            match configured_max(temps, rest) {
                None => {
                    assert(configured_max(temps, sensors) == Some(tk));
                    assert forall|i: int| 0 <= i < temps.len() && #[trigger] configured_reading(temps, sensors, i) implies temps[i].1 <= tk by {
                        assert(!configured_reading(temps, rest, i));
                        assert(temps[i].0@ == name);
                    }
                },
                Some(w) => {
                    let v = if w >= tk { w } else { tk };
                    assert(configured_max(temps, sensors) == Some(v));
                    let i0 = choose|i: int| 0 <= i < temps.len() && #[trigger] configured_reading(temps, rest, i) && temps[i].1 == w;
                    assert(configured_reading(temps, sensors, i0));
                    assert forall|i: int| 0 <= i < temps.len() && #[trigger] configured_reading(temps, sensors, i) implies temps[i].1 <= v by {
                        if configured_reading(temps, rest, i) {
                            assert(temps[i].1 <= w);
                        } else {
                            assert(temps[i].0@ == name);
                        }
                    }
                },
            }
        } else {
            assert(lookup_temp(temps, name) is None);
            assert(configured_max(temps, sensors) == configured_max(temps, rest));
            match configured_max(temps, rest) {
                None => {
                    assert forall|i: int| 0 <= i < temps.len() implies !#[trigger] configured_reading(temps, sensors, i) by {
                        assert(!configured_reading(temps, rest, i));
                        assert(temps[i].0@ != name);
                    }
                },
                Some(w) => {
                    let i0 = choose|i: int| 0 <= i < temps.len() && #[trigger] configured_reading(temps, rest, i) && temps[i].1 == w;
                    assert(configured_reading(temps, sensors, i0));
                    assert forall|i: int| 0 <= i < temps.len() && #[trigger] configured_reading(temps, sensors, i) implies temps[i].1 <= w by {
                        assert(temps[i].0@ != name);
                        assert(configured_reading(temps, rest, i));
                    }
                },
            }
        }
    }
}

/// Law: over readings of distinct sensors (a map from sensor name to
/// temperature), the control temperature is the hottest reading of a
/// configured sensor when any configured sensor has one; else the hottest
/// reading of a sensor other than the battery; else the hottest reading;
/// else 0.
pub proof fn lemma_control_temp_direct(temps: Seq<(String, i32)>, sensors: Seq<String>)
    requires
        distinct_sensors(temps),
    ensures
        ({
            let t = control_temp(temps, sensors);
            if exists|i: int| 0 <= i < temps.len() && #[trigger] configured_reading(temps, sensors, i) {
                max_configured(temps, sensors, t)
            } else if exists|i: int| 0 <= i < temps.len() && #[trigger] counts(temps, true, i) {
                max_counted(temps, true, t)
            } else if temps.len() > 0 {
                max_counted(temps, false, t)
            } else {
                t == 0
            }
        }),
{
    lemma_max_temp(temps, true);
    lemma_max_temp(temps, false);
    lemma_configured_max(temps, sensors);
    if temps.len() > 0 {
        assert(counts(temps, false, 0));
    }
}

fn max_reading(temps: &[(String, i32)], skip_battery: bool) -> (r: Option<i32>)
    ensures
        match r {
            Some(t) => max_temp(temps@, skip_battery) == Some(t as int),
            None => max_temp(temps@, skip_battery) is None,
        },
{
    let mut acc: Option<i32> = None;
    let mut i: usize = 0;
    while i < temps.len()
        invariant
            i <= temps@.len(),
            match acc {
                Some(t) => max_temp(temps@.take(i as int), skip_battery) == Some(t as int),
                None => max_temp(temps@.take(i as int), skip_battery) is None,
            },
        decreases temps@.len() - i,
    {
        let ghost pre = temps@.take(i as int);
        let e = &temps[i];
        let skip = skip_battery && is_battery_sensor(e.0.as_str());
        if !skip {
            acc = match acc {
                None => Some(e.1),
                Some(t) => Some(if t >= e.1 { t } else { e.1 }),
            };
        }
        i = i + 1;
        assert(temps@.take(i as int).drop_last() =~= pre);
    }
    assert(temps@.take(temps@.len() as int) =~= temps@);
    acc
}

fn find_reading(temps: &[(String, i32)], name: &String) -> (r: Option<i32>)
    ensures
        match r {
            Some(t) => lookup_temp(temps@, name@) == Some(t as int),
            None => lookup_temp(temps@, name@) is None,
        },
{
    let mut i: usize = 0;
    assert(temps@.skip(0) =~= temps@);
    while i < temps.len()
        invariant
            i <= temps@.len(),
            lookup_temp(temps@, name@) == lookup_temp(temps@.skip(i as int), name@),
        decreases temps@.len() - i,
    {
        let e = &temps[i];
        if e.0 == *name {
            return Some(e.1);
        }
        assert(temps@.skip(i as int).drop_first() =~= temps@.skip(i + 1));
        i = i + 1;
    }
    None
}

/// Temperature that drives the fan curve: the hottest of the configured
/// sensors that have a reading; otherwise (or with no sensor configured)
/// the hottest non-battery sensor, then the hottest sensor, then 0.
pub fn curve_control_temp(temps: &[(String, i32)], sensors: &[String]) -> (t: i32)
    ensures
        t == control_temp(temps@, sensors@),
{
    let fallback = match max_reading(temps, true) {
        Some(t) => t,
        None => match max_reading(temps, false) {
            Some(t) => t,
            None => 0,
        },
    };
    if sensors.len() == 0 {
        return fallback;
    }
    let mut acc: Option<i32> = None;
    let mut i: usize = 0;
    while i < sensors.len()
        invariant
            i <= sensors@.len(),
            match acc {
                Some(t) => configured_max(temps@, sensors@.take(i as int)) == Some(t as int),
                None => configured_max(temps@, sensors@.take(i as int)) is None,
            },
        decreases sensors@.len() - i,
    {
        let ghost pre = sensors@.take(i as int);
        match find_reading(temps, &sensors[i]) {
            Some(v) => {
                acc = match acc {
                    None => Some(v),
                    Some(t) => Some(if t >= v { t } else { v }),
                };
            },
            None => {},
        }
        i = i + 1;
        assert(sensors@.take(i as int).drop_last() =~= pre);
    }
    assert(sensors@.take(sensors@.len() as int) =~= sensors@);
    match acc {
        Some(t) => t,
        None => fallback,
    }
}

// ---------------------------------------------------------------------------
// Sensor list ordering
// ---------------------------------------------------------------------------

/// Number of entries of `list` named `k`.
pub open spec fn count_named(list: Seq<String>, k: Seq<char>) -> nat
    decreases list.len(),
{
    if list.len() == 0 {
        0
    } else {
        count_named(list.drop_last(), k) + if list.last()@ == k { 1nat } else { 0nat }
    }
}

/// Whether `keys[j]` is the last key with its name: a name that occurs
/// several times among the keys takes the position of its last occurrence.
pub open spec fn last_occurrence(keys: Seq<String>, j: int) -> bool {
    forall|i: int| j < i < keys.len() ==> #[trigger] keys[i]@ != keys[j]@
}

/// The entries of `source` that are keys, ordered by the position of their
/// last occurrence among the keys (entries with the same name keep their
/// multiplicity), considering the first `j` keys.
pub open spec fn ordered_by_keys(source: Seq<String>, keys: Seq<String>, j: int) -> Seq<String>
    decreases j,
{
    if j <= 0 {
        seq![]
    } else {
        let k = keys[j - 1];
        ordered_by_keys(source, keys, j - 1) + if last_occurrence(keys, j - 1) {
            Seq::new(count_named(source, k@), |_i: int| k)
        } else {
            seq![]
        }
    }
}

/// The sensors to show, in the order of the sensor keys.
pub open spec fn sensor_list(selected: Seq<String>, keys: Seq<String>) -> Seq<String> {
    let source = if selected.len() == 0 { keys } else { selected };
    ordered_by_keys(source, keys, keys.len() as int)
}

/// No two entries of `s` have the same name.
pub open spec fn distinct_names(s: Seq<String>) -> bool {
    forall|i: int, j: int| 0 <= i < j < s.len() ==> #[trigger] s[i]@ != #[trigger] s[j]@
}

/// Some entry of `s` is named `n`.
pub open spec fn has_name(s: Seq<String>, n: Seq<char>) -> bool {
    exists|i: int| 0 <= i < s.len() && #[trigger] s[i]@ == n
}

proof fn lemma_count_named_distinct(list: Seq<String>, k: Seq<char>)
    requires
        distinct_names(list),
    ensures
        count_named(list, k) == if has_name(list, k) { 1nat } else { 0nat },
    decreases list.len(),
{
    if list.len() > 0 {
        let rest = list.drop_last();
        assert(distinct_names(rest)) by {
            assert forall|i: int, j: int| 0 <= i < j < rest.len() implies #[trigger] rest[i]@ != #[trigger] rest[j]@ by {
                assert(rest[i] == list[i] && rest[j] == list[j]);
            }
        }
        lemma_count_named_distinct(rest, k);
        let n = list.len() - 1;
        if has_name(rest, k) {
            let i = choose|i: int| 0 <= i < rest.len() && #[trigger] rest[i]@ == k;
            assert(list[i]@ == k);
            assert(list[i]@ != list[n]@);
            assert(has_name(list, k));
        } else if list.last()@ == k {
            assert(list[n]@ == k);
            assert(has_name(list, k));
        } else {
            assert(!has_name(list, k)) by {
                if has_name(list, k) {
                    let i = choose|i: int| 0 <= i < list.len() && #[trigger] list[i]@ == k;
                    assert(i != n);
                    assert(rest[i]@ == k);
                }
            }
        }
    }
}

proof fn lemma_ordered_by_keys_filters(source: Seq<String>, keys: Seq<String>, j: int)
    requires
        distinct_names(source),
        distinct_names(keys),
        0 <= j <= keys.len(),
    ensures
        ordered_by_keys(source, keys, j) == keys.take(j).filter(|k: String| has_name(source, k@)),
    decreases j,
{
    reveal(Seq::filter);
    let pred = |k: String| has_name(source, k@);
    if j == 0 {
        assert(keys.take(0) =~= Seq::<String>::empty());
    } else {
        lemma_ordered_by_keys_filters(source, keys, j - 1);
        let k = keys[j - 1];
        assert(last_occurrence(keys, j - 1));
        lemma_count_named_distinct(source, k@);
        assert(keys.take(j).drop_last() =~= keys.take(j - 1));
        assert(keys.take(j).last() == k);
        let prev = ordered_by_keys(source, keys, j - 1);
        if has_name(source, k@) {
            assert(Seq::new(1nat, |_i: int| k) =~= seq![k]);
            assert(prev + seq![k] =~= prev.push(k));
        } else {
            assert(Seq::new(0nat, |_i: int| k) =~= Seq::<String>::empty());
            assert(prev + Seq::<String>::empty() =~= prev);
        }
    }
}

proof fn lemma_ordered_by_own_keys(keys: Seq<String>, j: int)
    requires
        distinct_names(keys),
        0 <= j <= keys.len(),
    ensures
        ordered_by_keys(keys, keys, j) == keys.take(j),
    decreases j,
{
    if j == 0 {
        assert(keys.take(0) =~= Seq::<String>::empty());
    } else {
        lemma_ordered_by_own_keys(keys, j - 1);
        let k = keys[j - 1];
        assert(last_occurrence(keys, j - 1));
        lemma_count_named_distinct(keys, k@);
        assert(keys[j - 1]@ == k@);
        assert(has_name(keys, k@));
        assert(Seq::new(1nat, |_i: int| k) =~= seq![k]);
        assert(keys.take(j - 1) + seq![k] =~= keys.take(j));
    }
}

/// Law: when neither the selection nor the keys repeat a name, the sensor
/// list is all keys for an empty selection, and otherwise the keys that are
/// selected, in key order (selected names that are no key are dropped).
pub proof fn lemma_sensor_list_filters_keys(selected: Seq<String>, keys: Seq<String>)
    requires
        distinct_names(selected),
        distinct_names(keys),
    ensures
        selected.len() == 0 ==> sensor_list(selected, keys) == keys,
        selected.len() > 0 ==> sensor_list(selected, keys) == keys.filter(|k: String| has_name(selected, k@)),
{
    if selected.len() == 0 {
        lemma_ordered_by_own_keys(keys, keys.len() as int);
        assert(keys.take(keys.len() as int) =~= keys);
    } else {
        lemma_ordered_by_keys_filters(selected, keys, keys.len() as int);
        assert(keys.take(keys.len() as int) =~= keys);
    }
}

fn count_name(list: &[String], k: &String) -> (n: usize)
    ensures
        n == count_named(list@, k@),
{
    let mut n: usize = 0;
    let mut i: usize = 0;
    while i < list.len()
        invariant
            i <= list@.len(),
            n == count_named(list@.take(i as int), k@),
            n <= i,
        decreases list@.len() - i,
    {
        let ghost pre = list@.take(i as int);
        if list[i] == *k {
            n = n + 1;
        }
        i = i + 1;
        assert(list@.take(i as int).drop_last() =~= pre);
    }
    assert(list@.take(list@.len() as int) =~= list@);
    n
}

fn is_last_occurrence(keys: &[String], j: usize) -> (b: bool)
    requires
        j < keys@.len(),
    ensures
        b == last_occurrence(keys@, j as int),
{
    let n: usize = keys.len();
    let mut i: usize = j + 1;
    while i < n
        invariant
            j < i <= n,
            n == keys@.len(),
            forall|a: int| j < a < i ==> #[trigger] keys@[a]@ != keys@[j as int]@,
        decreases keys@.len() - i,
    {
        if keys[i] == keys[j] {
            return false;
        }
        i = i + 1;
    }
    true
}

/// Sensors to display: the selected ones that still exist (all keys when
/// nothing is selected), ordered as the keys are; a key name that occurs
/// more than once among the keys sorts at its last position.
pub fn sorted_sensor_list(selected: &[String], sensor_keys: &[String]) -> (list: Vec<String>)
    ensures
        list@ == sensor_list(selected@, sensor_keys@),
{
    let source: &[String] = if selected.len() == 0 { sensor_keys } else { selected };
    let mut list: Vec<String> = Vec::new();
    let mut j: usize = 0;
    while j < sensor_keys.len()
        invariant
            j <= sensor_keys@.len(),
            source@ == (if selected@.len() == 0 { sensor_keys@ } else { selected@ }),
            list@ == ordered_by_keys(source@, sensor_keys@, j as int),
        decreases sensor_keys@.len() - j,
    {
        if is_last_occurrence(sensor_keys, j) {
            let c = count_name(source, &sensor_keys[j]);
            let ghost before = list@;
            let mut m: usize = 0;
            while m < c
                invariant
                    j < sensor_keys@.len(),
                    m <= c,
                    list@ == before + Seq::new(m as nat, |_i: int| sensor_keys@[j as int]),
                decreases c - m,
            {
                let s = sensor_keys[j].clone();
                list.push(s);
                m = m + 1;
                assert(list@ =~= before + Seq::new(m as nat, |_i: int| sensor_keys@[j as int]));
            }
        } else {
            assert(list@ =~= ordered_by_keys(source@, sensor_keys@, j as int) + seq![]);
        }
        j = j + 1;
    }
    list
}

} // verus!
