//! Bit layout of the Intel package power limit registers (MSR 0x610 and its
//! MMIO mirror) and of the RAPL unit register (MSR 0x606).
//!
//! Each 32-bit half of the power limit register holds one limit:
//! bits 0..15 the limit in power units, bit 15 enable, bit 16 clamp,
//! bits 17..22 the time-window exponent Y and bits 22..24 the time-window
//! fraction Z; PL1 is the low half, PL2 the high half.
use vstd::prelude::*;

verus! {

/// Version of the PawnIO module blobs the application ships with.
pub fn pawnio_modules_version() -> (v: &'static str)
    ensures
        v@ == "0.2.10"@,
{
    "0.2.10"
}

/// MSR of the RAPL units.
pub const MSR_RAPL_POWER_UNIT: u64 = 0x606;

/// MSR of the package power limits.
pub const MSR_PKG_POWER_LIMIT: u64 = 0x610;

/// MCHBAR offset of the package power limits mirror.
pub const MMIO_PKG_POWER_LIMIT: u64 = 0x59A0;

/// The fields of one power limit (one 32-bit half of the register).
#[derive(Clone, Copy, Debug, PartialEq, Eq, Structural)]
pub struct PowerLimitFields {
    /// The limit in power units (15 bits).
    pub power_raw: u32,
    pub enabled: bool,
    pub clamped: bool,
    /// Time-window exponent Y (5 bits).
    pub time_y: u32,
    /// Time-window fraction Z (2 bits).
    pub time_z: u32,
}

/// The fields held in the low 24 bits of `raw`.
pub open spec fn fields_of(raw: u64) -> PowerLimitFields {
    PowerLimitFields {
        power_raw: (raw % 0x8000) as u32,
        enabled: (raw / 0x8000) % 2 == 1,
        clamped: (raw / 0x1_0000) % 2 == 1,
        time_y: ((raw / 0x2_0000) % 32) as u32,
        time_z: ((raw / 0x40_0000) % 4) as u32,
    }
}

/// The register half holding the given fields, each cut to its width.
pub open spec fn encoded(power_raw: u32, enabled: bool, clamped: bool, time_y: u32, time_z: u32) -> int {
    (power_raw % 0x8000) as int
        + (if enabled { 0x8000int } else { 0int })
        + (if clamped { 0x1_0000int } else { 0int })
        + (time_y % 32) as int * 0x2_0000
        + (time_z % 4) as int * 0x40_0000
}

/// Every field fits its width.
pub open spec fn fields_in_range(f: PowerLimitFields) -> bool {
    f.power_raw < 0x8000 && f.time_y < 32 && f.time_z < 4
}

/// The power limit held in the low 24 bits of `raw` (pass `raw >> 32` for
/// the high half).
pub fn decode_power_limit(raw: u64) -> (f: PowerLimitFields)
    ensures
        f == fields_of(raw),
{
    let power_raw = raw & 0x7FFF;
    let en = (raw >> 15) & 1;
    let cl = (raw >> 16) & 1;
    let y = (raw >> 17) & 0x1F;
    let z = (raw >> 22) & 0x3;
    assert(power_raw == raw % 0x8000 && en == (raw / 0x8000) % 2 && cl == (raw / 0x1_0000) % 2
        && y == (raw / 0x2_0000) % 32 && z == (raw / 0x40_0000) % 4) by (bit_vector)
        requires
            power_raw == raw & 0x7FFF,
            en == (raw >> 15) & 1,
            cl == (raw >> 16) & 1,
            y == (raw >> 17) & 0x1F,
            z == (raw >> 22) & 0x3;
    PowerLimitFields {
        power_raw: power_raw as u32,
        enabled: en == 1,
        clamped: cl == 1,
        time_y: y as u32,
        time_z: z as u32,
    }
}

/// The register half holding a power limit: each field is cut to its width.
pub fn encode_power_limit(power_raw: u32, enabled: bool, clamped: bool, time_y: u32, time_z: u32) -> (v: u32)
    ensures
        v == encoded(power_raw, enabled, clamped, time_y, time_z),
{
    let e: u32 = if enabled { 1 } else { 0 };
    let c: u32 = if clamped { 1 } else { 0 };
    let v = (power_raw & 0x7FFF) | (e << 15) | (c << 16) | ((time_y & 0x1F) << 17) | ((time_z & 0x3) << 22);
    assert(v == (power_raw % 0x8000) + e * 0x8000 + c * 0x1_0000 + (time_y % 32) * 0x2_0000
        + (time_z % 4) * 0x40_0000) by (bit_vector)
        requires
            e <= 1,
            c <= 1,
            v == (power_raw & 0x7FFF) | (e << 15) | (c << 16) | ((time_y & 0x1F) << 17) | ((time_z & 0x3) << 22);
    v
}

/// The full register from its two halves: PL2 high, PL1 low.
pub fn pack_power_limits(pl1: u32, pl2: u32) -> (v: u64)
    ensures
        v == pl2 as int * 0x1_0000_0000 + pl1 as int,
{
    let v = ((pl2 as u64) << 32) | (pl1 as u64);
    assert(v == pl2 as u64 * 0x1_0000_0000 + pl1 as u64) by (bit_vector)
        requires
            v == ((pl2 as u64) << 32) | (pl1 as u64);
    v
}

/// The power and time unit exponents in MSR 0x606: a power unit is
/// `1 / 2^power_bits` W and a time unit `1 / 2^time_bits` s.
pub fn rapl_unit_bits(raw: u64) -> (r: (u32, u32))
    ensures
        r.0 == raw % 16,
        r.1 == (raw / 0x1_0000) % 16,
{
    let p = raw & 0xF;
    let t = (raw >> 16) & 0xF;
    assert(p == raw % 16 && t == (raw / 0x1_0000) % 16) by (bit_vector)
        requires
            p == raw & 0xF,
            t == (raw >> 16) & 0xF;
    (p as u32, t as u32)
}

/// The time window of fields Y and Z in quarter time units:
/// `2^Y × (1 + Z/4)` time units is `2^Y × (4 + Z)` quarters.
pub fn time_window_quarters(time_y: u32, time_z: u32) -> (q: u64)
    requires
        time_y < 32,
        time_z < 4,
    ensures
        q == vstd::arithmetic::power2::pow2(time_y as nat) * (4 + time_z),
{
    let base: u64 = 1u64 << time_y;
    proof {
        vstd::arithmetic::power2::lemma2_to64();
        vstd::arithmetic::power2::lemma_pow2_strictly_increases(time_y as nat, 32);
        vstd::bits::lemma_u64_shl_is_mul(1, time_y as u64);
    }
    assert(base * (4 + time_z as u64) <= 0xFFFF_FFFFu64 * 7) by (nonlinear_arith)
        requires
            base <= 0xFFFF_FFFFu64,
            time_z < 4;
    base * (4 + time_z as u64)
}

/// Law: decoding an encoded power limit gives back its fields, each cut to
/// its width; in particular fields that fit come back unchanged.
pub proof fn lemma_power_limit_roundtrip(power_raw: u32, enabled: bool, clamped: bool, time_y: u32, time_z: u32)
    ensures
        fields_of(encoded(power_raw, enabled, clamped, time_y, time_z) as u64) == (PowerLimitFields {
            power_raw: power_raw % 0x8000,
            enabled,
            clamped,
            time_y: time_y % 32,
            time_z: time_z % 4,
        }),
        fields_in_range(PowerLimitFields { power_raw, enabled, clamped, time_y, time_z }) ==> fields_of(
            encoded(power_raw, enabled, clamped, time_y, time_z) as u64,
        ) == (PowerLimitFields { power_raw, enabled, clamped, time_y, time_z }),
{
    let e: u64 = if enabled { 1 } else { 0 };
    let c: u64 = if clamped { 1 } else { 0 };
    let p = power_raw as u64;
    let y = time_y as u64;
    let z = time_z as u64;
    let v: u64 = ((p % 0x8000) + e * 0x8000 + c * 0x1_0000 + (y % 32) * 0x2_0000 + (z % 4) * 0x40_0000) as u64;
    assert(v % 0x8000 == p % 0x8000 && (v / 0x8000) % 2 == e && (v / 0x1_0000) % 2 == c
        && (v / 0x2_0000) % 32 == y % 32 && (v / 0x40_0000) % 4 == z % 4) by (bit_vector)
        requires
            e <= 1,
            c <= 1,
            p < 0x1_0000_0000,
            y < 0x1_0000_0000,
            z < 0x1_0000_0000,
            v == (p % 0x8000) + e * 0x8000 + c * 0x1_0000 + (y % 32) * 0x2_0000 + (z % 4) * 0x40_0000;
    assert(encoded(power_raw, enabled, clamped, time_y, time_z) == v as int);
}

/// Law: the two halves of a packed register decode to the two limits that
/// were packed.
pub proof fn lemma_pack_halves(pl1: u32, pl2: u32)
    ensures
        ({
            let v = (pl2 as int * 0x1_0000_0000 + pl1 as int) as u64;
            &&& fields_of(v) == fields_of(pl1 as u64)
            &&& fields_of(v >> 32) == fields_of(pl2 as u64)
        }),
{
    let a = pl1 as u64;
    let b = pl2 as u64;
    let v: u64 = (b * 0x1_0000_0000 + a) as u64;
    assert(v % 0x8000 == a % 0x8000 && (v / 0x8000) % 2 == (a / 0x8000) % 2
        && (v / 0x1_0000) % 2 == (a / 0x1_0000) % 2 && (v / 0x2_0000) % 32 == (a / 0x2_0000) % 32
        && (v / 0x40_0000) % 4 == (a / 0x40_0000) % 4 && (v >> 32) == b) by (bit_vector)
        requires
            a < 0x1_0000_0000,
            b < 0x1_0000_0000,
            v == b * 0x1_0000_0000 + a;
}

} // verus!
