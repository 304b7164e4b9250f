//! Bridge between 8-bit samples and normalized samples.
use vstd::prelude::*;

verus! {

/// The normalized value of full intensity (1.0), counted in 255ths.
pub const UNIT: i64 = 255;

/// `v` limited to `[lo, hi]`.
pub open spec fn clamp_int(v: int, lo: int, hi: int) -> int {
    if v < lo {
        lo
    } else if v > hi {
        hi
    } else {
        v
    }
}

/// `t / 2` rounded to the nearest integer, ties to the even one.
pub open spec fn half_round_even(t: int) -> int {
    if t % 2 == 0 {
        t / 2
    } else if (t / 2) % 2 == 0 {
        t / 2
    } else {
        t / 2 + 1
    }
}

/// The normalized form of an 8-bit sample: `u / 255`.
pub open spec fn unit_of(u: u8) -> int {
    u as int
}

/// The 8-bit sample of a normalized value `f / 255`: `f / 255 * 255`, rounded
/// (it is already whole) and limited to the sample range.
pub open spec fn sample_of_unit(f: int) -> u8 {
    clamp_int(f, 0, 255) as u8
}

/// The signed normalized form of an 8-bit sample: `(u / 255 - 0.5) * 2`,
/// that is `(2u - 255) / 255`.
pub open spec fn signed_unit_of(u: u8) -> int {
    2 * u - 255
}

/// The 8-bit sample of a signed normalized value `f / 255`: the sample of
/// `(f / 255 + 1) / 2`, whose scaled value `(f + 255) / 2` is rounded half to even.
pub open spec fn sample_of_signed_unit(f: int) -> u8 {
    clamp_int(half_round_even(f + 255), 0, 255) as u8
}

/// Normalizes an 8-bit sample to `[0, 1]`.
pub fn to_unit(u: u8) -> (r: i64)
    ensures
        r == unit_of(u),
        0 <= r <= UNIT,
{
    u as i64
}

/// Turns a normalized value back into an 8-bit sample, capping values above
/// 1.0 and below 0.0.
pub fn from_unit(f: i64) -> (r: u8)
    ensures
        r == sample_of_unit(f as int),
{
    if f < 0 {
        0
    } else if f > UNIT {
        255
    } else {
        f as u8
    }
}

/// Normalizes an 8-bit sample to `[-1, 1]`.
pub fn to_signed_unit(u: u8) -> (r: i64)
    ensures
        r == signed_unit_of(u),
        -UNIT <= r <= UNIT,
{
    2 * (u as i64) - UNIT
}

/// Turns a signed normalized value back into an 8-bit sample.
pub fn from_signed_unit(f: i64) -> (r: u8)
    ensures
        r == sample_of_signed_unit(f as int),
{
    let t: i128 = f as i128 + UNIT as i128;
    let h: i128 = t / 2;
    let rounded: i128 = if t % 2 == 0 {
        h
    } else if h % 2 == 0 {
        h
    } else {
        h + 1
    };
    if rounded < 0 {
        0
    } else if rounded > 255 {
        255
    } else {
        rounded as u8
    }
}

/// Every 8-bit sample survives the trip through both normalized forms.
pub proof fn lemma_round_trip(u: u8)
    ensures
        sample_of_unit(unit_of(u)) == u,
        sample_of_signed_unit(signed_unit_of(u)) == u,
{
    assert(half_round_even(signed_unit_of(u) + 255) == u);
}

/// Normalization never reverses the order of two samples, sends 0 to 0.0
/// and 255 to 1.0.
pub proof fn lemma_unit_monotone(a: u8, b: u8)
    ensures
        a <= b ==> unit_of(a) <= unit_of(b),
        unit_of(0) == 0,
        unit_of(255) == UNIT,
{
}

} // verus!
