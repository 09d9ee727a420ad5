//! Constants and the source of random numbers.

use vstd::prelude::*;
use crate::scalar::Scalar;

verus! {

/// Bit pattern of the binary64 value nearest to pi.
pub const PI_BITS: u64 = 0x4009_21fb_5444_2d18;

/// Bit pattern of `180.0`.
pub const HALF_TURN_BITS: u64 = 0x4066_8000_0000_0000;

/// Calls `rand::random_range` with the range from zero up to, and without,
/// `n`: some index below `n`, which the thread's generator picks. An empty
/// range makes that function panic, so `n` is positive.
#[verifier::external_body]
pub(crate) fn random_below(n: usize) -> (r: usize)
    requires
        n > 0,
    ensures
        r < n,
{
    rand::random_range(0..n)
}

/// Calls `rand::random` for a 64-bit word, which the thread's generator
/// picks. Nothing is claimed of the word.
#[verifier::external_body]
pub(crate) fn random_word() -> (w: u64)
{
    rand::random::<u64>()
}

/// The number `k / 2^53`, where `k` is the upper 53 bits of `word`: one of
/// the `2^53` evenly spaced numbers from zero up to, and without, one.
pub open spec fn spec_unit_interval(word: u64) -> Scalar {
    let k = (word / 2048) as u64;
    if k == 0 {
        Scalar { bits: 0 }
    } else {
        Scalar::spec_from_scaled(k, 1022)
    }
}

/// The number in the unit interval that the random word `word` stands for.
#[verifier::when_used_as_spec(spec_unit_interval)]
pub fn unit_interval(word: u64) -> (r: Scalar)
    ensures
        r == spec_unit_interval(word),
        Scalar::zero().le(r),
        r.lt(Scalar::one()),
{
    let k: u64 = word / 2048;
    if k == 0 {
        return Scalar { bits: 0 };
    }
    Scalar::from_scaled(k, 1022)
}

/// A random number from zero up to, and without, one: the number that a
/// random word stands for.
pub fn random() -> (r: Scalar)
    ensures
        exists|word: u64| r == spec_unit_interval(word),
        Scalar::zero().le(r),
        r.lt(Scalar::one()),
{
    unit_interval(random_word())
}

/// The number that lies the share `unit` of the way from `min` to `max`:
/// `min + (max - min) * unit`.
pub open spec fn spec_lerp(min: Scalar, max: Scalar, unit: Scalar) -> Scalar {
    min.add(max.sub(min).mul(unit))
}

#[verifier::when_used_as_spec(spec_lerp)]
pub fn lerp(min: Scalar, max: Scalar, unit: Scalar) -> (r: Scalar)
    ensures
        r == spec_lerp(min, max, unit),
{
    min.add(max.sub(min).mul(unit))
}

/// A random number between `min` and `max`: the number that lies a random
/// share of the way from `min` to `max`.
pub fn random_range(min: Scalar, max: Scalar) -> (r: Scalar)
    ensures
        exists|word: u64| r == spec_lerp(min, max, spec_unit_interval(word)),
{
    lerp(min, max, random())
}

/// The angle in radians: `degrees * pi / 180`.
pub open spec fn spec_degrees_to_radians(degrees: Scalar) -> Scalar {
    degrees.mul(Scalar { bits: PI_BITS }).div(Scalar { bits: HALF_TURN_BITS })
}

#[verifier::when_used_as_spec(spec_degrees_to_radians)]
pub fn degrees_to_radians(degrees: Scalar) -> (r: Scalar)
    ensures
        r == spec_degrees_to_radians(degrees),
{
    degrees.mul(Scalar { bits: PI_BITS }).div(Scalar { bits: HALF_TURN_BITS })
}

} // verus!
