//! Colours: vectors of red, green and blue.

use vstd::prelude::*;
use crate::interval::{Interval, IntervalParameter};
use crate::scalar::Scalar;
use crate::vec3::Vec3;

verus! {

/// A colour, by its red, green and blue parts.
pub type Color = Vec3;

/// Bit pattern of `0.999`, the greatest intensity written.
pub const INTENSITY_MAX_BITS: u64 = 0x3fef_f7ce_d916_872b;

/// Bit pattern of `256.0`, the number of levels of a part.
pub const LEVELS_BITS: u64 = 0x4070_0000_0000_0000;

/// The square root of a positive part, and zero for every other.
pub open spec fn spec_linear_to_gamma(linear_component: Scalar) -> Scalar {
    if linear_component.gt(Scalar { bits: 0 }) {
        linear_component.sqrt()
    } else {
        Scalar { bits: 0 }
    }
}

/// Applies the inverse of the gamma 2 transfer: the square root of a positive
/// part, and zero for every other.
#[verifier::when_used_as_spec(spec_linear_to_gamma)]
pub fn linear_to_gamma(linear_component: Scalar) -> (r: Scalar)
    ensures
        r == spec_linear_to_gamma(linear_component),
{
    if linear_component.gt(Scalar { bits: 0 }) {
        return linear_component.sqrt();
    }
    Scalar { bits: 0 }
}

/// The level from 0 to 255 at which a part of a colour is written: the part
/// after gamma correction, clamped to the range from 0 to 0.999, times 256,
/// cut to a whole number.
pub open spec fn spec_channel_level(linear_component: Scalar) -> i32 {
    let intensity = Interval {
        min: Scalar { bits: 0 },
        max: Scalar { bits: INTENSITY_MAX_BITS },
    };
    Scalar { bits: LEVELS_BITS }.mul(
        intensity.clamp(spec_linear_to_gamma(linear_component)),
    ).to_i32()
}

#[verifier::when_used_as_spec(spec_channel_level)]
pub fn channel_level(linear_component: Scalar) -> (level: i32)
    ensures
        level == spec_channel_level(linear_component),
{
    let intensity = Interval::new(
        IntervalParameter::Range {
            min: Scalar { bits: 0 },
            max: Scalar { bits: INTENSITY_MAX_BITS },
        },
    );
    Scalar { bits: LEVELS_BITS }.mul(intensity.clamp(linear_to_gamma(linear_component))).to_i32()
}

/// The levels of red, green and blue at which a colour is written.
pub fn color_levels(color: &Color) -> (levels: (i32, i32, i32))
    ensures
        levels == (
            spec_channel_level(color.x()),
            spec_channel_level(color.y()),
            spec_channel_level(color.z()),
        ),
{
    let rbytes = channel_level(color.x());
    let gbytes = channel_level(color.y());
    let bbytes = channel_level(color.z());
    (rbytes, gbytes, bbytes)
}

/// The decimal digits of `n` as text, the most significant first.
pub open spec fn decimal_digits(n: nat) -> Seq<u8>
    decreases n,
{
    if n < 10 {
        seq![(48 + n) as u8]
    } else {
        decimal_digits(n / 10).push((48 + n % 10) as u8)
    }
}

/// The integer `i` as decimal text, with a minus sign where it is negative.
pub open spec fn decimal(i: int) -> Seq<u8> {
    if i < 0 {
        seq![45u8] + decimal_digits((-i) as nat)
    } else {
        decimal_digits(i as nat)
    }
}

/// The line of a plain PPM image for a pixel with the given levels: the
/// three levels in decimal, with a space between them and a line feed at the
/// end.
pub open spec fn level_line(levels: (i32, i32, i32)) -> Seq<u8> {
    decimal(levels.0 as int) + seq![32u8] + decimal(levels.1 as int) + seq![32u8] + decimal(
        levels.2 as int,
    ) + seq![10u8]
}

/// Writes the integer `i` in decimal at the end of `out`.
pub fn write_decimal(i: i32, out: &mut Vec<u8>)
    ensures
        final(out)@ == old(out)@ + decimal(i as int),
{
    let mut rest: u32 = if i < 0 {
        out.push(45u8);
        (-(i as i64)) as u32
    } else {
        i as u32
    };
    let ghost start = out@;
    let ghost size = rest as nat;
    assert(start + decimal_digits(size) == old(out)@ + decimal(i as int));
    // the digits after the first, the least significant first
    let mut tail: Vec<u8> = Vec::new();
    while rest >= 10
        invariant
            out@ == start,
            decimal_digits(size) == decimal_digits(rest as nat) + tail@.reverse(),
        decreases rest,
    {
        let digit: u8 = (48 + rest % 10) as u8;
        proof {
            assert(tail@.push(digit).reverse() =~= seq![digit] + tail@.reverse());
            assert(decimal_digits(rest as nat).push(digit) + tail@.reverse()
                =~= decimal_digits(rest as nat) + (seq![digit] + tail@.reverse()));
        }
        tail.push(digit);
        rest = rest / 10;
    }
    out.push((48 + rest) as u8);
    let mut k: usize = tail.len();
    while k > 0
        invariant
            k <= tail.len(),
            out@ == start + decimal_digits(rest as nat) + tail@.reverse().subrange(
                0,
                tail.len() - k,
            ),
        decreases k,
    {
        k -= 1;
        out.push(tail[k]);
        proof {
            let turned = tail@.reverse();
            let done = tail.len() - k;
            assert(turned[done - 1] == tail@[k as int]);
            assert(turned.subrange(0, done - 1).push(turned[done - 1]) =~= turned.subrange(
                0,
                done as int,
            ));
        }
    }
    proof {
        assert(tail@.reverse().subrange(0, tail.len() as int) =~= tail@.reverse());
        assert(start + decimal_digits(rest as nat) + tail@.reverse() =~= start + (decimal_digits(
            rest as nat,
        ) + tail@.reverse()));
    }
}

/// Writes the pixel of the colour `color` at the end of `out`, as a line of
/// a plain PPM image: the levels of red, green and blue.
pub fn write_color(color: &Color, out: &mut Vec<u8>)
    ensures
        final(out)@ == old(out)@ + level_line(
            (
                spec_channel_level(color.x()),
                spec_channel_level(color.y()),
                spec_channel_level(color.z()),
            ),
        ),
{
    let levels = color_levels(color);
    write_decimal(levels.0, out);
    out.push(32u8);
    write_decimal(levels.1, out);
    out.push(32u8);
    write_decimal(levels.2, out);
    out.push(10u8);
    proof {
        let line = level_line(levels);
        assert(out@ =~= old(out)@ + line);
    }
}

} // verus!
