//! Real numbers as IEEE 754 binary64 values, held by their bit patterns.
//!
//! Ordering, sign handling, minimum and maximum are integer logic on the bit
//! pattern and are verified here, and so are the conversions from and to
//! whole numbers, which are exact. Rounded arithmetic is done in software:
//! sums, differences, products and quotients by the `rustc_apfloat` crate,
//! square roots
//! by the `softfloat` crate. Each of their results is given a name, so that
//! contracts can say which operations were applied to which operands. The
//! names stand for what those crates compute: nothing here rests on how
//! they round.
//!
//! The root of `softfloat` shifts a machine word by its full width for the
//! least arguments in two bands, which a target with 32-bit words does not
//! allow. `Scalar::sqrt` does not hand it those: it takes their root after
//! scaling by a power of four, which leaves the value of the root as it is.

use vstd::prelude::*;
use rustc_apfloat::ieee::Double;
use rustc_apfloat::Float;
use vstd::arithmetic::div_mod::{lemma_div_by_multiple, lemma_div_is_ordered_by_denominator};
use vstd::arithmetic::power2::{
    lemma2_to64, lemma2_to64_rest, lemma_pow2_pos, lemma_pow2_strictly_increases,
    lemma_pow2_unfold, pow2,
};
use vstd::bits::lemma_u64_shr_is_div;

verus! {

/// The sign bit of a binary64 bit pattern.
pub const SIGN_BIT: u64 = 0x8000_0000_0000_0000;

/// Bit pattern of positive infinity; every larger magnitude is a NaN.
pub const INFINITY_BITS: u64 = 0x7ff0_0000_0000_0000;

/// Bit pattern of negative infinity.
pub const NEG_INFINITY_BITS: u64 = 0xfff0_0000_0000_0000;

/// Two to the power 52: the weight of the hidden leading bit of a
/// significand, and of the lowest bit of the exponent field.
pub const HIDDEN_BIT: u64 = 0x0010_0000_0000_0000;

/// Bit pattern of `0.0`.
pub const ZERO_BITS: u64 = 0;

/// Bit pattern of `1.0`.
pub const ONE_BITS: u64 = 0x3ff0_0000_0000_0000;

/// Bit pattern of `2.0`.
pub const TWO_BITS: u64 = 0x4000_0000_0000_0000;

/// Bit pattern of `0.5`.
pub const HALF_BITS: u64 = 0x3fe0_0000_0000_0000;

/// Bit pattern of two to the power -32.
pub const TWO_TO_MINUS_32_BITS: u64 = 0x3df0_0000_0000_0000;

/// The sum of the binary64 values with bit patterns `a` and `b`, as
/// `rustc_apfloat` rounds it: to the nearest value, ties to even.
pub uninterp spec fn ieee_add(a: u64, b: u64) -> u64;

/// The difference of the binary64 values with bit patterns `a` and `b`, as
/// `rustc_apfloat` rounds it: to the nearest value, ties to even.
pub uninterp spec fn ieee_sub(a: u64, b: u64) -> u64;

/// The product of the binary64 values with bit patterns `a` and `b`, as
/// `rustc_apfloat` rounds it: to the nearest value, ties to even.
pub uninterp spec fn ieee_mul(a: u64, b: u64) -> u64;

/// The quotient of the binary64 value with bit pattern `a` by that with
/// `b`, as `rustc_apfloat` rounds it: to the nearest value, ties to even.
pub uninterp spec fn ieee_div(a: u64, b: u64) -> u64;

/// The square root of the binary64 value with bit pattern `a`, as
/// `softfloat` rounds it.
pub uninterp spec fn soft_sqrt(a: u64) -> u64;

/// Adds, by the `Add` of `rustc_apfloat::ieee::Double`, the two values
/// rebuilt from their bit patterns, and takes the value out of the result.
/// Nothing is claimed of the sum beyond its name.
#[verifier::external_body]
fn add_bits(a: u64, b: u64) -> (r: u64)
    ensures
        r == ieee_add(a, b),
{
    (Double::from_bits(a as u128) + Double::from_bits(b as u128)).value.to_bits() as u64
}

/// Subtracts, by the `Sub` of `rustc_apfloat::ieee::Double`, the second from
/// the first of the two values rebuilt from their bit patterns, and takes
/// the value out of the result. Nothing is claimed of the difference beyond
/// its name.
#[verifier::external_body]
fn sub_bits(a: u64, b: u64) -> (r: u64)
    ensures
        r == ieee_sub(a, b),
{
    (Double::from_bits(a as u128) - Double::from_bits(b as u128)).value.to_bits() as u64
}

/// Multiplies, by the `Mul` of `rustc_apfloat::ieee::Double`, the two values
/// rebuilt from their bit patterns, and takes the value out of the result.
/// Nothing is claimed of the product beyond its name.
#[verifier::external_body]
fn mul_bits(a: u64, b: u64) -> (r: u64)
    ensures
        r == ieee_mul(a, b),
{
    (Double::from_bits(a as u128) * Double::from_bits(b as u128)).value.to_bits() as u64
}

/// Divides, by the `Div` of `rustc_apfloat::ieee::Double`, the two values
/// rebuilt from their bit patterns, and takes the value out of the result.
/// Nothing is claimed of the quotient beyond its name.
#[verifier::external_body]
fn div_bits(a: u64, b: u64) -> (r: u64)
    ensures
        r == ieee_div(a, b),
{
    (Double::from_bits(a as u128) / Double::from_bits(b as u128)).value.to_bits() as u64
}

/// Whether `a` is the bit pattern of one of the numbers below the normal
/// range whose root is taken after scaling: those with the leading bit of
/// the pattern at the place 10 or at the place 31.
pub open spec fn spec_root_is_scaled(a: u64) -> bool {
    (0x400 <= a <= 0x7ff) || (0x8000_0000 <= a <= 0xffff_ffff)
}

/// Calls `softfloat::F64::sqrt` on the value rebuilt from its bit pattern.
/// Nothing is claimed of the root beyond its name. For the patterns left
/// out, that function shifts a `usize` by 32 bits, which panics where a
/// `usize` has 32 bits and overflow is checked.
#[verifier::external_body]
fn sqrt_bits(a: u64) -> (r: u64)
    requires
        !spec_root_is_scaled(a),
    ensures
        r == soft_sqrt(a),
{
    softfloat::F64::from_bits(a).sqrt().to_bits()
}

/// The bit pattern of the positive number `m * 2^(e - 1075)`, for
/// `0 < m < 2^53` and an exponent field `e` of at least one: `m` is doubled
/// and `e` lowered until the leading bit of `m` has the weight `2^52` or `e`
/// is one; the pattern is then the field `e`, less one where the leading bit
/// is missing, above the lower 52 bits of `m`.
pub open spec fn scaled_bits(m: int, e: int) -> int
    decreases e,
{
    if 0 < m < HIDDEN_BIT && 1 < e {
        scaled_bits(2 * m, e - 1)
    } else {
        (e - 1) * HIDDEN_BIT + m
    }
}

/// How far `m` is below `2^52`.
pub open spec fn shortfall(m: int) -> nat {
    if m < HIDDEN_BIT {
        (HIDDEN_BIT - m) as nat
    } else {
        0
    }
}

/// The number of doublings that take `m` to `2^52` or beyond.
pub open spec fn doublings(m: int) -> nat
    decreases shortfall(m),
{
    if 0 < m < HIDDEN_BIT {
        1 + doublings(2 * m)
    } else {
        0
    }
}

/// Doubling `m` as often as `doublings` says brings its leading bit to the
/// weight `2^52`, and takes no more doublings than any number of doublings
/// that reaches `2^52`.
proof fn lemma_doublings(m: int, enough: nat)
    requires
        0 < m < 2 * HIDDEN_BIT,
        m * pow2(enough) >= HIDDEN_BIT,
    ensures
        doublings(m) <= enough,
        HIDDEN_BIT <= m * pow2(doublings(m)) < 2 * HIDDEN_BIT,
    decreases shortfall(m),
{
    lemma2_to64();
    if m < HIDDEN_BIT {
        assert(enough > 0);
        lemma_pow2_unfold(enough);
        assert(2 * m * pow2((enough - 1) as nat) == m * pow2(enough)) by (nonlinear_arith)
            requires
                pow2(enough) == 2 * pow2((enough - 1) as nat),
        ;
        lemma_doublings(2 * m, (enough - 1) as nat);
        let d = doublings(2 * m);
        lemma_pow2_unfold(d + 1);
        assert(m * pow2(d + 1) == 2 * m * pow2(d)) by (nonlinear_arith)
            requires
                pow2(d + 1) == 2 * pow2(d),
        ;
    } else {
        assert(m * pow2(0) == m) by (nonlinear_arith)
            requires
                pow2(0) == 1,
        ;
    }
}

/// The pattern of `m * 2^(e - 1075)` in closed form, where the exponent
/// field leaves room for the doublings: the field lowered by the number of
/// doublings, above the lower 52 bits of `m` doubled that often.
proof fn lemma_scaled_bits(m: int, e: int)
    requires
        0 < m < 2 * HIDDEN_BIT,
        e > doublings(m),
    ensures
        scaled_bits(m, e) == (e - doublings(m) - 1) * HIDDEN_BIT + m * pow2(doublings(m)),
    decreases e,
{
    lemma2_to64();
    if m < HIDDEN_BIT {
        lemma_scaled_bits(2 * m, e - 1);
        let d = doublings(2 * m);
        lemma_pow2_unfold(d + 1);
        assert(m * pow2(d + 1) == 2 * m * pow2(d)) by (nonlinear_arith)
            requires
                pow2(d + 1) == 2 * pow2(d),
        ;
    } else {
        assert(m * pow2(0) == m) by (nonlinear_arith)
            requires
                pow2(0) == 1,
        ;
    }
}

/// Whole numbers pass through scalars unchanged: the scalar made of an
/// integer, cut to a whole number, is that integer.
pub proof fn lemma_whole_numbers_round_trip(i: i32)
    ensures
        Scalar::spec_from_i32(i).spec_to_i32() == i,
{
    if i != 0 {
        let m: int = if i > 0 {
            i as int
        } else {
            -i
        };
        lemma2_to64();
        lemma2_to64_rest();
        assert(m * pow2(52) >= HIDDEN_BIT) by (nonlinear_arith)
            requires
                m >= 1,
                pow2(52) == HIDDEN_BIT,
        ;
        lemma_doublings(m, 52);
        let d = doublings(m);
        lemma_scaled_bits(m, 1075);
        let scaled = m * pow2(d);
        let pattern = scaled_bits(m, 1075);
        assert(pattern == (1074 - d) * HIDDEN_BIT + scaled);
        lemma_pow2_pos(d);
        // fewer than 21 doublings cannot take a number of at most 2^31 to 2^52
        if d < 21 {
            lemma_pow2_strictly_increases(d, 21);
            assert(m * pow2(d) < HIDDEN_BIT) by (nonlinear_arith)
                requires
                    0 < m <= 0x8000_0000,
                    0 < pow2(d) < 0x20_0000,
            ;
        }
        if d == 21 {
            assert(m == 0x8000_0000) by (nonlinear_arith)
                requires
                    0 < m <= 0x8000_0000,
                    m * pow2(d) >= HIDDEN_BIT,
                    pow2(d) == 0x20_0000,
            ;
        }
        let made = Scalar::spec_from_i32(i);
        assert(made.magnitude() == pattern);
        assert(pattern / (HIDDEN_BIT as int) == 1075 - d);
        assert(HIDDEN_BIT + pattern % (HIDDEN_BIT as int) == scaled);
        lemma_div_by_multiple(m, pow2(d) as int);
    }
}

/// The total order agrees with the order of the numbers: a number below
/// another comes before it. It tells apart what the numeric order does not:
/// two scalars at one place in it have one bit pattern.
pub proof fn lemma_total_order_refines(a: Scalar, b: Scalar)
    ensures
        a.lt(b) ==> a.total_rank() < b.total_rank(),
        a.total_rank() == b.total_rank() ==> a == b,
{
}

/// The numeric order is a strict order on the numbers, with `<=` for `<` or
/// equal rank, and leaves out the NaNs.
pub proof fn lemma_numeric_order(a: Scalar, b: Scalar, c: Scalar)
    ensures
        !a.lt(a),
        a.lt(b) && b.lt(c) ==> a.lt(c),
        a.le(b) && b.le(c) ==> a.le(c),
        a.lt(b) && b.le(c) ==> a.lt(c),
        a.le(b) && b.lt(c) ==> a.lt(c),
        a.le(b) <==> a.lt(b) || (!a.is_nan() && !b.is_nan() && a.rank() == b.rank()),
        !a.is_nan() && !b.is_nan() ==> a.lt(b) || b.le(a),
        a.is_nan() ==> !a.lt(b) && !b.lt(a) && !a.le(b) && !b.le(a),
{
}

/// A binary64 value, held by its bit pattern.
#[derive(Clone, Copy, Debug)]
pub struct Scalar {
    pub bits: u64,
}

impl Scalar {
    /// The bit pattern with the sign bit cleared.
    pub open spec fn magnitude(self) -> int {
        if self.bits >= SIGN_BIT {
            self.bits - SIGN_BIT
        } else {
            self.bits as int
        }
    }

    /// Whether the sign bit is set.
    pub open spec fn is_negative(self) -> bool {
        self.bits >= SIGN_BIT
    }

    /// Whether the value is a NaN.
    pub open spec fn spec_is_nan(self) -> bool {
        self.magnitude() > INFINITY_BITS
    }

    /// Position of a non-NaN value on the extended real line: for two
    /// non-NaN values the numeric order is the order of their ranks. Both
    /// zeros have rank 0.
    pub open spec fn rank(self) -> int {
        if self.is_negative() {
            -self.magnitude()
        } else {
            self.magnitude()
        }
    }

    /// Position in the total order that also places the two zeros and the
    /// NaNs: negative NaNs, negative infinity, negative numbers, `-0`, `+0`,
    /// positive numbers, positive infinity, positive NaNs.
    pub open spec fn total_rank(self) -> int {
        if self.is_negative() {
            -1 - self.magnitude()
        } else {
            self.magnitude()
        }
    }

    /// Numeric `<`: false when either side is a NaN.
    pub open spec fn spec_lt(self, rhs: Scalar) -> bool {
        !self.spec_is_nan() && !rhs.spec_is_nan() && self.rank() < rhs.rank()
    }

    /// Numeric `<=`: false when either side is a NaN.
    pub open spec fn spec_le(self, rhs: Scalar) -> bool {
        !self.spec_is_nan() && !rhs.spec_is_nan() && self.rank() <= rhs.rank()
    }

    /// Numeric `>`: false when either side is a NaN.
    pub open spec fn spec_gt(self, rhs: Scalar) -> bool {
        rhs.spec_lt(self)
    }

    /// Numeric `>=`: false when either side is a NaN.
    pub open spec fn spec_ge(self, rhs: Scalar) -> bool {
        rhs.spec_le(self)
    }

    /// The value with its sign bit flipped.
    pub open spec fn spec_neg(self) -> Scalar {
        if self.bits >= SIGN_BIT {
            Scalar { bits: (self.bits - SIGN_BIT) as u64 }
        } else {
            Scalar { bits: (self.bits + SIGN_BIT) as u64 }
        }
    }

    /// The value with its sign bit cleared.
    pub open spec fn spec_abs(self) -> Scalar {
        Scalar { bits: self.magnitude() as u64 }
    }

    /// The lesser of two values; where one is a NaN, the other.
    pub open spec fn spec_min(self, rhs: Scalar) -> Scalar {
        if rhs.spec_is_nan() || self.spec_lt(rhs) {
            self
        } else {
            rhs
        }
    }

    /// The greater of two values; where one is a NaN, the other.
    pub open spec fn spec_max(self, rhs: Scalar) -> Scalar {
        if self.spec_is_nan() || self.spec_lt(rhs) {
            rhs
        } else {
            self
        }
    }

    /// The rounded sum.
    pub open spec fn spec_add(self, rhs: Scalar) -> Scalar {
        Scalar { bits: ieee_add(self.bits, rhs.bits) }
    }

    /// The rounded difference.
    pub open spec fn spec_sub(self, rhs: Scalar) -> Scalar {
        Scalar { bits: ieee_sub(self.bits, rhs.bits) }
    }

    /// The rounded product.
    pub open spec fn spec_mul(self, rhs: Scalar) -> Scalar {
        Scalar { bits: ieee_mul(self.bits, rhs.bits) }
    }

    /// The rounded quotient.
    pub open spec fn spec_div(self, rhs: Scalar) -> Scalar {
        Scalar { bits: ieee_div(self.bits, rhs.bits) }
    }

    /// The rounded square root. For the numbers below the normal range
    /// whose root is taken after scaling, it is the root of the number times
    /// `2^64`, times `2^-32`.
    pub open spec fn spec_sqrt(self) -> Scalar {
        if spec_root_is_scaled(self.bits) {
            Scalar { bits: soft_sqrt(scaled_bits(self.bits as int, 65) as u64) }.spec_mul(
                Scalar { bits: TWO_TO_MINUS_32_BITS },
            )
        } else {
            Scalar { bits: soft_sqrt(self.bits) }
        }
    }

    /// Positive zero.
    pub open spec fn spec_zero() -> Scalar {
        Scalar { bits: ZERO_BITS }
    }

    /// The number one.
    pub open spec fn spec_one() -> Scalar {
        Scalar { bits: ONE_BITS }
    }

    /// Positive infinity.
    pub open spec fn spec_infinity() -> Scalar {
        Scalar { bits: INFINITY_BITS }
    }

    #[verifier::when_used_as_spec(spec_zero)]
    pub fn zero() -> (r: Scalar)
        ensures
            r == Scalar::spec_zero(),
    {
        Scalar { bits: ZERO_BITS }
    }

    #[verifier::when_used_as_spec(spec_one)]
    pub fn one() -> (r: Scalar)
        ensures
            r == Scalar::spec_one(),
    {
        Scalar { bits: ONE_BITS }
    }

    #[verifier::when_used_as_spec(spec_infinity)]
    pub fn infinity() -> (r: Scalar)
        ensures
            r == Scalar::spec_infinity(),
    {
        Scalar { bits: INFINITY_BITS }
    }

    /// The value with the given bit pattern.
    pub fn from_bits(bits: u64) -> (r: Scalar)
        ensures
            r.bits == bits,
    {
        Scalar { bits }
    }

    /// The bit pattern of the value.
    pub fn to_bits(self) -> (bits: u64)
        ensures
            bits == self.bits,
    {
        self.bits
    }

    /// The magnitude as a machine integer.
    fn magnitude_bits(self) -> (m: u64)
        ensures
            m == self.magnitude(),
    {
        if self.bits >= SIGN_BIT {
            self.bits - SIGN_BIT
        } else {
            self.bits
        }
    }

    #[verifier::when_used_as_spec(spec_is_nan)]
    pub fn is_nan(self) -> (r: bool)
        ensures
            r == self.spec_is_nan(),
    {
        self.magnitude_bits() > INFINITY_BITS
    }

    #[verifier::when_used_as_spec(spec_lt)]
    pub fn lt(self, rhs: Scalar) -> (r: bool)
        ensures
            r == self.spec_lt(rhs),
    {
        if self.is_nan() || rhs.is_nan() {
            return false;
        }
        let a: u64 = self.magnitude_bits();
        let b: u64 = rhs.magnitude_bits();
        if self.bits >= SIGN_BIT {
            if rhs.bits >= SIGN_BIT {
                b < a
            } else {
                a > 0 || b > 0
            }
        } else {
            if rhs.bits >= SIGN_BIT {
                false
            } else {
                a < b
            }
        }
    }

    #[verifier::when_used_as_spec(spec_le)]
    pub fn le(self, rhs: Scalar) -> (r: bool)
        ensures
            r == self.spec_le(rhs),
    {
        if self.is_nan() || rhs.is_nan() {
            return false;
        }
        !rhs.lt(self)
    }

    #[verifier::when_used_as_spec(spec_gt)]
    pub fn gt(self, rhs: Scalar) -> (r: bool)
        ensures
            r == self.spec_gt(rhs),
    {
        rhs.lt(self)
    }

    #[verifier::when_used_as_spec(spec_ge)]
    pub fn ge(self, rhs: Scalar) -> (r: bool)
        ensures
            r == self.spec_ge(rhs),
    {
        rhs.le(self)
    }

    /// Whether `self` comes no later than `rhs` in the total order.
    pub fn total_le(self, rhs: Scalar) -> (r: bool)
        ensures
            r == (self.total_rank() <= rhs.total_rank()),
    {
        let a: u64 = self.magnitude_bits();
        let b: u64 = rhs.magnitude_bits();
        if self.bits >= SIGN_BIT {
            if rhs.bits >= SIGN_BIT {
                b <= a
            } else {
                true
            }
        } else {
            if rhs.bits >= SIGN_BIT {
                false
            } else {
                a <= b
            }
        }
    }

    #[verifier::when_used_as_spec(spec_neg)]
    pub fn neg(self) -> (r: Scalar)
        ensures
            r == self.spec_neg(),
    {
        if self.bits >= SIGN_BIT {
            Scalar { bits: self.bits - SIGN_BIT }
        } else {
            Scalar { bits: self.bits + SIGN_BIT }
        }
    }

    #[verifier::when_used_as_spec(spec_abs)]
    pub fn abs(self) -> (r: Scalar)
        ensures
            r == self.spec_abs(),
    {
        Scalar { bits: self.magnitude_bits() }
    }

    #[verifier::when_used_as_spec(spec_min)]
    pub fn min(self, rhs: Scalar) -> (r: Scalar)
        ensures
            r == self.spec_min(rhs),
    {
        if rhs.is_nan() || self.lt(rhs) {
            self
        } else {
            rhs
        }
    }

    #[verifier::when_used_as_spec(spec_max)]
    pub fn max(self, rhs: Scalar) -> (r: Scalar)
        ensures
            r == self.spec_max(rhs),
    {
        if self.is_nan() || self.lt(rhs) {
            rhs
        } else {
            self
        }
    }

    #[verifier::when_used_as_spec(spec_add)]
    pub fn add(self, rhs: Scalar) -> (r: Scalar)
        ensures
            r == self.spec_add(rhs),
    {
        Scalar { bits: add_bits(self.bits, rhs.bits) }
    }

    #[verifier::when_used_as_spec(spec_sub)]
    pub fn sub(self, rhs: Scalar) -> (r: Scalar)
        ensures
            r == self.spec_sub(rhs),
    {
        Scalar { bits: sub_bits(self.bits, rhs.bits) }
    }

    #[verifier::when_used_as_spec(spec_mul)]
    pub fn mul(self, rhs: Scalar) -> (r: Scalar)
        ensures
            r == self.spec_mul(rhs),
    {
        Scalar { bits: mul_bits(self.bits, rhs.bits) }
    }

    #[verifier::when_used_as_spec(spec_div)]
    pub fn div(self, rhs: Scalar) -> (r: Scalar)
        ensures
            r == self.spec_div(rhs),
    {
        Scalar { bits: div_bits(self.bits, rhs.bits) }
    }

    /// The positive number `m * 2^(e - 1075)`.
    pub open spec fn spec_from_scaled(m: u64, e: u64) -> Scalar {
        Scalar { bits: scaled_bits(m as int, e as int) as u64 }
    }

    /// The value of the integer `i`.
    pub open spec fn spec_from_i32(i: i32) -> Scalar {
        if i == 0 {
            Scalar { bits: 0 }
        } else if i > 0 {
            Scalar { bits: scaled_bits(i as int, 1075) as u64 }
        } else {
            Scalar { bits: (SIGN_BIT + scaled_bits(-i, 1075)) as u64 }
        }
    }

    /// The value cut to a whole number towards zero: zero for a NaN, and the
    /// nearest end of the range of `i32` for a value beyond it.
    pub open spec fn spec_to_i32(self) -> i32 {
        let exponent = self.magnitude() / (HIDDEN_BIT as int);
        let significand = HIDDEN_BIT + self.magnitude() % (HIDDEN_BIT as int);
        if self.magnitude() > INFINITY_BITS || self.magnitude() < ONE_BITS {
            0
        } else if exponent >= 1054 {
            if self.is_negative() {
                i32::MIN
            } else {
                i32::MAX
            }
        } else {
            let whole = significand / pow2((1075 - exponent) as nat) as int;
            if self.is_negative() {
                (-whole) as i32
            } else {
                whole as i32
            }
        }
    }

    #[verifier::when_used_as_spec(spec_from_scaled)]
    pub fn from_scaled(m: u64, e: u64) -> (r: Scalar)
        requires
            0 < m < 2 * HIDDEN_BIT,
            1 <= e <= 2046,
        ensures
            r == Scalar::spec_from_scaled(m, e),
            r.bits == scaled_bits(m as int, e as int),
            r.bits < (e + 1) * HIDDEN_BIT,
            !r.is_negative(),
    {
        let mut m: u64 = m;
        let mut e: u64 = e;
        let ghost m0 = m;
        let ghost e0 = e;
        while m < HIDDEN_BIT && 1 < e
            invariant
                0 < m < 2 * HIDDEN_BIT,
                1 <= e <= e0 <= 2046,
                scaled_bits(m as int, e as int) == scaled_bits(m0 as int, e0 as int),
            decreases e,
        {
            m = 2 * m;
            e = e - 1;
        }
        Scalar { bits: (e - 1) * HIDDEN_BIT + m }
    }

    #[verifier::when_used_as_spec(spec_from_i32)]
    pub fn from_i32(i: i32) -> (r: Scalar)
        ensures
            r == Scalar::spec_from_i32(i),
    {
        if i == 0 {
            Scalar { bits: 0 }
        } else if i > 0 {
            Scalar::from_scaled(i as u64, 1075)
        } else {
            let size: u64 = (-(i as i64)) as u64;
            Scalar { bits: SIGN_BIT + Scalar::from_scaled(size, 1075).bits }
        }
    }

    #[verifier::when_used_as_spec(spec_to_i32)]
    pub fn to_i32(self) -> (r: i32)
        ensures
            r == self.spec_to_i32(),
    {
        let magnitude: u64 = self.magnitude_bits();
        if magnitude > INFINITY_BITS || magnitude < ONE_BITS {
            return 0;
        }
        let exponent: u64 = magnitude / HIDDEN_BIT;
        let significand: u64 = HIDDEN_BIT + magnitude % HIDDEN_BIT;
        if exponent >= 1054 {
            return if self.bits >= SIGN_BIT {
                i32::MIN
            } else {
                i32::MAX
            };
        }
        let shift: u64 = 1075 - exponent;
        let whole: u64 = significand >> shift;
        proof {
            lemma_u64_shr_is_div(significand, shift);
            lemma2_to64();
            if shift > 22 {
                lemma_pow2_strictly_increases(22, shift as nat);
            }
            lemma_div_is_ordered_by_denominator(
                significand as int,
                pow2(22) as int,
                pow2(shift as nat) as int,
            );
        }
        if self.bits >= SIGN_BIT {
            -(whole as i32)
        } else {
            whole as i32
        }
    }

    #[verifier::when_used_as_spec(spec_sqrt)]
    pub fn sqrt(self) -> (r: Scalar)
        ensures
            r == self.spec_sqrt(),
    {
        let a: u64 = self.bits;
        if (0x400 <= a && a <= 0x7ff) || (0x8000_0000 <= a && a <= 0xffff_ffff) {
            // the number is `bits * 2^-1074`; times `2^64` it is `bits * 2^(65 - 1075)`
            let scaled = Scalar::from_scaled(self.bits, 65);
            proof {
                lemma2_to64();
                lemma2_to64_rest();
                assert(self.bits * pow2(42) >= HIDDEN_BIT) by (nonlinear_arith)
                    requires
                        self.bits >= 0x400,
                        pow2(42) == 0x400_0000_0000,
                ;
                lemma_doublings(self.bits as int, 42);
                lemma_scaled_bits(self.bits as int, 65);
                assert((64 - doublings(self.bits as int)) * HIDDEN_BIT >= 0) by (nonlinear_arith)
                    requires
                        doublings(self.bits as int) <= 42,
                ;
                assert(scaled.bits >= HIDDEN_BIT);
            }
            Scalar { bits: sqrt_bits(scaled.bits) }.mul(Scalar { bits: TWO_TO_MINUS_32_BITS })
        } else {
            Scalar { bits: sqrt_bits(self.bits) }
        }
    }
}

} // verus!
