//! Closed ranges of ray parameters.

use vstd::prelude::*;
use crate::scalar::{Scalar, INFINITY_BITS, NEG_INFINITY_BITS, TWO_BITS};

verus! {

/// A range `[min, max]` of scalars. A range whose `max` lies below its `min`
/// covers nothing.
#[derive(Clone, Copy, Debug)]
pub struct Interval {
    pub min: Scalar,
    pub max: Scalar,
}

/// The ways to make an interval.
pub enum IntervalParameter {
    /// The empty interval.
    Default,
    /// The interval with the given ends.
    Range { min: Scalar, max: Scalar },
    /// The tightest interval that encloses both `a` and `b`.
    EncloseInterval { a: Interval, b: Interval },
}

impl Default for Interval {
    fn default() -> (r: Interval)
        ensures
            r == Interval::spec_empty(),
    {
        Interval::empty()
    }
}

impl Interval {
    /// The interval from positive to negative infinity, which covers nothing.
    pub open spec fn spec_empty() -> Interval {
        Interval { min: Scalar { bits: INFINITY_BITS }, max: Scalar { bits: NEG_INFINITY_BITS } }
    }

    /// The interval from negative to positive infinity.
    pub open spec fn spec_universe() -> Interval {
        Interval { min: Scalar { bits: NEG_INFINITY_BITS }, max: Scalar { bits: INFINITY_BITS } }
    }

    /// The union hull of two intervals: the lesser `min` and the greater
    /// `max`, a NaN end giving way to the other interval's end.
    pub open spec fn enclose(a: Interval, b: Interval) -> Interval {
        Interval { min: a.min.min(b.min), max: a.max.max(b.max) }
    }

    /// What `new` makes of each parameter.
    pub open spec fn spec_new(param: IntervalParameter) -> Interval {
        match param {
            IntervalParameter::Default => Interval::spec_empty(),
            IntervalParameter::Range { min, max } => Interval { min, max },
            IntervalParameter::EncloseInterval { a, b } => Interval::enclose(a, b),
        }
    }

    pub open spec fn spec_size(&self) -> Scalar {
        self.max.sub(self.min)
    }

    pub open spec fn spec_contains(&self, x: Scalar) -> bool {
        self.min.le(x) && x.le(self.max)
    }

    pub open spec fn spec_surrounds(&self, x: Scalar) -> bool {
        self.min.lt(x) && x.lt(self.max)
    }

    pub open spec fn spec_clamp(&self, x: Scalar) -> Scalar {
        if x.lt(self.min) {
            self.min
        } else if x.gt(self.max) {
            self.max
        } else {
            x
        }
    }

    pub open spec fn spec_expand(&self, delta: Scalar) -> Interval {
        let padding = delta.div(Scalar { bits: TWO_BITS });
        Interval { min: self.min.sub(padding), max: self.max.add(padding) }
    }

    /// Both ends of each interval are numbers, and `self` reaches no further
    /// than `outer` at either end.
    pub open spec fn spec_within(&self, outer: Interval) -> bool {
        outer.min.le(self.min) && self.max.le(outer.max)
    }

    /// Neither end is a NaN.
    pub open spec fn spec_has_ends(&self) -> bool {
        !self.min.is_nan() && !self.max.is_nan()
    }

    /// Both ends are numbers and `min` does not exceed `max`.
    pub open spec fn is_ordinary(&self) -> bool {
        self.min.le(self.max)
    }

    #[verifier::when_used_as_spec(spec_empty)]
    pub fn empty() -> (r: Interval)
        ensures
            r == Interval::spec_empty(),
    {
        Interval { min: Scalar { bits: INFINITY_BITS }, max: Scalar { bits: NEG_INFINITY_BITS } }
    }

    #[verifier::when_used_as_spec(spec_universe)]
    pub fn universe() -> (r: Interval)
        ensures
            r == Interval::spec_universe(),
    {
        Interval { min: Scalar { bits: NEG_INFINITY_BITS }, max: Scalar { bits: INFINITY_BITS } }
    }

    #[verifier::when_used_as_spec(spec_new)]
    pub fn new(param: IntervalParameter) -> (r: Interval)
        ensures
            r == Interval::spec_new(param),
    {
        match param {
            IntervalParameter::Default => Interval::empty(),
            IntervalParameter::Range { min, max } => Interval { min, max },
            IntervalParameter::EncloseInterval { a, b } => {
                let min = a.min.min(b.min);
                let max = a.max.max(b.max);
                Interval { min, max }
            },
        }
    }

    /// Whether both intervals have numbers at their ends and `self` reaches
    /// no further than `outer` at either end.
    #[verifier::when_used_as_spec(spec_within)]
    pub fn within(&self, outer: Interval) -> (r: bool)
        ensures
            r == self.spec_within(outer),
    {
        outer.min.le(self.min) && self.max.le(outer.max)
    }

    /// Whether neither end is a NaN.
    #[verifier::when_used_as_spec(spec_has_ends)]
    pub fn has_ends(&self) -> (r: bool)
        ensures
            r == self.spec_has_ends(),
    {
        !self.min.is_nan() && !self.max.is_nan()
    }

    /// The length `max - min`.
    #[verifier::when_used_as_spec(spec_size)]
    pub fn size(&self) -> (r: Scalar)
        ensures
            r == self.spec_size(),
    {
        self.max.sub(self.min)
    }

    /// Whether `x` lies in the closed range.
    #[verifier::when_used_as_spec(spec_contains)]
    pub fn contains(&self, x: Scalar) -> (r: bool)
        ensures
            r == self.spec_contains(x),
    {
        self.min.le(x) && x.le(self.max)
    }

    /// Whether `x` lies strictly inside the range.
    #[verifier::when_used_as_spec(spec_surrounds)]
    pub fn surrounds(&self, x: Scalar) -> (r: bool)
        ensures
            r == self.spec_surrounds(x),
    {
        self.min.lt(x) && x.lt(self.max)
    }

    /// `x` moved to the nearer end where it lies outside the range.
    #[verifier::when_used_as_spec(spec_clamp)]
    pub fn clamp(&self, x: Scalar) -> (r: Scalar)
        ensures
            r == self.spec_clamp(x),
    {
        if x.lt(self.min) {
            self.min
        } else if x.gt(self.max) {
            self.max
        } else {
            x
        }
    }

    /// The interval widened by `delta / 2` at each end.
    #[verifier::when_used_as_spec(spec_expand)]
    pub fn expand(&self, delta: Scalar) -> (r: Interval)
        ensures
            r == self.spec_expand(delta),
    {
        let padding = delta.div(Scalar { bits: TWO_BITS });
        Interval { min: self.min.sub(padding), max: self.max.add(padding) }
    }
}

/// Every point that `a` or `b` contains is contained in the interval that
/// encloses them.
pub proof fn lemma_enclose_contains(a: Interval, b: Interval, x: Scalar)
    requires
        a.contains(x) || b.contains(x),
    ensures
        Interval::enclose(a, b).contains(x),
{
}

/// Clamping into an ordinary interval gives a point of the interval, unless
/// the point clamped is a NaN, which clamping leaves as it is.
pub proof fn lemma_clamp_within(iv: Interval, x: Scalar)
    requires
        iv.is_ordinary(),
        !x.is_nan(),
    ensures
        iv.contains(iv.clamp(x)),
{
}

/// Clamping twice into an ordinary interval gives what clamping once gives.
pub proof fn lemma_clamp_idempotent(iv: Interval, x: Scalar)
    requires
        iv.is_ordinary(),
    ensures
        iv.clamp(iv.clamp(x)) == iv.clamp(x),
{
}

/// Clamping leaves the points of an interval where they are.
pub proof fn lemma_clamp_fixes_members(iv: Interval, x: Scalar)
    requires
        iv.contains(x),
    ensures
        iv.clamp(x) == x,
{
}

} // verus!
