//! Three-component vectors, used for points, directions and colours.

use vstd::prelude::*;
use crate::rtweekend::{random, random_range, spec_lerp, spec_unit_interval};
use crate::scalar::{Scalar, ONE_BITS, TWO_BITS};

verus! {

/// Bit pattern of `1e-160`: a vector whose squared length is no more than
/// this is too short to be brought to unit length.
pub const TINY_BITS: u64 = 0x1eb6_7e9c_127b_6e74;

/// Bit pattern of `1e-8`, below which a component counts as vanishing.
pub const NEAR_ZERO_BITS: u64 = 0x3e45_798e_e230_8c3a;

/// A vector of three scalars.
#[derive(Clone, Copy, Debug)]
pub struct Vec3 {
    pub e: [Scalar; 3],
}

/// A point in space.
pub type Point3 = Vec3;

impl Default for Vec3 {
    fn default() -> (r: Vec3)
        ensures
            r == Vec3::spec_zero(),
    {
        Vec3 { e: [Scalar { bits: 0 }, Scalar { bits: 0 }, Scalar { bits: 0 }] }
    }
}

impl Vec3 {
    pub open spec fn spec_new(e0: Scalar, e1: Scalar, e2: Scalar) -> Vec3 {
        Vec3 { e: [e0, e1, e2] }
    }

    /// The vector of three positive zeros.
    pub open spec fn spec_zero() -> Vec3 {
        Vec3::spec_new(Scalar { bits: 0 }, Scalar { bits: 0 }, Scalar { bits: 0 })
    }

    pub open spec fn spec_x(&self) -> Scalar {
        self.e[0]
    }

    pub open spec fn spec_y(&self) -> Scalar {
        self.e[1]
    }

    pub open spec fn spec_z(&self) -> Scalar {
        self.e[2]
    }

    pub open spec fn spec_index(&self, i: usize) -> Scalar {
        self.e[i as int]
    }

    pub open spec fn spec_neg(self) -> Vec3 {
        Vec3::spec_new(self.e[0].neg(), self.e[1].neg(), self.e[2].neg())
    }

    pub open spec fn spec_add(self, other: Vec3) -> Vec3 {
        Vec3::spec_new(
            self.e[0].add(other.e[0]),
            self.e[1].add(other.e[1]),
            self.e[2].add(other.e[2]),
        )
    }

    pub open spec fn spec_sub(self, other: Vec3) -> Vec3 {
        Vec3::spec_new(
            self.e[0].sub(other.e[0]),
            self.e[1].sub(other.e[1]),
            self.e[2].sub(other.e[2]),
        )
    }

    /// The component-wise product.
    pub open spec fn spec_mul(self, other: Vec3) -> Vec3 {
        Vec3::spec_new(
            self.e[0].mul(other.e[0]),
            self.e[1].mul(other.e[1]),
            self.e[2].mul(other.e[2]),
        )
    }

    /// Each component times `t`.
    pub open spec fn spec_scale(self, t: Scalar) -> Vec3 {
        Vec3::spec_new(self.e[0].mul(t), self.e[1].mul(t), self.e[2].mul(t))
    }

    /// Each component times the reciprocal of `t`.
    pub open spec fn spec_div(self, t: Scalar) -> Vec3 {
        self.spec_scale(Scalar { bits: ONE_BITS }.div(t))
    }

    pub open spec fn spec_length_squared(&self) -> Scalar {
        self.e[0].mul(self.e[0]).add(self.e[1].mul(self.e[1])).add(self.e[2].mul(self.e[2]))
    }

    pub open spec fn spec_length(&self) -> Scalar {
        self.spec_length_squared().sqrt()
    }

    /// Every component lies within `1e-8` of zero.
    pub open spec fn spec_near_zero(&self) -> bool {
        let s = Scalar { bits: NEAR_ZERO_BITS };
        self.e[0].abs().lt(s) && self.e[1].abs().lt(s) && self.e[2].abs().lt(s)
    }

    #[verifier::when_used_as_spec(spec_new)]
    pub fn new(e0: Scalar, e1: Scalar, e2: Scalar) -> (r: Vec3)
        ensures
            r == Vec3::spec_new(e0, e1, e2),
    {
        Vec3 { e: [e0, e1, e2] }
    }

    #[verifier::when_used_as_spec(spec_x)]
    pub fn x(&self) -> (r: Scalar)
        ensures
            r == self.spec_x(),
    {
        self.e[0]
    }

    #[verifier::when_used_as_spec(spec_y)]
    pub fn y(&self) -> (r: Scalar)
        ensures
            r == self.spec_y(),
    {
        self.e[1]
    }

    #[verifier::when_used_as_spec(spec_z)]
    pub fn z(&self) -> (r: Scalar)
        ensures
            r == self.spec_z(),
    {
        self.e[2]
    }

    /// The component with index `i`.
    #[verifier::when_used_as_spec(spec_index)]
    pub fn index(&self, i: usize) -> (r: Scalar)
        requires
            i < 3,
        ensures
            r == self.spec_index(i),
    {
        self.e[i]
    }

    /// The component with index `i`, to be changed in place.
    pub fn index_mut(&mut self, i: usize) -> (element: &mut Scalar)
        requires
            i < 3,
        ensures
            *element == old(self).e@[i as int],
            final(self).e@ == old(self).e@.update(i as int, *final(element)),
    {
        &mut self.e[i]
    }

    #[verifier::when_used_as_spec(spec_neg)]
    pub fn neg(self) -> (r: Vec3)
        ensures
            r == self.spec_neg(),
    {
        Vec3 { e: [self.e[0].neg(), self.e[1].neg(), self.e[2].neg()] }
    }

    #[verifier::when_used_as_spec(spec_add)]
    pub fn add(self, other: Vec3) -> (r: Vec3)
        ensures
            r == self.spec_add(other),
    {
        Vec3 {
            e: [self.e[0].add(other.e[0]), self.e[1].add(other.e[1]), self.e[2].add(other.e[2])],
        }
    }

    #[verifier::when_used_as_spec(spec_sub)]
    pub fn sub(self, other: Vec3) -> (r: Vec3)
        ensures
            r == self.spec_sub(other),
    {
        Vec3 {
            e: [self.e[0].sub(other.e[0]), self.e[1].sub(other.e[1]), self.e[2].sub(other.e[2])],
        }
    }

    #[verifier::when_used_as_spec(spec_mul)]
    pub fn mul(self, other: Vec3) -> (r: Vec3)
        ensures
            r == self.spec_mul(other),
    {
        Vec3 {
            e: [self.e[0].mul(other.e[0]), self.e[1].mul(other.e[1]), self.e[2].mul(other.e[2])],
        }
    }

    #[verifier::when_used_as_spec(spec_scale)]
    pub fn scale(self, t: Scalar) -> (r: Vec3)
        ensures
            r == self.spec_scale(t),
    {
        Vec3 { e: [self.e[0].mul(t), self.e[1].mul(t), self.e[2].mul(t)] }
    }

    #[verifier::when_used_as_spec(spec_div)]
    pub fn div(self, t: Scalar) -> (r: Vec3)
        ensures
            r == self.spec_div(t),
    {
        self.scale(Scalar { bits: ONE_BITS }.div(t))
    }

    pub fn add_assign(&mut self, other: Vec3)
        ensures
            *final(self) == old(self).spec_add(other),
    {
        *self = self.add(other);
    }

    pub fn mul_assign(&mut self, t: Scalar)
        ensures
            *final(self) == old(self).spec_scale(t),
    {
        *self = self.scale(t);
    }

    pub fn div_assign(&mut self, t: Scalar)
        ensures
            *final(self) == old(self).spec_div(t),
    {
        *self = self.div(t);
    }

    #[verifier::when_used_as_spec(spec_length)]
    pub fn length(&self) -> (r: Scalar)
        ensures
            r == self.spec_length(),
    {
        self.length_squared().sqrt()
    }

    #[verifier::when_used_as_spec(spec_length_squared)]
    pub fn length_squared(&self) -> (r: Scalar)
        ensures
            r == self.spec_length_squared(),
    {
        self.e[0].mul(self.e[0]).add(self.e[1].mul(self.e[1])).add(self.e[2].mul(self.e[2]))
    }

    #[verifier::when_used_as_spec(spec_near_zero)]
    pub fn near_zero(&self) -> (r: bool)
        ensures
            r == self.spec_near_zero(),
    {
        let s = Scalar { bits: NEAR_ZERO_BITS };
        self.e[0].abs().lt(s) && self.e[1].abs().lt(s) && self.e[2].abs().lt(s)
    }

    /// A vector of three random numbers from zero up to, and without, one.
    pub fn random() -> (r: Vec3)
        ensures
            exists|w0: u64, w1: u64, w2: u64|
                r == Vec3::spec_new(
                    spec_unit_interval(w0),
                    spec_unit_interval(w1),
                    spec_unit_interval(w2),
                ),
    {
        let e0 = random();
        let e1 = random();
        let e2 = random();
        let ghost w0 = choose|w: u64| e0 == spec_unit_interval(w);
        let ghost w1 = choose|w: u64| e1 == spec_unit_interval(w);
        let ghost w2 = choose|w: u64| e2 == spec_unit_interval(w);
        let r = Vec3 { e: [e0, e1, e2] };
        assert(r == Vec3::spec_new(
            spec_unit_interval(w0),
            spec_unit_interval(w1),
            spec_unit_interval(w2),
        ));
        r
    }

    /// A vector of three random numbers between `min` and `max`.
    pub fn random_range(min: Scalar, max: Scalar) -> (r: Vec3)
        ensures
            exists|w0: u64, w1: u64, w2: u64|
                r == Vec3::spec_new(
                    spec_lerp(min, max, spec_unit_interval(w0)),
                    spec_lerp(min, max, spec_unit_interval(w1)),
                    spec_lerp(min, max, spec_unit_interval(w2)),
                ),
    {
        let e0 = random_range(min, max);
        let e1 = random_range(min, max);
        let e2 = random_range(min, max);
        let ghost w0 = choose|w: u64| e0 == spec_lerp(min, max, spec_unit_interval(w));
        let ghost w1 = choose|w: u64| e1 == spec_lerp(min, max, spec_unit_interval(w));
        let ghost w2 = choose|w: u64| e2 == spec_lerp(min, max, spec_unit_interval(w));
        let r = Vec3 { e: [e0, e1, e2] };
        assert(r == Vec3::spec_new(
            spec_lerp(min, max, spec_unit_interval(w0)),
            spec_lerp(min, max, spec_unit_interval(w1)),
            spec_lerp(min, max, spec_unit_interval(w2)),
        ));
        r
    }
}

/// A vector that nearly vanishes has three numbers for parts, each within
/// `1e-8` of zero on either side; a vector with a part of size `1e-8` or
/// more, or with a NaN for a part, does not nearly vanish.
pub proof fn lemma_near_zero(v: Vec3)
    ensures
        v.near_zero() <==> (forall|i: int|
            0 <= i < 3 ==> {
                &&& !(#[trigger] v.e[i]).is_nan()
                &&& v.e[i].lt(Scalar { bits: NEAR_ZERO_BITS })
                &&& Scalar { bits: NEAR_ZERO_BITS }.neg().lt(v.e[i])
            }),
{
    if v.near_zero() {
    } else {
        assert(!v.e[0].abs().lt(Scalar { bits: NEAR_ZERO_BITS }) || !v.e[1].abs().lt(
            Scalar { bits: NEAR_ZERO_BITS },
        ) || !v.e[2].abs().lt(Scalar { bits: NEAR_ZERO_BITS }));
    }
}

pub open spec fn spec_dot(u: Vec3, v: Vec3) -> Scalar {
    u.e[0].mul(v.e[0]).add(u.e[1].mul(v.e[1])).add(u.e[2].mul(v.e[2]))
}

pub open spec fn spec_cross(u: Vec3, v: Vec3) -> Vec3 {
    Vec3::spec_new(
        u.e[1].mul(v.e[2]).sub(u.e[2].mul(v.e[1])),
        u.e[2].mul(v.e[0]).sub(u.e[0].mul(v.e[2])),
        u.e[0].mul(v.e[1]).sub(u.e[1].mul(v.e[0])),
    )
}

/// `v` divided by its length.
pub open spec fn spec_unit_vector(v: Vec3) -> Vec3 {
    v.div(v.length())
}

/// The mirror image of `v` at a surface with unit normal `n`:
/// `v - n * (2 * dot(v, n))`.
pub open spec fn spec_reflect(v: Vec3, n: Vec3) -> Vec3 {
    v.sub(n.scale(Scalar { bits: TWO_BITS }.mul(spec_dot(v, n))))
}

/// The part of the refracted direction that lies across the normal.
pub open spec fn refract_perp(uv: Vec3, n: Vec3, etai_over_etat: Scalar) -> Vec3 {
    let cos_theta = spec_dot(uv.neg(), n).min(Scalar { bits: ONE_BITS });
    uv.add(n.scale(cos_theta)).scale(etai_over_etat)
}

/// The direction of the unit vector `uv` after it passes a surface with unit
/// normal `n`, by Snell's law with the ratio `etai_over_etat` of refractive
/// indices. Where that ratio and the angle admit no refracted ray, the
/// square root is taken of a negative number and the result holds NaNs.
pub open spec fn spec_refract(uv: Vec3, n: Vec3, etai_over_etat: Scalar) -> Vec3 {
    let perp = refract_perp(uv, n, etai_over_etat);
    let parallel = n.scale(Scalar { bits: ONE_BITS }.sub(perp.length_squared()).sqrt().neg());
    perp.add(parallel)
}

/// The unit vector that the candidate `p` gives: `p` divided by its length,
/// where its squared length lies above `1e-160` and does not exceed one; no
/// vector for any other candidate.
pub open spec fn spec_unit_vector_candidate(p: Vec3) -> Option<Vec3> {
    let lensq = p.length_squared();
    let tiny = Scalar { bits: TINY_BITS };
    if tiny.lt(lensq) && lensq.le(Scalar { bits: ONE_BITS }) {
        Some(p.div(lensq.sqrt()))
    } else {
        None
    }
}

/// The point of the unit disk that the candidate coordinates give: the point
/// `(x, y, 0)`, where its squared length lies below one; no point for any
/// other candidate.
pub open spec fn spec_unit_disk_candidate(x: Scalar, y: Scalar) -> Option<Vec3> {
    let p = Vec3::spec_new(x, y, Scalar { bits: 0 });
    if p.length_squared().lt(Scalar { bits: ONE_BITS }) {
        Some(p)
    } else {
        None
    }
}

/// `unit`, turned round where it does not point to the side of `normal`.
pub open spec fn spec_on_hemisphere(normal: Vec3, unit: Vec3) -> Vec3 {
    if spec_dot(unit, normal).gt(Scalar { bits: 0 }) {
        unit
    } else {
        unit.neg()
    }
}

/// One step of drawing a random unit vector: the unit vector in the
/// direction of `p`, a random vector with parts between minus one and one,
/// or `None` where `p` is to be thrown away and another drawn: where it lies
/// outside the unit ball or too near its centre.
#[verifier::when_used_as_spec(spec_unit_vector_candidate)]
pub fn unit_vector_candidate(p: Vec3) -> (r: Option<Vec3>)
    ensures
        r == spec_unit_vector_candidate(p),
{
    let lensq = p.length_squared();
    let tiny = Scalar { bits: TINY_BITS };
    if tiny.lt(lensq) && lensq.le(Scalar { bits: ONE_BITS }) {
        Some(p.div(lensq.sqrt()))
    } else {
        None
    }
}

/// One step of drawing a random point of the unit disk: the point `(x, y, 0)`
/// for random `x` and `y` between minus one and one, or `None` where the
/// point lies outside the disk and another is to be drawn.
#[verifier::when_used_as_spec(spec_unit_disk_candidate)]
pub fn unit_disk_candidate(x: Scalar, y: Scalar) -> (r: Option<Vec3>)
    ensures
        r == spec_unit_disk_candidate(x, y),
{
    let p = Vec3::new(x, y, Scalar { bits: 0 });
    if p.length_squared().lt(Scalar { bits: ONE_BITS }) {
        Some(p)
    } else {
        None
    }
}

/// The random unit vector `unit` brought to the side of `normal`.
pub fn on_hemisphere(normal: &Vec3, unit: Vec3) -> (r: Vec3)
    ensures
        r == spec_on_hemisphere(*normal, unit),
{
    if dot(unit, *normal).gt(Scalar { bits: 0 }) {
        unit
    } else {
        unit.neg()
    }
}

#[verifier::when_used_as_spec(spec_dot)]
pub fn dot(u: Vec3, v: Vec3) -> (r: Scalar)
    ensures
        r == spec_dot(u, v),
{
    u.e[0].mul(v.e[0]).add(u.e[1].mul(v.e[1])).add(u.e[2].mul(v.e[2]))
}

#[verifier::when_used_as_spec(spec_cross)]
pub fn cross(u: Vec3, v: Vec3) -> (r: Vec3)
    ensures
        r == spec_cross(u, v),
{
    Vec3 {
        e: [
            u.e[1].mul(v.e[2]).sub(u.e[2].mul(v.e[1])),
            u.e[2].mul(v.e[0]).sub(u.e[0].mul(v.e[2])),
            u.e[0].mul(v.e[1]).sub(u.e[1].mul(v.e[0])),
        ],
    }
}

#[verifier::when_used_as_spec(spec_unit_vector)]
pub fn unit_vector(v: Vec3) -> (r: Vec3)
    ensures
        r == spec_unit_vector(v),
{
    v.div(v.length())
}

pub fn reflect(v: &Vec3, n: &Vec3) -> (r: Vec3)
    ensures
        r == spec_reflect(*v, *n),
{
    v.sub(n.scale(Scalar { bits: TWO_BITS }.mul(dot(*v, *n))))
}

#[verifier::when_used_as_spec(spec_refract)]
pub fn refract(uv: Vec3, n: Vec3, etai_over_etat: Scalar) -> (r: Vec3)
    ensures
        r == spec_refract(uv, n, etai_over_etat),
{
    let cos_theta = dot(uv.neg(), n).min(Scalar { bits: ONE_BITS });
    let r_out_perp = uv.add(n.scale(cos_theta)).scale(etai_over_etat);
    let r_out_parallel = n.scale(
        Scalar { bits: ONE_BITS }.sub(r_out_perp.length_squared()).sqrt().neg(),
    );
    r_out_perp.add(r_out_parallel)
}

} // verus!
