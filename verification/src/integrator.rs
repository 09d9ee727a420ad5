//! The colour that a ray brings back from a scene.

use vstd::prelude::*;
use crate::color::Color;
use crate::hittable::Hittable;
use crate::interval::{Interval, IntervalParameter};
use crate::material::Material;
use crate::ray::Ray;
use crate::scalar::{Scalar, HALF_BITS, INFINITY_BITS, ONE_BITS};
use crate::vec3::{unit_vector, Vec3};

verus! {

/// Bit pattern of `0.001`, the least ray parameter at which a hit counts:
/// nearer hits are taken for the surface that the ray has just left.
pub const SHADOW_BIAS_BITS: u64 = 0x3f50_624d_d2f1_a9fc;

/// Bit pattern of `0.7`, the green part of the sky's blue.
pub const SKY_GREEN_BITS: u64 = 0x3fe6_6666_6666_6666;

/// The colour with all parts zero.
pub open spec fn black() -> Color {
    Vec3::spec_zero()
}

/// The colour with all parts one.
pub open spec fn white() -> Color {
    Vec3::spec_new(Scalar { bits: ONE_BITS }, Scalar { bits: ONE_BITS }, Scalar { bits: ONE_BITS })
}

/// The blue `(0.5, 0.7, 1.0)` of the sky overhead.
pub open spec fn sky_blue() -> Color {
    Vec3::spec_new(
        Scalar { bits: HALF_BITS },
        Scalar { bits: SKY_GREEN_BITS },
        Scalar { bits: ONE_BITS },
    )
}

/// The range of ray parameters in which hits count: from `0.001` to infinity.
pub open spec fn visible_range() -> Interval {
    Interval { min: Scalar { bits: SHADOW_BIAS_BITS }, max: Scalar { bits: INFINITY_BITS } }
}

/// The colour of the sky in the direction of the ray: white blended into blue
/// by `a = 0.5 * (y + 1)`, where `y` is the height of the unit direction.
pub open spec fn sky(r: Ray) -> Color {
    let a = Scalar { bits: HALF_BITS }.mul(unit_vector(r.dir).y().add(Scalar { bits: ONE_BITS }));
    white().scale(Scalar { bits: ONE_BITS }.sub(a)).add(sky_blue().scale(a))
}

/// The colour that the ray `r` brings back when it may still bounce `depth`
/// times, where the bounce numbered `bounce` and those after it take their
/// random unit vectors from `samples`, one each, in order.
///
/// With no bounce left the colour is black. A ray that hits nothing brings
/// the colour of the sky. A ray that hits a surface is scattered by the
/// surface's material, and brings the colour of the scattered ray, each part
/// multiplied by the attenuation; where the surface has no material, or the
/// material absorbs the ray, the colour is black.
pub open spec fn radiance<H: Hittable>(
    r: Ray,
    depth: int,
    world: H,
    samples: Seq<Vec3>,
    bounce: int,
) -> Color
    decreases depth,
{
    if depth <= 0 {
        black()
    } else {
        match world.hit_spec(r, visible_range()) {
            Some(rec) => match rec.mat {
                Some(mat) => match mat.scatter_spec(r, rec, samples[bounce]) {
                    Some(scattered) => scattered.attenuation.mul(
                        radiance(scattered.ray, depth - 1, world, samples, bounce + 1),
                    ),
                    None => black(),
                },
                None => black(),
            },
            None => sky(r),
        }
    }
}

/// A bounce multiplies what comes back along the scattered ray by the
/// attenuation, part by part: where the ray hits a surface whose material
/// scatters it, its colour is the attenuation times the colour of the
/// scattered ray with one bounce less.
pub proof fn lemma_bounce_attenuates<H: Hittable>(
    r: Ray,
    depth: int,
    world: H,
    samples: Seq<Vec3>,
    bounce: int,
)
    requires
        depth > 0,
        world.hit_spec(r, visible_range()) is Some,
        world.hit_spec(r, visible_range())->0.mat is Some,
        world.hit_spec(r, visible_range())->0.mat->0.scatter_spec(
            r,
            world.hit_spec(r, visible_range())->0,
            samples[bounce],
        ) is Some,
    ensures
        radiance(r, depth, world, samples, bounce) == ({
            let rec = world.hit_spec(r, visible_range())->0;
            let scattered = rec.mat->0.scatter_spec(r, rec, samples[bounce])->0;
            scattered.attenuation.mul(
                radiance(scattered.ray, depth - 1, world, samples, bounce + 1),
            )
        }),
{
}

/// The colour that the ray `r` brings back from the scene `world` after at
/// most `depth` bounces. `samples` holds a random unit vector for each bounce
/// that may happen.
pub fn ray_color<H: Hittable>(r: &Ray, depth: i32, world: &H, samples: &Vec<Vec3>) -> (color: Color)
    requires
        depth <= samples@.len(),
    ensures
        color == radiance(*r, depth as int, *world, samples@, 0),
        depth <= 0 ==> color == black(),
{
    color_from(r, depth, world, samples, 0)
}

/// `ray_color` from the bounce numbered `bounce` on.
fn color_from<H: Hittable>(
    r: &Ray,
    depth: i32,
    world: &H,
    samples: &Vec<Vec3>,
    bounce: usize,
) -> (color: Color)
    requires
        bounce + depth <= samples@.len(),
    ensures
        color == radiance(*r, depth as int, *world, samples@, bounce as int),
    decreases depth,
{
    if depth <= 0 {
        return Color::default();
    }
    assert(bounce < samples.len());
    let range = Interval::new(
        IntervalParameter::Range {
            min: Scalar { bits: SHADOW_BIAS_BITS },
            max: Scalar { bits: INFINITY_BITS },
        },
    );
    match world.hit(r, range) {
        Some(rec) => {
            if let Some(mat) = &rec.mat {
                if let Some(scattered) = mat.scatter(r, &rec, &samples[bounce]) {
                    return scattered.attenuation.mul(
                        color_from(&scattered.ray, depth - 1, world, samples, bounce + 1),
                    );
                }
            }
            Color::default()
        },
        None => {
            let unit_direction = unit_vector(r.direction());
            let a = Scalar { bits: HALF_BITS }.mul(
                unit_direction.y().add(Scalar { bits: ONE_BITS }),
            );
            Color::new(Scalar { bits: ONE_BITS }, Scalar { bits: ONE_BITS }, Scalar { bits: ONE_BITS })
                .scale(Scalar { bits: ONE_BITS }.sub(a)).add(
                Color::new(
                    Scalar { bits: HALF_BITS },
                    Scalar { bits: SKY_GREEN_BITS },
                    Scalar { bits: ONE_BITS },
                ).scale(a),
            )
        },
    }
}

} // verus!
