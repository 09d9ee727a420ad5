//! A ray-intersection kernel and path integrator: intervals, axis-aligned
//! boxes, spheres, object lists, a bounding-volume hierarchy, materials and
//! the recursive colour of a ray.
//!
//! Numbers are binary64 values held by their bit patterns (`scalar`), so
//! that every comparison is integer logic with a contract, and every sum,
//! product, quotient and root is named in the contracts of the functions
//! that compute with it.
//!
//! Whatever is drawn at random until it fits is drawn by the caller: the
//! functions here take the random unit vectors and points that they need,
//! and offer the test that decides on each candidate.

pub mod scalar;
pub mod interval;
pub mod vec3;
pub mod ray;
pub mod color;
pub mod aabb;
pub mod hittable;
pub mod material;
pub mod sphere;
pub mod hittable_list;
pub mod rtweekend;
pub mod bvh;
pub mod integrator;
pub mod camera;
