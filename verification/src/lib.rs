//! A ray tracer core: scene intersection, bounding-volume acceleration, and
//! recursive shading over a fixed-point scalar arithmetic.
//!
//! Scalars are `i64` values scaled by `fx::SCALE` (one unit is 10^-6), so the
//! whole pipeline is exact integer arithmetic with saturation at the `i64`
//! range; `EPSILON` plays the role of the usual 1e-5 comparison tolerance.

use vstd::prelude::*;

pub mod arena;
pub mod bounds;
pub mod color;
pub mod cone;
pub mod cube;
pub mod cylinder;
pub mod fx;
pub mod group;
pub mod intersection;
pub mod light;
pub mod material;
pub mod matrix;
pub mod patterns;
pub mod plane;
pub mod ray;
pub mod shapes;
pub mod sphere;
pub mod transformations;
pub mod tuple;
pub mod world;

verus! {

/// Recursion budget for reflection/refraction rays.
pub const MAX_REFLECTION_RECURSION: u32 = 5;

/// Tolerance, in fixed-point units, used everywhere scalars are compared.
pub const EPSILON: i64 = 10;

/// The construction-time failures: a transform that cannot be inverted is
/// rejected when it is set, never discovered mid-render.
#[derive(Clone, Copy, Debug, PartialEq, Eq, Structural)]
pub enum TracerError {
    SingularTransform,
}

/// Whether two scalars lie within `EPSILON` of each other.
pub fn approx_eq(a: i64, b: i64) -> (r: bool)
    ensures
        r == fx::spec_approx_eq(a as int, b as int),
{
    let d: i128 = a as i128 - b as i128;
    -(EPSILON as i128) < d && d < EPSILON as i128
}

} // verus!
