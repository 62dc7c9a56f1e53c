//! A ray: a point of origin and a direction vector, with parametric position
//! evaluation and transformation by a matrix.

use vstd::prelude::*;

verus! {

use crate::matrix::Matrix;
use crate::tuple::{Tuple, spec_tuple_add, spec_tuple_scale};

#[derive(Clone, Copy, Debug)]
pub struct Ray {
    pub origin: Tuple,
    pub direction: Tuple,
}

/// `origin + direction * t`.
pub open spec fn spec_position(r: Ray, t: int) -> Tuple {
    spec_tuple_add(r.origin, spec_tuple_scale(r.direction, t))
}

/// Both endpoints of the ray taken through the matrix.
pub open spec fn spec_ray_transform(r: Ray, m: Matrix) -> Ray {
    Ray { origin: m.spec_mul_tuple(r.origin), direction: m.spec_mul_tuple(r.direction) }
}

impl Ray {
    pub fn new(origin: Tuple, direction: Tuple) -> (r: Ray)
        requires
            origin.is_point_spec(),
            direction.is_vector_spec(),
        ensures
            r == (Ray { origin, direction }),
    {
        Ray { origin, direction }
    }

    pub fn position(&self, t: i64) -> (p: Tuple)
        ensures
            p == spec_position(*self, t as int),
    {
        self.origin.add(self.direction.mul_scalar(t))
    }

    pub fn transform(&self, m: &Matrix) -> (r: Ray)
        ensures
            r == spec_ray_transform(*self, *m),
    {
        Ray { origin: m.mul_tuple(self.origin), direction: m.mul_tuple(self.direction) }
    }
}

} // verus!
