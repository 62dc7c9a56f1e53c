//! The unit sphere about the origin: quadratic root finding in local space.

use vstd::prelude::*;

verus! {

use crate::bounds::BoundingBox;
use crate::fx;
use crate::fx::{spec_add, spec_sub, spec_neg, spec_mul, spec_div, SCALE};
use crate::material::{Material, spec_default_material};
use crate::matrix::{Matrix, spec_inverse4, is_identity, lemma_identity_inverse};
use crate::ray::Ray;
use crate::tuple::{Tuple, spec_dot, spec_tuple_sub};

#[derive(Clone, Copy, Debug)]
pub struct Sphere {
    pub transform: Matrix,
    pub inverse: Matrix,
    pub material: Material,
    pub parent_id: Option<usize>,
}

/// The discriminant of `|O + tD|^2 = 1` for a local ray.
pub open spec fn spec_sphere_disc(r: Ray) -> int {
    let s2r = spec_tuple_sub(r.origin, Tuple { x: 0i64, y: 0i64, z: 0i64, w: SCALE });
    let a = spec_dot(r.direction, r.direction);
    let b = spec_mul(2 * SCALE, spec_dot(r.direction, s2r));
    let c = spec_sub(spec_dot(s2r, s2r), SCALE as int);
    spec_sub(spec_mul(b, b), spec_mul(spec_mul(4 * SCALE, a), c))
}

/// Both quadratic roots in ascending order of the `-b -/+ sqrt(disc)`
/// numerators, or nothing when the discriminant is negative.
pub open spec fn spec_sphere_ts(r: Ray) -> Seq<i64> {
    let s2r = spec_tuple_sub(r.origin, Tuple { x: 0i64, y: 0i64, z: 0i64, w: SCALE });
    let a = spec_dot(r.direction, r.direction);
    let b = spec_mul(2 * SCALE, spec_dot(r.direction, s2r));
    let disc = spec_sphere_disc(r);
    if disc < 0 {
        Seq::empty()
    } else {
        let sq = fx::spec_sqrt(disc);
        let t1 = spec_div(spec_sub(spec_neg(b), sq), spec_mul(2 * SCALE, a));
        let t2 = spec_div(spec_add(spec_neg(b), sq), spec_mul(2 * SCALE, a));
        seq![t1 as i64, t2 as i64]
    }
}

impl Sphere {
    pub open spec fn wf(self) -> bool {
        spec_inverse4(self.transform, self.inverse) && self.material.wf()
    }

    pub fn new() -> (s: Sphere)
        ensures
            s.wf(),
            is_identity(s.transform),
            is_identity(s.inverse),
            s.material == spec_default_material(),
            s.parent_id is None,
    {
        let t = Matrix::identity();
        proof {
            lemma_identity_inverse(t);
        }
        Sphere { transform: t, inverse: t, material: Material::default(), parent_id: None }
    }

    pub fn local_intersect(&self, local_ray: &Ray) -> (ts: Vec<i64>)
        ensures
            ts@ == spec_sphere_ts(*local_ray),
    {
        let sphere_to_ray = local_ray.origin.sub(Tuple::origin());
        let a = local_ray.direction.dot(&local_ray.direction);
        let b = fx::fx_mul(2 * SCALE, local_ray.direction.dot(&sphere_to_ray));
        let c = fx::fx_sub(sphere_to_ray.dot(&sphere_to_ray), SCALE);

        let discriminant = fx::fx_sub(fx::fx_mul(b, b), fx::fx_mul(fx::fx_mul(4 * SCALE, a), c));

        if discriminant < 0 {
            let r: Vec<i64> = Vec::new();
            proof {
                assert(r@ =~= spec_sphere_ts(*local_ray));
            }
            r
        } else {
            let sq = fx::fx_sqrt(discriminant);
            let two_a = fx::fx_mul(2 * SCALE, a);
            let t1 = fx::fx_div(fx::fx_sub(fx::fx_neg(b), sq), two_a);
            let t2 = fx::fx_div(fx::fx_add(fx::fx_neg(b), sq), two_a);
            let mut r: Vec<i64> = Vec::new();
            r.push(t1);
            r.push(t2);
            proof {
                assert(r@ =~= spec_sphere_ts(*local_ray));
            }
            r
        }
    }

    /// The surface normal of the unit sphere: the point minus the origin.
    pub fn local_normal_at(&self, local_point: Tuple) -> (n: Tuple)
        ensures
            n == spec_tuple_sub(local_point, Tuple { x: 0i64, y: 0i64, z: 0i64, w: SCALE }),
    {
        local_point.sub(Tuple::origin())
    }

    /// The unit box.
    pub fn bounds(&self) -> (b: BoundingBox)
        ensures
            b.min == (Tuple { x: (-SCALE) as i64, y: (-SCALE) as i64, z: (-SCALE) as i64, w: SCALE }),
            b.max == (Tuple { x: SCALE, y: SCALE, z: SCALE, w: SCALE }),
    {
        BoundingBox::new(Tuple::point(-SCALE, -SCALE, -SCALE), Tuple::point(SCALE, SCALE, SCALE))
    }
}

} // verus!
