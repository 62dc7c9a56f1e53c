//! The xz plane: at most one root, none when the ray runs parallel to it.

use vstd::prelude::*;

verus! {

use crate::bounds::BoundingBox;
use crate::fx;
use crate::fx::{spec_neg, spec_div, spec_abs, SCALE};
use crate::material::{Material, spec_default_material};
use crate::matrix::{Matrix, spec_inverse4, is_identity, lemma_identity_inverse};
use crate::ray::Ray;
use crate::tuple::Tuple;
use crate::EPSILON;

#[derive(Clone, Copy, Debug)]
pub struct Plane {
    pub transform: Matrix,
    pub inverse: Matrix,
    pub material: Material,
    pub parent_id: Option<usize>,
}

/// `-origin.y / direction.y`, or nothing when the direction is level.
pub open spec fn spec_plane_ts(r: Ray) -> Seq<i64> {
    if spec_abs(r.direction.y as int) < EPSILON {
        Seq::empty()
    } else {
        seq![spec_div(spec_neg(r.origin.y as int), r.direction.y as int) as i64]
    }
}

impl Plane {
    pub open spec fn wf(self) -> bool {
        spec_inverse4(self.transform, self.inverse) && self.material.wf()
    }

    pub fn new() -> (p: Plane)
        ensures
            p.wf(),
            is_identity(p.transform),
            is_identity(p.inverse),
            p.material == spec_default_material(),
            p.parent_id is None,
    {
        let t = Matrix::identity();
        proof {
            lemma_identity_inverse(t);
        }
        Plane { transform: t, inverse: t, material: Material::default(), parent_id: None }
    }

    pub fn local_intersect(&self, local_ray: &Ray) -> (ts: Vec<i64>)
        ensures
            ts@ == spec_plane_ts(*local_ray),
    {
        if fx::fx_abs(local_ray.direction.y) < EPSILON {
            // ray is parallel to the plane
            let r: Vec<i64> = Vec::new();
            proof {
                assert(r@ =~= spec_plane_ts(*local_ray));
            }
            r
        } else {
            let t = fx::fx_div(fx::fx_neg(local_ray.origin.y), local_ray.direction.y);
            let mut r: Vec<i64> = Vec::new();
            r.push(t);
            proof {
                assert(r@ =~= spec_plane_ts(*local_ray));
            }
            r
        }
    }

    /// The constant +y normal.
    pub fn local_normal_at(&self, _local_point: Tuple) -> (n: Tuple)
        ensures
            n == (Tuple { x: 0i64, y: SCALE, z: 0i64, w: 0i64 }),
    {
        Tuple::vector(0, SCALE, 0)
    }

    /// Unbounded in x and z, flat in y.
    pub fn bounds(&self) -> (b: BoundingBox)
        ensures
            b.min == (Tuple { x: i64::MIN, y: 0i64, z: i64::MIN, w: SCALE }),
            b.max == (Tuple { x: i64::MAX, y: 0i64, z: i64::MAX, w: SCALE }),
    {
        BoundingBox::new(Tuple::point(i64::MIN, 0, i64::MIN), Tuple::point(i64::MAX, 0, i64::MAX))
    }
}

} // verus!
