//! The unit cube about the origin: the same slab test as the bounding box,
//! on fixed slabs of minus one to one.

use vstd::prelude::*;

verus! {

use crate::bounds::{BoundingBox, spec_check_axis};
use crate::fx;
use crate::fx::{spec_abs, SCALE};
use crate::material::{Material, spec_default_material};
use crate::matrix::{Matrix, spec_inverse4, is_identity, lemma_identity_inverse};
use crate::ray::Ray;
use crate::tuple::Tuple;

#[derive(Clone, Copy, Debug)]
pub struct Cube {
    pub transform: Matrix,
    pub inverse: Matrix,
    pub material: Material,
    pub parent_id: Option<usize>,
}

/// The overall slab entry and exit parameters, or nothing when they cross.
pub open spec fn spec_cube_ts(r: Ray) -> Seq<i64> {
    let xt = spec_check_axis(r.origin.x as int, r.direction.x as int, -SCALE as int, SCALE as int);
    let yt = spec_check_axis(r.origin.y as int, r.direction.y as int, -SCALE as int, SCALE as int);
    let zt = spec_check_axis(r.origin.z as int, r.direction.z as int, -SCALE as int, SCALE as int);
    let tmin = if xt.0 > yt.0 { xt.0 } else { yt.0 };
    let tmin = if zt.0 > tmin { zt.0 } else { tmin };
    let tmax = if xt.1 < yt.1 { xt.1 } else { yt.1 };
    let tmax = if zt.1 < tmax { zt.1 } else { tmax };
    if tmin > tmax {
        Seq::empty()
    } else {
        seq![tmin as i64, tmax as i64]
    }
}

/// The axis of largest magnitude carries the normal, signed by the component
/// (ties prefer x, then y).
pub open spec fn spec_cube_normal(p: Tuple) -> Tuple {
    let x_abs = spec_abs(p.x as int);
    let y_abs = spec_abs(p.y as int);
    let z_abs = spec_abs(p.z as int);
    let maxc = if y_abs > z_abs { y_abs } else { z_abs };
    let maxc = if x_abs > maxc { x_abs } else { maxc };
    if maxc == x_abs {
        Tuple { x: p.x, y: 0i64, z: 0i64, w: 0i64 }
    } else if maxc == y_abs {
        Tuple { x: 0i64, y: p.y, z: 0i64, w: 0i64 }
    } else {
        Tuple { x: 0i64, y: 0i64, z: p.z, w: 0i64 }
    }
}

impl Cube {
    pub open spec fn wf(self) -> bool {
        spec_inverse4(self.transform, self.inverse) && self.material.wf()
    }

    pub fn new() -> (c: Cube)
        ensures
            c.wf(),
            is_identity(c.transform),
            is_identity(c.inverse),
            c.material == spec_default_material(),
            c.parent_id is None,
    {
        let t = Matrix::identity();
        proof {
            lemma_identity_inverse(t);
        }
        Cube { transform: t, inverse: t, material: Material::default(), parent_id: None }
    }

    pub fn local_intersect(&self, local_ray: &Ray) -> (ts: Vec<i64>)
        ensures
            ts@ == spec_cube_ts(*local_ray),
    {
        let (xtmin, xtmax) = BoundingBox::check_axis(
            local_ray.origin.x,
            local_ray.direction.x,
            -SCALE,
            SCALE,
        );
        let (ytmin, ytmax) = BoundingBox::check_axis(
            local_ray.origin.y,
            local_ray.direction.y,
            -SCALE,
            SCALE,
        );
        let (ztmin, ztmax) = BoundingBox::check_axis(
            local_ray.origin.z,
            local_ray.direction.z,
            -SCALE,
            SCALE,
        );
        let tmin = if xtmin > ytmin { xtmin } else { ytmin };
        let tmin = if ztmin > tmin { ztmin } else { tmin };
        let tmax = if xtmax < ytmax { xtmax } else { ytmax };
        let tmax = if ztmax < tmax { ztmax } else { tmax };
        if tmin > tmax {
            // miss
            let r: Vec<i64> = Vec::new();
            proof {
                assert(r@ =~= spec_cube_ts(*local_ray));
            }
            r
        } else {
            let mut r: Vec<i64> = Vec::new();
            r.push(tmin);
            r.push(tmax);
            proof {
                assert(r@ =~= spec_cube_ts(*local_ray));
            }
            r
        }
    }

    pub fn local_normal_at(&self, local_point: Tuple) -> (n: Tuple)
        ensures
            n == spec_cube_normal(local_point),
    {
        let x_abs = fx::fx_abs(local_point.x);
        let y_abs = fx::fx_abs(local_point.y);
        let z_abs = fx::fx_abs(local_point.z);
        let maxc = if y_abs > z_abs { y_abs } else { z_abs };
        let maxc = if x_abs > maxc { x_abs } else { maxc };
        if maxc == x_abs {
            Tuple::vector(local_point.x, 0, 0)
        } else if maxc == y_abs {
            Tuple::vector(0, local_point.y, 0)
        } else {
            Tuple::vector(0, 0, local_point.z)
        }
    }

    /// The unit box.
    pub fn bounds(&self) -> (b: BoundingBox)
        ensures
            b.min == (Tuple { x: (-SCALE) as i64, y: (-SCALE) as i64, z: (-SCALE) as i64, w: SCALE }),
            b.max == (Tuple { x: SCALE, y: SCALE, z: SCALE, w: SCALE }),
    {
        BoundingBox::new(Tuple::point(-SCALE, -SCALE, -SCALE), Tuple::point(SCALE, SCALE, SCALE))
    }
}

} // verus!
