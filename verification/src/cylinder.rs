//! The unit cylinder about the y axis, optionally clipped to a y extent and
//! optionally closed by flat end caps.

use vstd::prelude::*;

verus! {

use crate::bounds::BoundingBox;
use crate::fx;
use crate::fx::{spec_add, spec_sub, spec_neg, spec_mul, spec_div, spec_abs, SCALE};
use crate::material::{Material, spec_default_material};
use crate::matrix::{Matrix, spec_inverse4, is_identity, lemma_identity_inverse};
use crate::ray::Ray;
use crate::tuple::Tuple;
use crate::EPSILON;

#[derive(Clone, Copy, Debug)]
pub struct Cylinder {
    pub minimum: i64,
    pub maximum: i64,
    pub closed: bool,
    pub transform: Matrix,
    pub inverse: Matrix,
    pub material: Material,
    pub parent_id: Option<usize>,
}

/// Whether the ray at parameter `t` lands within one unit of the y axis.
pub open spec fn spec_cap_hit(r: Ray, t: int) -> bool {
    let x = spec_add(r.origin.x as int, spec_mul(t, r.direction.x as int));
    let z = spec_add(r.origin.z as int, spec_mul(t, r.direction.z as int));
    spec_add(spec_mul(x, x), spec_mul(z, z)) <= SCALE as int
}

/// The side-wall roots, clipped to the open y extent, ascending.
pub open spec fn spec_cylinder_side_ts(c: Cylinder, r: Ray) -> Seq<i64> {
    let dx = r.direction.x as int;
    let dy = r.direction.y as int;
    let dz = r.direction.z as int;
    let ox = r.origin.x as int;
    let oy = r.origin.y as int;
    let oz = r.origin.z as int;
    let a = spec_add(spec_mul(dx, dx), spec_mul(dz, dz));
    if spec_abs(a) < EPSILON {
        Seq::empty()
    } else {
        let b = spec_add(
            spec_mul(spec_mul(2 * SCALE, ox), dx),
            spec_mul(spec_mul(2 * SCALE, oz), dz),
        );
        let cc = spec_sub(spec_add(spec_mul(ox, ox), spec_mul(oz, oz)), SCALE as int);
        let disc = spec_sub(spec_mul(b, b), spec_mul(spec_mul(4 * SCALE, a), cc));
        if disc < 0 {
            Seq::empty()
        } else {
            let sq = fx::spec_sqrt(disc);
            let two_a = spec_mul(2 * SCALE, a);
            let ta = spec_div(spec_sub(spec_neg(b), sq), two_a);
            let tb = spec_div(spec_add(spec_neg(b), sq), two_a);
            let t0 = if ta > tb { tb } else { ta };
            let t1 = if ta > tb { ta } else { tb };
            let y0 = spec_add(oy, spec_mul(t0, dy));
            let s = if c.minimum < y0 && y0 < c.maximum {
                seq![t0 as i64]
            } else {
                Seq::empty()
            };
            let y1 = spec_add(oy, spec_mul(t1, dy));
            if c.minimum < y1 && y1 < c.maximum {
                s.push(t1 as i64)
            } else {
                s
            }
        }
    }
}

/// The end-cap roots: nothing unless the cylinder is closed and the ray is
/// not level; otherwise the plane hits at both extents, kept when they land
/// on the disks.
pub open spec fn spec_cylinder_cap_ts(c: Cylinder, r: Ray) -> Seq<i64> {
    let dy = r.direction.y as int;
    let oy = r.origin.y as int;
    if !c.closed || spec_abs(dy) < EPSILON {
        Seq::empty()
    } else {
        let t_lo = spec_div(spec_sub(c.minimum as int, oy), dy);
        let s = if spec_cap_hit(r, t_lo) {
            seq![t_lo as i64]
        } else {
            Seq::empty()
        };
        let t_hi = spec_div(spec_sub(c.maximum as int, oy), dy);
        if spec_cap_hit(r, t_hi) {
            s.push(t_hi as i64)
        } else {
            s
        }
    }
}

pub open spec fn spec_cylinder_ts(c: Cylinder, r: Ray) -> Seq<i64> {
    spec_cylinder_side_ts(c, r) + spec_cylinder_cap_ts(c, r)
}

/// The radial normal, except within the tolerance of a closed extent where
/// the caps take over.
pub open spec fn spec_cylinder_normal(c: Cylinder, p: Tuple) -> Tuple {
    let dist = spec_add(spec_mul(p.x as int, p.x as int), spec_mul(p.z as int, p.z as int));
    if dist < SCALE as int && p.y as int >= spec_sub(c.maximum as int, EPSILON as int) {
        Tuple { x: 0i64, y: SCALE, z: 0i64, w: 0i64 }
    } else if dist < SCALE as int && p.y as int <= spec_add(c.minimum as int, EPSILON as int) {
        Tuple { x: 0i64, y: (-SCALE) as i64, z: 0i64, w: 0i64 }
    } else {
        Tuple { x: p.x, y: 0i64, z: p.z, w: 0i64 }
    }
}

impl Cylinder {
    pub open spec fn wf(self) -> bool {
        spec_inverse4(self.transform, self.inverse) && self.material.wf()
    }

    pub fn new() -> (c: Cylinder)
        ensures
            c.wf(),
            is_identity(c.transform),
            is_identity(c.inverse),
            c.material == spec_default_material(),
            c.parent_id is None,
            c.minimum == i64::MIN && c.maximum == i64::MAX && !c.closed,
    {
        let t = Matrix::identity();
        proof {
            lemma_identity_inverse(t);
        }
        Cylinder {
            minimum: i64::MIN,
            maximum: i64::MAX,
            closed: false,
            transform: t,
            inverse: t,
            material: Material::default(),
            parent_id: None,
        }
    }

    pub fn new_with_min_max(minimum: i64, maximum: i64) -> (c: Cylinder)
        ensures
            c.wf(),
            is_identity(c.transform),
            is_identity(c.inverse),
            c.material == spec_default_material(),
            c.parent_id is None,
            c.minimum == minimum && c.maximum == maximum && !c.closed,
    {
        let mut c = Cylinder::new();
        c.minimum = minimum;
        c.maximum = maximum;
        c
    }

    pub fn new_with_min_max_closed(minimum: i64, maximum: i64, closed: bool) -> (c: Cylinder)
        ensures
            c.wf(),
            is_identity(c.transform),
            is_identity(c.inverse),
            c.material == spec_default_material(),
            c.parent_id is None,
            c.minimum == minimum && c.maximum == maximum && c.closed == closed,
    {
        let mut c = Cylinder::new_with_min_max(minimum, maximum);
        c.closed = closed;
        c
    }

    fn check_cap(ray: &Ray, t: i64) -> (r: bool)
        ensures
            r == spec_cap_hit(*ray, t as int),
    {
        let x = fx::fx_add(ray.origin.x, fx::fx_mul(t, ray.direction.x));
        let z = fx::fx_add(ray.origin.z, fx::fx_mul(t, ray.direction.z));
        fx::fx_add(fx::fx_mul(x, x), fx::fx_mul(z, z)) <= SCALE
    }

    fn intersect_caps(&self, local_ray: &Ray, xs: &mut Vec<i64>)
        ensures
            final(xs)@ == old(xs)@ + spec_cylinder_cap_ts(*self, *local_ray),
    {
        if !self.closed || fx::fx_abs(local_ray.direction.y) < EPSILON {
            proof {
                assert(xs@ =~= xs@ + spec_cylinder_cap_ts(*self, *local_ray));
            }
            return ;
        }
        let t_lo = fx::fx_div(fx::fx_sub(self.minimum, local_ray.origin.y), local_ray.direction.y);
        if Cylinder::check_cap(local_ray, t_lo) {
            xs.push(t_lo);
        }
        let t_hi = fx::fx_div(fx::fx_sub(self.maximum, local_ray.origin.y), local_ray.direction.y);
        if Cylinder::check_cap(local_ray, t_hi) {
            xs.push(t_hi);
        }
        proof {
            assert(xs@ =~= old(xs)@ + spec_cylinder_cap_ts(*self, *local_ray));
        }
    }

    pub fn local_intersect(&self, local_ray: &Ray) -> (ts: Vec<i64>)
        ensures
            ts@ == spec_cylinder_ts(*self, *local_ray),
    {
        let mut xs: Vec<i64> = Vec::new();

        let a = fx::fx_add(
            fx::fx_mul(local_ray.direction.x, local_ray.direction.x),
            fx::fx_mul(local_ray.direction.z, local_ray.direction.z),
        );
        if fx::fx_abs(a) >= EPSILON {
            // ray is not parallel to the y axis
            let b = fx::fx_add(
                fx::fx_mul(fx::fx_mul(2 * SCALE, local_ray.origin.x), local_ray.direction.x),
                fx::fx_mul(fx::fx_mul(2 * SCALE, local_ray.origin.z), local_ray.direction.z),
            );
            let c = fx::fx_sub(
                fx::fx_add(
                    fx::fx_mul(local_ray.origin.x, local_ray.origin.x),
                    fx::fx_mul(local_ray.origin.z, local_ray.origin.z),
                ),
                SCALE,
            );

            let discriminant = fx::fx_sub(
                fx::fx_mul(b, b),
                fx::fx_mul(fx::fx_mul(4 * SCALE, a), c),
            );

            if discriminant >= 0 {
                // ray intersects the cylinder
                let sq = fx::fx_sqrt(discriminant);
                let two_a = fx::fx_mul(2 * SCALE, a);
                let ta = fx::fx_div(fx::fx_sub(fx::fx_neg(b), sq), two_a);
                let tb = fx::fx_div(fx::fx_add(fx::fx_neg(b), sq), two_a);
                let (t0, t1) = if ta > tb {
                    (tb, ta)
                } else {
                    (ta, tb)
                };

                let y0 = fx::fx_add(local_ray.origin.y, fx::fx_mul(t0, local_ray.direction.y));
                if self.minimum < y0 && y0 < self.maximum {
                    xs.push(t0);
                }
                let y1 = fx::fx_add(local_ray.origin.y, fx::fx_mul(t1, local_ray.direction.y));
                if self.minimum < y1 && y1 < self.maximum {
                    xs.push(t1);
                }
            }
        }
        proof {
            assert(xs@ =~= spec_cylinder_side_ts(*self, *local_ray));
        }

        self.intersect_caps(local_ray, &mut xs);
        xs
    }

    pub fn local_normal_at(&self, local_point: Tuple) -> (n: Tuple)
        ensures
            n == spec_cylinder_normal(*self, local_point),
    {
        // the square of the distance from the y axis
        let dist = fx::fx_add(
            fx::fx_mul(local_point.x, local_point.x),
            fx::fx_mul(local_point.z, local_point.z),
        );

        if dist < SCALE && local_point.y >= fx::fx_sub(self.maximum, EPSILON) {
            Tuple::vector(0, SCALE, 0)
        } else if dist < SCALE && local_point.y <= fx::fx_add(self.minimum, EPSILON) {
            Tuple::vector(0, -SCALE, 0)
        } else {
            Tuple::vector(local_point.x, 0, local_point.z)
        }
    }

    /// One unit around the y axis, clipped to the y extent.
    pub fn bounds(&self) -> (b: BoundingBox)
        ensures
            b.min == (Tuple { x: (-SCALE) as i64, y: self.minimum, z: (-SCALE) as i64, w: SCALE }),
            b.max == (Tuple { x: SCALE, y: self.maximum, z: SCALE, w: SCALE }),
    {
        BoundingBox::new(
            Tuple::point(-SCALE, self.minimum, -SCALE),
            Tuple::point(SCALE, self.maximum, SCALE),
        )
    }
}

} // verus!
