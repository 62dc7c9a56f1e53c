//! The double-napped cone about the y axis: the cylinder quadratic with the
//! y-squared term negated, a single linear root when the ray parallels a nap,
//! and end caps whose radius grows with the extent.

use vstd::prelude::*;

verus! {

use crate::bounds::BoundingBox;
use crate::fx;
use crate::fx::{spec_add, spec_sub, spec_neg, spec_mul, spec_div, spec_abs, SCALE};
use crate::material::{Material, spec_default_material};
use crate::matrix::{Matrix, spec_inverse4, is_identity, lemma_identity_inverse};
use crate::ray::Ray;
use crate::tuple::Tuple;
use crate::EPSILON;

#[derive(Clone, Copy, Debug)]
pub struct Cone {
    pub minimum: i64,
    pub maximum: i64,
    pub closed: bool,
    pub transform: Matrix,
    pub inverse: Matrix,
    pub material: Material,
    pub parent_id: Option<usize>,
}

/// Whether the ray at parameter `t` lands within `radius` of the y axis.
pub open spec fn spec_cone_cap_hit(r: Ray, t: int, radius: int) -> bool {
    let x = spec_add(r.origin.x as int, spec_mul(t, r.direction.x as int));
    let z = spec_add(r.origin.z as int, spec_mul(t, r.direction.z as int));
    spec_add(spec_mul(x, x), spec_mul(z, z)) <= spec_mul(radius, radius)
}

pub open spec fn spec_cone_side_ts(c: Cone, r: Ray) -> Seq<i64> {
    let dx = r.direction.x as int;
    let dy = r.direction.y as int;
    let dz = r.direction.z as int;
    let ox = r.origin.x as int;
    let oy = r.origin.y as int;
    let oz = r.origin.z as int;
    let a = spec_add(spec_sub(spec_mul(dx, dx), spec_mul(dy, dy)), spec_mul(dz, dz));
    let b = spec_add(
        spec_sub(
            spec_mul(spec_mul(2 * SCALE, ox), dx),
            spec_mul(spec_mul(2 * SCALE, oy), dy),
        ),
        spec_mul(spec_mul(2 * SCALE, oz), dz),
    );
    let cc = spec_add(spec_sub(spec_mul(ox, ox), spec_mul(oy, oy)), spec_mul(oz, oz));
    if spec_abs(a) >= EPSILON {
        let disc = spec_sub(spec_mul(b, b), spec_mul(spec_mul(4 * SCALE, a), cc));
        if disc < 0 {
            Seq::empty()
        } else {
            let sq = fx::spec_sqrt(disc);
            let two_a = spec_mul(2 * SCALE, a);
            let ta = spec_div(spec_sub(spec_neg(b), sq), two_a);
            let tb = spec_div(spec_add(spec_neg(b), sq), two_a);
            let t0 = if ta > tb { tb } else { ta };
            let t1 = if ta > tb { ta } else { tb };
            let y0 = spec_add(oy, spec_mul(t0, dy));
            let s = if c.minimum < y0 && y0 < c.maximum {
                seq![t0 as i64]
            } else {
                Seq::empty()
            };
            let y1 = spec_add(oy, spec_mul(t1, dy));
            if c.minimum < y1 && y1 < c.maximum {
                s.push(t1 as i64)
            } else {
                s
            }
        }
    } else {
        // parallel to one nap: a single linear root (division saturates if
        // the linear coefficient also vanishes)
        seq![spec_div(spec_neg(cc), spec_mul(b, 2 * SCALE)) as i64]
    }
}

pub open spec fn spec_cone_cap_ts(c: Cone, r: Ray) -> Seq<i64> {
    let dy = r.direction.y as int;
    let oy = r.origin.y as int;
    if !c.closed || spec_abs(dy) < EPSILON {
        Seq::empty()
    } else {
        let t_lo = spec_div(spec_sub(c.minimum as int, oy), dy);
        let s = if spec_cone_cap_hit(r, t_lo, c.minimum as int) {
            seq![t_lo as i64]
        } else {
            Seq::empty()
        };
        let t_hi = spec_div(spec_sub(c.maximum as int, oy), dy);
        if spec_cone_cap_hit(r, t_hi, c.maximum as int) {
            s.push(t_hi as i64)
        } else {
            s
        }
    }
}

pub open spec fn spec_cone_ts(c: Cone, r: Ray) -> Seq<i64> {
    spec_cone_side_ts(c, r) + spec_cone_cap_ts(c, r)
}

/// The radial normal scaled by the slope: the y component is the distance
/// from the axis, negated above the apex — except within the tolerance of a
/// capped end, inside that end's disc (radius `|y|`), where the caps take
/// over with a plain vertical normal.
pub open spec fn spec_cone_normal(c: Cone, p: Tuple) -> Tuple {
    let dist = spec_add(spec_mul(p.x as int, p.x as int), spec_mul(p.z as int, p.z as int));
    if dist < spec_mul(c.maximum as int, c.maximum as int) && p.y as int >= spec_sub(
        c.maximum as int,
        EPSILON as int,
    ) {
        Tuple { x: 0i64, y: SCALE, z: 0i64, w: 0i64 }
    } else if dist < spec_mul(c.minimum as int, c.minimum as int) && p.y as int <= spec_add(
        c.minimum as int,
        EPSILON as int,
    ) {
        Tuple { x: 0i64, y: (-SCALE) as i64, z: 0i64, w: 0i64 }
    } else {
        let y = fx::spec_sqrt(dist);
        let y_signed = if p.y > 0i64 {
            spec_neg(y)
        } else {
            y
        };
        Tuple { x: p.x, y: y_signed as i64, z: p.z, w: 0i64 }
    }
}

impl Cone {
    pub open spec fn wf(self) -> bool {
        spec_inverse4(self.transform, self.inverse) && self.material.wf()
    }

    pub fn new() -> (c: Cone)
        ensures
            c.wf(),
            is_identity(c.transform),
            is_identity(c.inverse),
            c.material == spec_default_material(),
            c.parent_id is None,
            c.minimum == i64::MIN && c.maximum == i64::MAX && !c.closed,
    {
        let t = Matrix::identity();
        proof {
            lemma_identity_inverse(t);
        }
        Cone {
            minimum: i64::MIN,
            maximum: i64::MAX,
            closed: false,
            transform: t,
            inverse: t,
            material: Material::default(),
            parent_id: None,
        }
    }

    pub fn new_with_min_max(minimum: i64, maximum: i64) -> (c: Cone)
        ensures
            c.wf(),
            is_identity(c.transform),
            is_identity(c.inverse),
            c.material == spec_default_material(),
            c.parent_id is None,
            c.minimum == minimum && c.maximum == maximum && !c.closed,
    {
        let mut c = Cone::new();
        c.minimum = minimum;
        c.maximum = maximum;
        c
    }

    pub fn new_with_min_max_closed(minimum: i64, maximum: i64, closed: bool) -> (c: Cone)
        ensures
            c.wf(),
            is_identity(c.transform),
            is_identity(c.inverse),
            c.material == spec_default_material(),
            c.parent_id is None,
            c.minimum == minimum && c.maximum == maximum && c.closed == closed,
    {
        let mut c = Cone::new_with_min_max(minimum, maximum);
        c.closed = closed;
        c
    }

    fn check_cap(ray: &Ray, t: i64, radius: i64) -> (r: bool)
        ensures
            r == spec_cone_cap_hit(*ray, t as int, radius as int),
    {
        let x = fx::fx_add(ray.origin.x, fx::fx_mul(t, ray.direction.x));
        let z = fx::fx_add(ray.origin.z, fx::fx_mul(t, ray.direction.z));
        fx::fx_add(fx::fx_mul(x, x), fx::fx_mul(z, z)) <= fx::fx_mul(radius, radius)
    }

    fn intersect_caps(&self, local_ray: &Ray, xs: &mut Vec<i64>)
        ensures
            final(xs)@ == old(xs)@ + spec_cone_cap_ts(*self, *local_ray),
    {
        if !self.closed || fx::fx_abs(local_ray.direction.y) < EPSILON {
            proof {
                assert(xs@ =~= xs@ + spec_cone_cap_ts(*self, *local_ray));
            }
            return ;
        }
        let t_lo = fx::fx_div(fx::fx_sub(self.minimum, local_ray.origin.y), local_ray.direction.y);
        if Cone::check_cap(local_ray, t_lo, self.minimum) {
            xs.push(t_lo);
        }
        let t_hi = fx::fx_div(fx::fx_sub(self.maximum, local_ray.origin.y), local_ray.direction.y);
        if Cone::check_cap(local_ray, t_hi, self.maximum) {
            xs.push(t_hi);
        }
        proof {
            assert(xs@ =~= old(xs)@ + spec_cone_cap_ts(*self, *local_ray));
        }
    }

    pub fn local_intersect(&self, local_ray: &Ray) -> (ts: Vec<i64>)
        ensures
            ts@ == spec_cone_ts(*self, *local_ray),
    {
        let mut xs: Vec<i64> = Vec::new();

        let a = fx::fx_add(
            fx::fx_sub(
                fx::fx_mul(local_ray.direction.x, local_ray.direction.x),
                fx::fx_mul(local_ray.direction.y, local_ray.direction.y),
            ),
            fx::fx_mul(local_ray.direction.z, local_ray.direction.z),
        );
        let b = fx::fx_add(
            fx::fx_sub(
                fx::fx_mul(fx::fx_mul(2 * SCALE, local_ray.origin.x), local_ray.direction.x),
                fx::fx_mul(fx::fx_mul(2 * SCALE, local_ray.origin.y), local_ray.direction.y),
            ),
            fx::fx_mul(fx::fx_mul(2 * SCALE, local_ray.origin.z), local_ray.direction.z),
        );
        let c = fx::fx_add(
            fx::fx_sub(
                fx::fx_mul(local_ray.origin.x, local_ray.origin.x),
                fx::fx_mul(local_ray.origin.y, local_ray.origin.y),
            ),
            fx::fx_mul(local_ray.origin.z, local_ray.origin.z),
        );

        if fx::fx_abs(a) >= EPSILON {
            // ray is not parallel to a nap
            let discriminant = fx::fx_sub(
                fx::fx_mul(b, b),
                fx::fx_mul(fx::fx_mul(4 * SCALE, a), c),
            );

            if discriminant >= 0 {
                let sq = fx::fx_sqrt(discriminant);
                let two_a = fx::fx_mul(2 * SCALE, a);
                let ta = fx::fx_div(fx::fx_sub(fx::fx_neg(b), sq), two_a);
                let tb = fx::fx_div(fx::fx_add(fx::fx_neg(b), sq), two_a);
                let (t0, t1) = if ta > tb {
                    (tb, ta)
                } else {
                    (ta, tb)
                };

                let y0 = fx::fx_add(local_ray.origin.y, fx::fx_mul(t0, local_ray.direction.y));
                if self.minimum < y0 && y0 < self.maximum {
                    xs.push(t0);
                }
                let y1 = fx::fx_add(local_ray.origin.y, fx::fx_mul(t1, local_ray.direction.y));
                if self.minimum < y1 && y1 < self.maximum {
                    xs.push(t1);
                }
            }
        } else {
            xs.push(fx::fx_div(fx::fx_neg(c), fx::fx_mul(b, 2 * SCALE)));
        }
        proof {
            assert(xs@ =~= spec_cone_side_ts(*self, *local_ray));
        }

        self.intersect_caps(local_ray, &mut xs);
        xs
    }

    pub fn local_normal_at(&self, local_point: Tuple) -> (n: Tuple)
        ensures
            n == spec_cone_normal(*self, local_point),
    {
        // the square of the distance from the y axis
        let dist = fx::fx_add(
            fx::fx_mul(local_point.x, local_point.x),
            fx::fx_mul(local_point.z, local_point.z),
        );

        if dist < fx::fx_mul(self.maximum, self.maximum) && local_point.y >= fx::fx_sub(
            self.maximum,
            EPSILON,
        ) {
            Tuple::vector(0, SCALE, 0)
        } else if dist < fx::fx_mul(self.minimum, self.minimum) && local_point.y <= fx::fx_add(
            self.minimum,
            EPSILON,
        ) {
            Tuple::vector(0, -SCALE, 0)
        } else {
            proof {
                fx::lemma_square_nonneg(local_point.x as int);
                fx::lemma_square_nonneg(local_point.z as int);
            }
            let y = fx::fx_sqrt(dist);
            let y = if local_point.y > 0 {
                fx::fx_neg(y)
            } else {
                y
            };
            Tuple::vector(local_point.x, y, local_point.z)
        }
    }

    /// The y extent around the axis, as wide as the larger end's radius.
    pub fn bounds(&self) -> (b: BoundingBox)
        ensures
            ({
                let limit = if spec_abs(self.minimum as int) > spec_abs(self.maximum as int) {
                    spec_abs(self.minimum as int)
                } else {
                    spec_abs(self.maximum as int)
                };
                b.min == (Tuple { x: spec_neg(limit) as i64, y: self.minimum, z: spec_neg(limit) as i64, w: SCALE })
                    && b.max == (Tuple { x: limit as i64, y: self.maximum, z: limit as i64, w: SCALE })
            }),
    {
        let lo = fx::fx_abs(self.minimum);
        let hi = fx::fx_abs(self.maximum);
        let limit = if lo > hi {
            lo
        } else {
            hi
        };
        BoundingBox::new(
            Tuple::point(fx::fx_neg(limit), self.minimum, fx::fx_neg(limit)),
            Tuple::point(limit, self.maximum, limit),
        )
    }
}

} // verus!
