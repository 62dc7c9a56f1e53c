//! Axis-aligned bounding boxes: containment, enlargement, transformation
//! through a matrix (by re-boxing all eight corners), the slab ray test, and
//! the longest-axis split used by the group subdivision.
//!
//! A direction component smaller than the comparison tolerance is not divided
//! by; the numerator is multiplied by the largest scalar instead, which keeps
//! its sign and dwarfs every finite parameter, the fixed-point counterpart of
//! the signed-infinity substitution.

use vstd::prelude::*;

verus! {

use crate::fx;
use crate::fx::{spec_sub, spec_mul, spec_div, spec_abs, SCALE};
use crate::matrix::Matrix;
use crate::ray::Ray;
use crate::tuple::Tuple;
use crate::EPSILON;

#[derive(Clone, Copy, Debug)]
pub struct BoundingBox {
    pub min: Tuple,
    pub max: Tuple,
}

pub open spec fn spec_contains_point(b: BoundingBox, p: Tuple) -> bool {
    &&& b.min.x <= p.x <= b.max.x
    &&& b.min.y <= p.y <= b.max.y
    &&& b.min.z <= p.z <= b.max.z
}

pub open spec fn spec_contains_box(b: BoundingBox, other: BoundingBox) -> bool {
    spec_contains_point(b, other.min) && spec_contains_point(b, other.max)
}

pub open spec fn spec_add_point(b: BoundingBox, p: Tuple) -> BoundingBox {
    BoundingBox {
        min: Tuple {
            x: if p.x < b.min.x { p.x } else { b.min.x },
            y: if p.y < b.min.y { p.y } else { b.min.y },
            z: if p.z < b.min.z { p.z } else { b.min.z },
            w: SCALE,
        },
        max: Tuple {
            x: if p.x > b.max.x { p.x } else { b.max.x },
            y: if p.y > b.max.y { p.y } else { b.max.y },
            z: if p.z > b.max.z { p.z } else { b.max.z },
            w: SCALE,
        },
    }
}

/// The union of two boxes: componentwise minimum of the minima and maximum
/// of the maxima, so the empty box is an identity on either side.
pub open spec fn spec_add_box(b: BoundingBox, other: BoundingBox) -> BoundingBox {
    BoundingBox {
        min: Tuple {
            x: if other.min.x < b.min.x { other.min.x } else { b.min.x },
            y: if other.min.y < b.min.y { other.min.y } else { b.min.y },
            z: if other.min.z < b.min.z { other.min.z } else { b.min.z },
            w: SCALE,
        },
        max: Tuple {
            x: if other.max.x > b.max.x { other.max.x } else { b.max.x },
            y: if other.max.y > b.max.y { other.max.y } else { b.max.y },
            z: if other.max.z > b.max.z { other.max.z } else { b.max.z },
            w: SCALE,
        },
    }
}

/// The union is commutative, and the empty box is an identity on either
/// side of it (for boxes with point corners, as every constructor builds).
pub proof fn lemma_add_box_union(a: BoundingBox, b: BoundingBox)
    ensures
        spec_add_box(a, b) == spec_add_box(b, a),
        a.min.w == SCALE && a.max.w == SCALE ==> spec_add_box(a, spec_empty_box()) == a
            && spec_add_box(spec_empty_box(), a) == a,
{
}

/// The empty box: corners crossed so that any added point becomes both.
pub open spec fn spec_empty_box() -> BoundingBox {
    BoundingBox {
        min: Tuple { x: i64::MAX, y: i64::MAX, z: i64::MAX, w: SCALE },
        max: Tuple { x: i64::MIN, y: i64::MIN, z: i64::MIN, w: SCALE },
    }
}

/// The axis-aligned box around all eight transformed corners of a box.
pub open spec fn spec_box_transform(b: BoundingBox, m: Matrix) -> BoundingBox {
    spec_add_point(
        spec_add_point(
            spec_add_point(
                spec_add_point(
                    spec_add_point(
                        spec_add_point(
                            spec_add_point(
                                spec_add_point(
                                    spec_empty_box(),
                                    m.spec_mul_tuple(b.min),
                                ),
                                m.spec_mul_tuple(
                                    Tuple { x: b.min.x, y: b.min.y, z: b.max.z, w: SCALE },
                                ),
                            ),
                            m.spec_mul_tuple(
                                Tuple { x: b.min.x, y: b.max.y, z: b.min.z, w: SCALE },
                            ),
                        ),
                        m.spec_mul_tuple(Tuple { x: b.min.x, y: b.max.y, z: b.max.z, w: SCALE }),
                    ),
                    m.spec_mul_tuple(Tuple { x: b.max.x, y: b.min.y, z: b.min.z, w: SCALE }),
                ),
                m.spec_mul_tuple(Tuple { x: b.max.x, y: b.min.y, z: b.max.z, w: SCALE }),
            ),
            m.spec_mul_tuple(Tuple { x: b.max.x, y: b.max.y, z: b.min.z, w: SCALE }),
        ),
        m.spec_mul_tuple(b.max),
    )
}

/// Entry and exit parameters of one slab, sorted; a near-zero direction
/// multiplies by `i64::MAX` instead of dividing.
pub open spec fn spec_check_axis(origin: int, direction: int, min: int, max: int) -> (int, int) {
    let tmin_n = spec_sub(min, origin);
    let tmax_n = spec_sub(max, origin);
    let tmin = if spec_abs(direction) >= EPSILON {
        spec_div(tmin_n, direction)
    } else {
        spec_mul(tmin_n, i64::MAX as int)
    };
    let tmax = if spec_abs(direction) >= EPSILON {
        spec_div(tmax_n, direction)
    } else {
        spec_mul(tmax_n, i64::MAX as int)
    };
    if tmin > tmax {
        (tmax, tmin)
    } else {
        (tmin, tmax)
    }
}

/// The slab test: the ray hits the box when the largest entry parameter does
/// not exceed the smallest exit parameter.
pub open spec fn spec_intersects(b: BoundingBox, r: Ray) -> bool {
    let xt = spec_check_axis(r.origin.x as int, r.direction.x as int, b.min.x as int, b.max.x as int);
    let yt = spec_check_axis(r.origin.y as int, r.direction.y as int, b.min.y as int, b.max.y as int);
    let zt = spec_check_axis(r.origin.z as int, r.direction.z as int, b.min.z as int, b.max.z as int);
    let tmin = if xt.0 > yt.0 { xt.0 } else { yt.0 };
    let tmin = if zt.0 > tmin { zt.0 } else { tmin };
    let tmax = if xt.1 < yt.1 { xt.1 } else { yt.1 };
    let tmax = if zt.1 < tmax { zt.1 } else { tmax };
    tmin <= tmax
}

/// The two halves of the box bisected across its single longest axis
/// (ties prefer x, then y); the halves share the splitting plane.
pub open spec fn spec_split(b: BoundingBox) -> (BoundingBox, BoundingBox) {
    let dx = spec_sub(b.max.x as int, b.min.x as int);
    let dy = spec_sub(b.max.y as int, b.min.y as int);
    let dz = spec_sub(b.max.z as int, b.min.z as int);
    let greatest = if dx >= dy && dx >= dz {
        dx
    } else if dy >= dz {
        dy
    } else {
        dz
    };
    let half = spec_div(greatest, 2 * SCALE);
    if greatest == dx {
        let mid = fx::spec_add(b.min.x as int, half);
        (
            BoundingBox {
                min: b.min,
                max: Tuple { x: mid as i64, y: b.max.y, z: b.max.z, w: SCALE },
            },
            BoundingBox {
                min: Tuple { x: mid as i64, y: b.min.y, z: b.min.z, w: SCALE },
                max: b.max,
            },
        )
    } else if greatest == dy {
        let mid = fx::spec_add(b.min.y as int, half);
        (
            BoundingBox {
                min: b.min,
                max: Tuple { x: b.max.x, y: mid as i64, z: b.max.z, w: SCALE },
            },
            BoundingBox {
                min: Tuple { x: b.min.x, y: mid as i64, z: b.min.z, w: SCALE },
                max: b.max,
            },
        )
    } else {
        let mid = fx::spec_add(b.min.z as int, half);
        (
            BoundingBox {
                min: b.min,
                max: Tuple { x: b.max.x, y: b.max.y, z: mid as i64, w: SCALE },
            },
            BoundingBox {
                min: Tuple { x: b.min.x, y: b.min.y, z: mid as i64, w: SCALE },
                max: b.max,
            },
        )
    }
}

impl BoundingBox {
    pub fn new(min: Tuple, max: Tuple) -> (b: BoundingBox)
        ensures
            b == (BoundingBox { min, max }),
    {
        BoundingBox { min, max }
    }

    /// The empty box: every corner below the other, so that any added point
    /// becomes both corners.
    pub fn empty() -> (b: BoundingBox)
        ensures
            b.min == (Tuple { x: i64::MAX, y: i64::MAX, z: i64::MAX, w: SCALE }),
            b.max == (Tuple { x: i64::MIN, y: i64::MIN, z: i64::MIN, w: SCALE }),
    {
        BoundingBox {
            min: Tuple::point(i64::MAX, i64::MAX, i64::MAX),
            max: Tuple::point(i64::MIN, i64::MIN, i64::MIN),
        }
    }

    pub fn contains_point(&self, p: Tuple) -> (r: bool)
        ensures
            r == spec_contains_point(*self, p),
    {
        p.x >= self.min.x && p.x <= self.max.x && p.y >= self.min.y && p.y <= self.max.y && p.z
            >= self.min.z && p.z <= self.max.z
    }

    pub fn contains_box(&self, other: BoundingBox) -> (r: bool)
        ensures
            r == spec_contains_box(*self, other),
    {
        self.contains_point(other.min) && self.contains_point(other.max)
    }

    pub fn add_point(self, p: Tuple) -> (b: BoundingBox)
        ensures
            b == spec_add_point(self, p),
    {
        BoundingBox {
            min: Tuple {
                x: if p.x < self.min.x { p.x } else { self.min.x },
                y: if p.y < self.min.y { p.y } else { self.min.y },
                z: if p.z < self.min.z { p.z } else { self.min.z },
                w: SCALE,
            },
            max: Tuple {
                x: if p.x > self.max.x { p.x } else { self.max.x },
                y: if p.y > self.max.y { p.y } else { self.max.y },
                z: if p.z > self.max.z { p.z } else { self.max.z },
                w: SCALE,
            },
        }
    }

    pub fn add_box(self, other: BoundingBox) -> (b: BoundingBox)
        ensures
            b == spec_add_box(self, other),
    {
        BoundingBox {
            min: Tuple {
                x: if other.min.x < self.min.x { other.min.x } else { self.min.x },
                y: if other.min.y < self.min.y { other.min.y } else { self.min.y },
                z: if other.min.z < self.min.z { other.min.z } else { self.min.z },
                w: SCALE,
            },
            max: Tuple {
                x: if other.max.x > self.max.x { other.max.x } else { self.max.x },
                y: if other.max.y > self.max.y { other.max.y } else { self.max.y },
                z: if other.max.z > self.max.z { other.max.z } else { self.max.z },
                w: SCALE,
            },
        }
    }

    /// The axis-aligned box around all eight transformed corners of this box.
    pub fn transform(&self, matrix: &Matrix) -> (b: BoundingBox)
        ensures
            b == spec_box_transform(*self, *matrix),
    {
        BoundingBox::empty()
            .add_point(matrix.mul_tuple(self.min))
            .add_point(matrix.mul_tuple(Tuple::new(self.min.x, self.min.y, self.max.z, SCALE)))
            .add_point(matrix.mul_tuple(Tuple::new(self.min.x, self.max.y, self.min.z, SCALE)))
            .add_point(matrix.mul_tuple(Tuple::new(self.min.x, self.max.y, self.max.z, SCALE)))
            .add_point(matrix.mul_tuple(Tuple::new(self.max.x, self.min.y, self.min.z, SCALE)))
            .add_point(matrix.mul_tuple(Tuple::new(self.max.x, self.min.y, self.max.z, SCALE)))
            .add_point(matrix.mul_tuple(Tuple::new(self.max.x, self.max.y, self.min.z, SCALE)))
            .add_point(matrix.mul_tuple(self.max))
    }

    /// One slab of the ray test; reused by the cube primitive.
    pub fn check_axis(origin: i64, direction: i64, min: i64, max: i64) -> (r: (i64, i64))
        ensures
            (r.0 as int, r.1 as int) == spec_check_axis(
                origin as int,
                direction as int,
                min as int,
                max as int,
            ),
    {
        let tmin_numerator = fx::fx_sub(min, origin);
        let tmax_numerator = fx::fx_sub(max, origin);
        let (tmin, tmax) = if fx::fx_abs(direction) >= EPSILON {
            (fx::fx_div(tmin_numerator, direction), fx::fx_div(tmax_numerator, direction))
        } else {
            (fx::fx_mul(tmin_numerator, i64::MAX), fx::fx_mul(tmax_numerator, i64::MAX))
        };
        if tmin > tmax {
            (tmax, tmin)
        } else {
            (tmin, tmax)
        }
    }

    pub fn intersects(&self, ray: &Ray) -> (r: bool)
        ensures
            r == spec_intersects(*self, *ray),
    {
        let (xtmin, xtmax) = BoundingBox::check_axis(
            ray.origin.x,
            ray.direction.x,
            self.min.x,
            self.max.x,
        );
        let (ytmin, ytmax) = BoundingBox::check_axis(
            ray.origin.y,
            ray.direction.y,
            self.min.y,
            self.max.y,
        );
        let (ztmin, ztmax) = BoundingBox::check_axis(
            ray.origin.z,
            ray.direction.z,
            self.min.z,
            self.max.z,
        );
        let tmin = if xtmin > ytmin { xtmin } else { ytmin };
        let tmin = if ztmin > tmin { ztmin } else { tmin };
        let tmax = if xtmax < ytmax { xtmax } else { ytmax };
        let tmax = if ztmax < tmax { ztmax } else { tmax };
        tmin <= tmax
    }

    pub fn split(&self) -> (r: (BoundingBox, BoundingBox))
        ensures
            r == spec_split(*self),
    {
        let dx = fx::fx_sub(self.max.x, self.min.x);
        let dy = fx::fx_sub(self.max.y, self.min.y);
        let dz = fx::fx_sub(self.max.z, self.min.z);

        let greatest = if dx >= dy && dx >= dz {
            dx
        } else if dy >= dz {
            dy
        } else {
            dz
        };

        let mut x0 = self.min.x;
        let mut y0 = self.min.y;
        let mut z0 = self.min.z;
        let mut x1 = self.max.x;
        let mut y1 = self.max.y;
        let mut z1 = self.max.z;

        if greatest == dx {
            x0 = fx::fx_add(x0, fx::fx_div(dx, 2 * SCALE));
            x1 = x0;
        } else if greatest == dy {
            y0 = fx::fx_add(y0, fx::fx_div(dy, 2 * SCALE));
            y1 = y0;
        } else {
            z0 = fx::fx_add(z0, fx::fx_div(dz, 2 * SCALE));
            z1 = z0;
        }

        let mid_min = Tuple::point(x0, y0, z0);
        let mid_max = Tuple::point(x1, y1, z1);

        (
            BoundingBox { min: self.min, max: mid_max },
            BoundingBox { min: mid_min, max: self.max },
        )
    }
}

} // verus!
