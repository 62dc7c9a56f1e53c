//! Points and vectors, distinguished by the homogeneous `w` component
//! (one whole unit for points, zero for vectors).  All components are
//! fixed-point scalars; every operation states its result exactly through
//! the spec functions of `fx`.

use vstd::prelude::*;

verus! {

use crate::fx;
use crate::fx::{spec_add, spec_sub, spec_neg, spec_mul, spec_div, SCALE};

#[derive(Clone, Copy, Debug)]
pub struct Tuple {
    pub x: i64,
    pub y: i64,
    pub z: i64,
    pub w: i64,
}

pub open spec fn spec_tuple_add(a: Tuple, b: Tuple) -> Tuple {
    Tuple {
        x: spec_add(a.x as int, b.x as int) as i64,
        y: spec_add(a.y as int, b.y as int) as i64,
        z: spec_add(a.z as int, b.z as int) as i64,
        w: spec_add(a.w as int, b.w as int) as i64,
    }
}

pub open spec fn spec_tuple_sub(a: Tuple, b: Tuple) -> Tuple {
    Tuple {
        x: spec_sub(a.x as int, b.x as int) as i64,
        y: spec_sub(a.y as int, b.y as int) as i64,
        z: spec_sub(a.z as int, b.z as int) as i64,
        w: spec_sub(a.w as int, b.w as int) as i64,
    }
}

pub open spec fn spec_tuple_neg(a: Tuple) -> Tuple {
    Tuple {
        x: spec_neg(a.x as int) as i64,
        y: spec_neg(a.y as int) as i64,
        z: spec_neg(a.z as int) as i64,
        w: spec_neg(a.w as int) as i64,
    }
}

pub open spec fn spec_tuple_scale(a: Tuple, s: int) -> Tuple {
    Tuple {
        x: spec_mul(a.x as int, s) as i64,
        y: spec_mul(a.y as int, s) as i64,
        z: spec_mul(a.z as int, s) as i64,
        w: spec_mul(a.w as int, s) as i64,
    }
}

pub open spec fn spec_tuple_div(a: Tuple, s: int) -> Tuple {
    Tuple {
        x: spec_div(a.x as int, s) as i64,
        y: spec_div(a.y as int, s) as i64,
        z: spec_div(a.z as int, s) as i64,
        w: spec_div(a.w as int, s) as i64,
    }
}

/// The chained fixed-point sum `x*x' + y*y' + z*z' + w*w'`.
pub open spec fn spec_dot(a: Tuple, b: Tuple) -> int {
    spec_add(
        spec_add(
            spec_add(spec_mul(a.x as int, b.x as int), spec_mul(a.y as int, b.y as int)),
            spec_mul(a.z as int, b.z as int),
        ),
        spec_mul(a.w as int, b.w as int),
    )
}

pub open spec fn spec_cross(a: Tuple, b: Tuple) -> Tuple {
    Tuple {
        x: spec_sub(spec_mul(a.y as int, b.z as int), spec_mul(a.z as int, b.y as int)) as i64,
        y: spec_sub(spec_mul(a.z as int, b.x as int), spec_mul(a.x as int, b.z as int)) as i64,
        z: spec_sub(spec_mul(a.x as int, b.y as int), spec_mul(a.y as int, b.x as int)) as i64,
        w: 0i64,
    }
}

/// Squared length of the 3-component part, as chained fixed-point sums.
pub open spec fn spec_mag_squared(a: Tuple) -> int {
    spec_add(
        spec_add(spec_mul(a.x as int, a.x as int), spec_mul(a.y as int, a.y as int)),
        spec_mul(a.z as int, a.z as int),
    )
}

pub open spec fn spec_magnitude(a: Tuple) -> int {
    fx::spec_sqrt(spec_mag_squared(a))
}

/// `v - normal * 2 * dot(v, normal)`.
pub open spec fn spec_reflect(v: Tuple, normal: Tuple) -> Tuple {
    spec_tuple_sub(
        v,
        spec_tuple_scale(spec_tuple_scale(normal, 2 * SCALE as int), spec_dot(v, normal)),
    )
}

pub open spec fn spec_tuple_approx(a: Tuple, b: Tuple) -> bool {
    &&& fx::spec_approx_eq(a.x as int, b.x as int)
    &&& fx::spec_approx_eq(a.y as int, b.y as int)
    &&& fx::spec_approx_eq(a.z as int, b.z as int)
    &&& a.w == b.w
}

impl Tuple {
    pub open spec fn is_point_spec(self) -> bool {
        self.w == SCALE
    }

    pub open spec fn is_vector_spec(self) -> bool {
        self.w == 0i64
    }

    pub fn new(x: i64, y: i64, z: i64, w: i64) -> (r: Tuple)
        ensures
            r == (Tuple { x, y, z, w }),
    {
        Tuple { x, y, z, w }
    }

    pub fn point(x: i64, y: i64, z: i64) -> (r: Tuple)
        ensures
            r == (Tuple { x, y, z, w: SCALE }),
            r.is_point_spec(),
    {
        Tuple { x, y, z, w: SCALE }
    }

    pub fn vector(x: i64, y: i64, z: i64) -> (r: Tuple)
        ensures
            r == (Tuple { x, y, z, w: 0i64 }),
            r.is_vector_spec(),
    {
        Tuple { x, y, z, w: 0 }
    }

    pub fn origin() -> (r: Tuple)
        ensures
            r == (Tuple { x: 0i64, y: 0i64, z: 0i64, w: SCALE }),
    {
        Tuple { x: 0, y: 0, z: 0, w: SCALE }
    }

    pub fn is_point(&self) -> (r: bool)
        ensures
            r == self.is_point_spec(),
    {
        self.w == SCALE
    }

    pub fn is_vector(&self) -> (r: bool)
        ensures
            r == self.is_vector_spec(),
    {
        self.w == 0
    }

    pub fn to_point(&self) -> (r: Tuple)
        ensures
            r == (Tuple { x: self.x, y: self.y, z: self.z, w: SCALE }),
    {
        Tuple { x: self.x, y: self.y, z: self.z, w: SCALE }
    }

    pub fn to_vector(&self) -> (r: Tuple)
        ensures
            r == (Tuple { x: self.x, y: self.y, z: self.z, w: 0i64 }),
    {
        Tuple { x: self.x, y: self.y, z: self.z, w: 0 }
    }

    pub fn add(self, other: Tuple) -> (r: Tuple)
        ensures
            r == spec_tuple_add(self, other),
    {
        Tuple {
            x: fx::fx_add(self.x, other.x),
            y: fx::fx_add(self.y, other.y),
            z: fx::fx_add(self.z, other.z),
            w: fx::fx_add(self.w, other.w),
        }
    }

    pub fn sub(self, other: Tuple) -> (r: Tuple)
        ensures
            r == spec_tuple_sub(self, other),
    {
        Tuple {
            x: fx::fx_sub(self.x, other.x),
            y: fx::fx_sub(self.y, other.y),
            z: fx::fx_sub(self.z, other.z),
            w: fx::fx_sub(self.w, other.w),
        }
    }

    pub fn neg(self) -> (r: Tuple)
        ensures
            r == spec_tuple_neg(self),
    {
        Tuple {
            x: fx::fx_neg(self.x),
            y: fx::fx_neg(self.y),
            z: fx::fx_neg(self.z),
            w: fx::fx_neg(self.w),
        }
    }

    pub fn mul_scalar(self, s: i64) -> (r: Tuple)
        ensures
            r == spec_tuple_scale(self, s as int),
    {
        Tuple {
            x: fx::fx_mul(self.x, s),
            y: fx::fx_mul(self.y, s),
            z: fx::fx_mul(self.z, s),
            w: fx::fx_mul(self.w, s),
        }
    }

    pub fn div_scalar(self, s: i64) -> (r: Tuple)
        ensures
            r == spec_tuple_div(self, s as int),
    {
        Tuple {
            x: fx::fx_div(self.x, s),
            y: fx::fx_div(self.y, s),
            z: fx::fx_div(self.z, s),
            w: fx::fx_div(self.w, s),
        }
    }

    pub fn dot(&self, other: &Tuple) -> (r: i64)
        ensures
            r as int == spec_dot(*self, *other),
    {
        let xs = fx::fx_mul(self.x, other.x);
        let ys = fx::fx_mul(self.y, other.y);
        let zs = fx::fx_mul(self.z, other.z);
        let ws = fx::fx_mul(self.w, other.w);
        fx::fx_add(fx::fx_add(fx::fx_add(xs, ys), zs), ws)
    }

    pub fn cross(&self, other: &Tuple) -> (r: Tuple)
        ensures
            r == spec_cross(*self, *other),
    {
        Tuple {
            x: fx::fx_sub(fx::fx_mul(self.y, other.z), fx::fx_mul(self.z, other.y)),
            y: fx::fx_sub(fx::fx_mul(self.z, other.x), fx::fx_mul(self.x, other.z)),
            z: fx::fx_sub(fx::fx_mul(self.x, other.y), fx::fx_mul(self.y, other.x)),
            w: 0,
        }
    }

    pub fn magnitude(&self) -> (r: i64)
        ensures
            r as int == spec_magnitude(*self),
            r >= 0,
    {
        let xs = fx::fx_mul(self.x, self.x);
        let ys = fx::fx_mul(self.y, self.y);
        let zs = fx::fx_mul(self.z, self.z);
        let sum = fx::fx_add(fx::fx_add(xs, ys), zs);
        proof {
            fx::lemma_square_nonneg(self.x as int);
            fx::lemma_square_nonneg(self.y as int);
            fx::lemma_square_nonneg(self.z as int);
        }
        fx::fx_sqrt(sum)
    }

    /// Each component divided by the magnitude; a zero vector saturates by
    /// the division-by-zero rule of `fx`.
    pub fn normalize(&self) -> (r: Tuple)
        ensures
            r == spec_tuple_div(*self, spec_magnitude(*self)),
    {
        let m = self.magnitude();
        self.div_scalar(m)
    }

    /// `self - normal * 2 * dot(self, normal)`.
    pub fn reflect(&self, normal: Tuple) -> (r: Tuple)
        ensures
            r == spec_reflect(*self, normal),
    {
        let d = self.dot(&normal);
        self.sub(normal.mul_scalar(2 * SCALE).mul_scalar(d))
    }

    pub fn approx_eq(&self, other: &Tuple) -> (r: bool)
        ensures
            r == spec_tuple_approx(*self, *other),
    {
        crate::approx_eq(self.x, other.x) && crate::approx_eq(self.y, other.y)
            && crate::approx_eq(self.z, other.z) && self.w == other.w
    }
}

} // verus!
