//! Surface patterns: a solid color and the point-dependent stripe, gradient,
//! ring and checkers functions, plus a test pattern that reports the pattern
//! point itself as a color.  Each patterned variant carries its transform and
//! that transform's inverse.

use vstd::prelude::*;

verus! {

use crate::color::{Color, spec_color_add, spec_color_scale, spec_color_sub};
use crate::fx;
use crate::fx::{spec_add, spec_mul, SCALE};
use crate::matrix::{Matrix, spec_inverse4, lemma_identity_inverse};
use crate::tuple::Tuple;
use vstd::math::abs;

#[derive(Clone, Copy, Debug)]
pub enum Pattern {
    Solid(Color),
    Stripes(StripePattern),
    Gradient(GradientPattern),
    Ring(RingPattern),
    Checkers(CheckersPattern),
    Test(TestPattern),
}

#[derive(Clone, Copy, Debug)]
pub struct StripePattern {
    pub a: Color,
    pub b: Color,
    pub transform: Matrix,
    pub inverse: Matrix,
}

#[derive(Clone, Copy, Debug)]
pub struct GradientPattern {
    pub a: Color,
    pub b: Color,
    pub transform: Matrix,
    pub inverse: Matrix,
}

#[derive(Clone, Copy, Debug)]
pub struct RingPattern {
    pub a: Color,
    pub b: Color,
    pub transform: Matrix,
    pub inverse: Matrix,
}

#[derive(Clone, Copy, Debug)]
pub struct CheckersPattern {
    pub a: Color,
    pub b: Color,
    pub transform: Matrix,
    pub inverse: Matrix,
}

#[derive(Clone, Copy, Debug)]
pub struct TestPattern {
    pub transform: Matrix,
    pub inverse: Matrix,
}

/// The number of whole units below the scalar: `floor(x)` as a whole number.
pub open spec fn spec_floor_units(x: int) -> int {
    x / (SCALE as int)
}

/// Whether the whole number `w` is even (parity of its magnitude).
pub open spec fn spec_even(w: int) -> bool {
    abs(w) % 2 == 0
}

/// `floor(x)` as a whole number: Euclidean division by one unit.
pub fn floor_units(x: i64) -> (r: i64)
    ensures
        r as int == spec_floor_units(x as int),
{
    if x >= 0 {
        ((x as u64) / (SCALE as u64)) as i64
    } else {
        let m: u64 = (-(x as i128)) as u64;
        let q: u64 = (m + (SCALE as u64 - 1)) / (SCALE as u64);
        proof {
            vstd::arithmetic::div_mod::lemma_fundamental_div_mod(x as int, SCALE as int);
            vstd::arithmetic::div_mod::lemma_fundamental_div_mod(m as int, SCALE as int);
            let s = SCALE as int;
            let fq = (x as int) / s;
            let fr = (x as int) % s;
            assert(0 <= fr < s);
            assert(m as int == -(s * fq + fr));
            if fr == 0 {
                assert(q as int == -fq) by {
                    assert(m as int == s * (-fq));
                    vstd::arithmetic::div_mod::lemma_div_multiples_vanish(-fq, s);
                    assert((m as int + (s - 1)) == s * (-fq) + (s - 1));
                    vstd::arithmetic::div_mod::lemma_div_multiples_vanish_fancy(-fq, s - 1, s);
                }
            } else {
                assert(q as int == -fq) by {
                    assert(m as int + (s - 1) == s * (-fq - 1) + (s - 1 - fr) + s);
                    assert(m as int + (s - 1) == s * (-fq) + (s - 1 - fr));
                    assert(0 <= s - 1 - fr < s);
                    vstd::arithmetic::div_mod::lemma_div_multiples_vanish_fancy(
                        -fq,
                        s - 1 - fr,
                        s,
                    );
                }
            }
        }
        -(q as i64)
    }
}

/// Whether the whole number is even.
pub fn even_units(w: i64) -> (r: bool)
    ensures
        r == spec_even(w as int),
{
    let m: u64 = if w >= 0 {
        w as u64
    } else {
        (-(w as i128)) as u64
    };
    m % 2 == 0
}

pub open spec fn spec_stripe_at(p: StripePattern, point: Tuple) -> Color {
    if spec_even(spec_floor_units(point.x as int)) {
        p.a
    } else {
        p.b
    }
}

/// `a + (b - a) * frac(x)`, where `frac(x)` is the offset above the floor.
pub open spec fn spec_gradient_at(p: GradientPattern, point: Tuple) -> Color {
    let frac = (point.x as int) % (SCALE as int);
    spec_color_add(p.a, spec_color_scale(spec_color_sub(p.b, p.a), frac))
}

pub open spec fn spec_ring_at(p: RingPattern, point: Tuple) -> Color {
    let d = spec_add(
        spec_mul(point.x as int, point.x as int),
        spec_mul(point.z as int, point.z as int),
    );
    if spec_even(spec_floor_units(fx::spec_sqrt(d))) {
        p.a
    } else {
        p.b
    }
}

pub open spec fn spec_checkers_at(p: CheckersPattern, point: Tuple) -> Color {
    let w = spec_floor_units(point.x as int) + spec_floor_units(point.y as int)
        + spec_floor_units(point.z as int);
    if spec_even(w) {
        p.a
    } else {
        p.b
    }
}

/// The color a pattern shows at a point already in pattern space.
pub open spec fn spec_pattern_at(p: Pattern, point: Tuple) -> Color {
    match p {
        Pattern::Solid(c) => c,
        Pattern::Stripes(sp) => spec_stripe_at(sp, point),
        Pattern::Gradient(gp) => spec_gradient_at(gp, point),
        Pattern::Ring(rp) => spec_ring_at(rp, point),
        Pattern::Checkers(cp) => spec_checkers_at(cp, point),
        Pattern::Test(_) => Color { r: point.x, g: point.y, b: point.z },
    }
}

/// The color shown at a world point on an object: the point is taken into
/// object space by the object's inverse transform, then into pattern space by
/// the pattern's own inverse transform (a solid color has no transform).
pub open spec fn spec_color_at_object(
    p: Pattern,
    object_inverse: Matrix,
    world_point: Tuple,
) -> Color {
    let object_point = object_inverse.spec_mul_tuple(world_point);
    let pattern_point = match p {
        Pattern::Solid(_) => object_point,
        Pattern::Stripes(sp) => sp.inverse.spec_mul_tuple(object_point),
        Pattern::Gradient(gp) => gp.inverse.spec_mul_tuple(object_point),
        Pattern::Ring(rp) => rp.inverse.spec_mul_tuple(object_point),
        Pattern::Checkers(cp) => cp.inverse.spec_mul_tuple(object_point),
        Pattern::Test(tp) => tp.inverse.spec_mul_tuple(object_point),
    };
    spec_pattern_at(p, pattern_point)
}

/// The same pattern carrying a new transform and its inverse (a solid color
/// has no transform and is unchanged).
pub open spec fn spec_with_transform(p: Pattern, transform: Matrix, inverse: Matrix) -> Pattern {
    match p {
        Pattern::Solid(c) => Pattern::Solid(c),
        Pattern::Stripes(sp) => Pattern::Stripes(StripePattern { a: sp.a, b: sp.b, transform, inverse }),
        Pattern::Gradient(gp) => Pattern::Gradient(
            GradientPattern { a: gp.a, b: gp.b, transform, inverse },
        ),
        Pattern::Ring(rp) => Pattern::Ring(RingPattern { a: rp.a, b: rp.b, transform, inverse }),
        Pattern::Checkers(cp) => Pattern::Checkers(
            CheckersPattern { a: cp.a, b: cp.b, transform, inverse },
        ),
        Pattern::Test(_) => Pattern::Test(TestPattern { transform, inverse }),
    }
}

/// The stored inverse transform of a patterned variant.
pub open spec fn spec_stored_inverse(p: Pattern) -> Matrix
    recommends
        !(p is Solid),
{
    match p {
        Pattern::Solid(_) => vstd::pervasive::arbitrary(),
        Pattern::Stripes(sp) => sp.inverse,
        Pattern::Gradient(gp) => gp.inverse,
        Pattern::Ring(rp) => rp.inverse,
        Pattern::Checkers(cp) => cp.inverse,
        Pattern::Test(tp) => tp.inverse,
    }
}

impl Pattern {
    pub open spec fn wf(self) -> bool {
        match self {
            Pattern::Solid(_) => true,
            Pattern::Stripes(sp) => spec_inverse4(sp.transform, sp.inverse),
            Pattern::Gradient(gp) => spec_inverse4(gp.transform, gp.inverse),
            Pattern::Ring(rp) => spec_inverse4(rp.transform, rp.inverse),
            Pattern::Checkers(cp) => spec_inverse4(cp.transform, cp.inverse),
            Pattern::Test(tp) => spec_inverse4(tp.transform, tp.inverse),
        }
    }

    pub fn solid(c: Color) -> (p: Pattern)
        ensures
            p == Pattern::Solid(c),
            p.wf(),
    {
        Pattern::Solid(c)
    }

    pub fn stripes(a: Color, b: Color) -> (p: Pattern)
        ensures
            p matches Pattern::Stripes(sp) && sp.a == a && sp.b == b,
            p.wf(),
    {
        let t = Matrix::identity();
        proof {
            lemma_identity_inverse(t);
        }
        Pattern::Stripes(StripePattern { a, b, transform: t, inverse: t })
    }

    pub fn gradient(a: Color, b: Color) -> (p: Pattern)
        ensures
            p matches Pattern::Gradient(gp) && gp.a == a && gp.b == b,
            p.wf(),
    {
        let t = Matrix::identity();
        proof {
            lemma_identity_inverse(t);
        }
        Pattern::Gradient(GradientPattern { a, b, transform: t, inverse: t })
    }

    pub fn ring(a: Color, b: Color) -> (p: Pattern)
        ensures
            p matches Pattern::Ring(rp) && rp.a == a && rp.b == b,
            p.wf(),
    {
        let t = Matrix::identity();
        proof {
            lemma_identity_inverse(t);
        }
        Pattern::Ring(RingPattern { a, b, transform: t, inverse: t })
    }

    pub fn checkers(a: Color, b: Color) -> (p: Pattern)
        ensures
            p matches Pattern::Checkers(cp) && cp.a == a && cp.b == b,
            p.wf(),
    {
        let t = Matrix::identity();
        proof {
            lemma_identity_inverse(t);
        }
        Pattern::Checkers(CheckersPattern { a, b, transform: t, inverse: t })
    }

    pub fn test() -> (p: Pattern)
        ensures
            p matches Pattern::Test(tp),
            p.wf(),
    {
        let t = Matrix::identity();
        proof {
            lemma_identity_inverse(t);
        }
        Pattern::Test(TestPattern { transform: t, inverse: t })
    }

    /// Replaces the pattern transform; rejected when the matrix cannot be
    /// inverted (a solid pattern has no transform and is left unchanged).
    pub fn set_transform(&mut self, transform: Matrix) -> (r: Result<(), ()>)
        requires
            transform.size == 4,
        ensures
            r is Ok <==> ((*old(self)) is Solid || crate::matrix::spec_det(crate::matrix::mview(
                transform,
            )) != 0),
            r is Ok && !((*old(self)) is Solid) ==> *final(self) == spec_with_transform(
                *old(self),
                transform,
                spec_stored_inverse(*final(self)),
            ) && spec_inverse4(transform, spec_stored_inverse(*final(self)))
                && (*final(self)).wf(),
            (*old(self)) is Solid ==> *final(self) == *old(self),
            r is Err ==> *final(self) == *old(self),
    {
        let cur = *self;
        if let Pattern::Solid(_) = cur {
            return Ok(());
        }
        match transform.inverse() {
            Option::Some(inv) => {
                let next = match cur {
                    Pattern::Solid(c) => Pattern::Solid(c),
                    Pattern::Stripes(sp) => Pattern::Stripes(
                        StripePattern { a: sp.a, b: sp.b, transform, inverse: inv },
                    ),
                    Pattern::Gradient(gp) => Pattern::Gradient(
                        GradientPattern { a: gp.a, b: gp.b, transform, inverse: inv },
                    ),
                    Pattern::Ring(rp) => Pattern::Ring(
                        RingPattern { a: rp.a, b: rp.b, transform, inverse: inv },
                    ),
                    Pattern::Checkers(cp) => Pattern::Checkers(
                        CheckersPattern { a: cp.a, b: cp.b, transform, inverse: inv },
                    ),
                    Pattern::Test(_) => Pattern::Test(
                        TestPattern { transform, inverse: inv },
                    ),
                };
                *self = next;
                Ok(())
            },
            Option::None => Err(()),
        }
    }

    /// The color of the pattern at a point given in pattern space.
    pub fn color_at(&self, p: Tuple) -> (c: Color)
        ensures
            c == spec_pattern_at(*self, p),
    {
        match self {
            Pattern::Solid(color) => *color,
            Pattern::Stripes(sp) => {
                if even_units(floor_units(p.x)) {
                    sp.a
                } else {
                    sp.b
                }
            },
            Pattern::Gradient(gp) => {
                let f = floor_units(p.x);
                proof {
                    vstd::arithmetic::div_mod::lemma_fundamental_div_mod(
                        p.x as int,
                        SCALE as int,
                    );
                }
                let frac = (p.x as i128 - (f as i128) * (SCALE as i128)) as i64;
                gp.a.add(gp.b.sub(gp.a).mul_scalar(frac))
            },
            Pattern::Ring(rp) => {
                let xs = fx::fx_mul(p.x, p.x);
                let zs = fx::fx_mul(p.z, p.z);
                let d = fx::fx_add(xs, zs);
                proof {
                    fx::lemma_square_nonneg(p.x as int);
                    fx::lemma_square_nonneg(p.z as int);
                }
                if even_units(floor_units(fx::fx_sqrt(d))) {
                    rp.a
                } else {
                    rp.b
                }
            },
            Pattern::Checkers(cp) => {
                let w = floor_units(p.x) + floor_units(p.y) + floor_units(p.z);
                if even_units(w) {
                    cp.a
                } else {
                    cp.b
                }
            },
            Pattern::Test(_) => Color { r: p.x, g: p.y, b: p.z },
        }
    }

    /// The color of the pattern at a world point on an object whose inverse
    /// transform is `object_inverse`.
    pub fn color_at_object(&self, object_inverse: &Matrix, world_point: Tuple) -> (c: Color)
        ensures
            c == spec_color_at_object(*self, *object_inverse, world_point),
    {
        let object_point = object_inverse.mul_tuple(world_point);
        let pattern_point = match self {
            Pattern::Solid(_) => object_point,
            Pattern::Stripes(sp) => sp.inverse.mul_tuple(object_point),
            Pattern::Gradient(gp) => gp.inverse.mul_tuple(object_point),
            Pattern::Ring(rp) => rp.inverse.mul_tuple(object_point),
            Pattern::Checkers(cp) => cp.inverse.mul_tuple(object_point),
            Pattern::Test(tp) => tp.inverse.mul_tuple(object_point),
        };
        self.color_at(pattern_point)
    }
}

} // verus!
