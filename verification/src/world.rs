//! The world: every top-level object, one point light, and the recursive
//! shader that blends local illumination with reflected and refracted color
//! under a strictly decreasing recursion budget — which is the termination
//! argument for scenes such as two mutually reflective planes.

use vstd::prelude::*;

verus! {

use crate::arena::Arena;
use crate::color::{Color, spec_black, spec_color_add, spec_color_scale};
use crate::fx;
use crate::fx::{spec_sub, spec_mul, spec_div, SCALE};
use crate::intersection::{
    Intersection,
    PreparedComputations,
    sort_by_t,
    spec_first_hit,
    spec_prepare,
    spec_schlick,
    objects_shadeable,
};
use crate::light::PointLight;
use crate::material::{Material, spec_lightning};
use crate::patterns::Pattern;
use crate::sphere::Sphere;
use crate::matrix::Matrix;
use crate::ray::Ray;
use crate::shapes::{
    Shape,
    wf_arena,
    links_ok,
    spec_shape_intersect,
    lemma_shape_intersect_shadeable,
};
use crate::tuple::{Tuple, spec_tuple_sub, spec_tuple_div, spec_tuple_scale, spec_dot, spec_magnitude};
use crate::MAX_REFLECTION_RECURSION;

pub struct World {
    pub light: PointLight,
    pub arena: Arena,
    pub object_ids: Vec<usize>,
}

/// The arena's child links hold and every top-level id is filled.
pub open spec fn wf_world(w: World) -> bool {
    &&& wf_arena(w.arena)
    &&& forall|k: int|
        0 <= k < w.object_ids@.len() ==> w.arena.valid(#[trigger] w.object_ids@[k] as int)
}

/// All hits of the listed top-level objects, concatenated left to right.
pub open spec fn spec_objects_intersect(a: Arena, ids: Seq<usize>, r: Ray) -> Seq<Intersection>
    decreases ids.len(),
{
    if ids.len() == 0 {
        Seq::empty()
    } else {
        spec_objects_intersect(a, ids.drop_last(), r) + spec_shape_intersect(
            a,
            a.shape(ids.last() as int),
            ids.last(),
            r,
            a.spec_len(),
        )
    }
}

/// Every hit in the world, ascending by ray parameter.
pub open spec fn spec_world_intersect(w: World, r: Ray) -> Seq<Intersection> {
    sort_by_t(spec_objects_intersect(w.arena, w.object_ids@, r))
}

/// A point is shadowed when something stands between it and the light: the
/// nearest non-negative hit toward the light is closer than the light itself.
pub open spec fn spec_is_shadowed(w: World, point: Tuple) -> bool {
    let v = spec_tuple_sub(w.light.position, point);
    let distance = spec_magnitude(v);
    let direction = spec_tuple_div(v, distance);
    let xs = spec_world_intersect(w, Ray { origin: point, direction });
    match spec_first_hit(xs) {
        Some(i) => i.t < distance,
        None => false,
    }
}

/// Zero once the budget or the surface's reflectivity is exhausted;
/// otherwise the color seen along the reflection ray from the over point,
/// scaled by the reflectivity.
pub open spec fn spec_reflected_color(w: World, c: PreparedComputations, remaining: nat) -> Color
    decreases remaining, 1int,
{
    if remaining == 0 {
        spec_black()
    } else {
        let reflective = w.arena.shape(c.object as int).spec_material().reflective;
        if reflective == 0 {
            spec_black()
        } else {
            spec_color_scale(
                spec_color_at(
                    w,
                    Ray { origin: c.over_point, direction: c.reflectv },
                    (remaining - 1) as nat,
                ),
                reflective as int,
            )
        }
    }
}

/// Zero once the budget or the transparency is exhausted, and black under
/// total internal reflection; otherwise the color along the Snell-law
/// refraction ray from the under point, scaled by the transparency.
pub open spec fn spec_refracted_color(w: World, c: PreparedComputations, remaining: nat) -> Color
    decreases remaining, 1int,
{
    if remaining == 0 {
        spec_black()
    } else {
        let transparency = w.arena.shape(c.object as int).spec_material().transparency;
        if transparency == 0 {
            spec_black()
        } else {
            let n_ratio = spec_div(c.n1 as int, c.n2 as int);
            let cos_i = spec_dot(c.eyev, c.normalv);
            let sin2_t = spec_mul(
                spec_mul(n_ratio, n_ratio),
                spec_sub(SCALE as int, spec_mul(cos_i, cos_i)),
            );
            if sin2_t > SCALE {
                spec_black()
            } else {
                let cos_t = fx::spec_sqrt(spec_sub(SCALE as int, sin2_t));
                let direction = spec_tuple_sub(
                    spec_tuple_scale(c.normalv, spec_sub(spec_mul(n_ratio, cos_i), cos_t)),
                    spec_tuple_scale(c.eyev, n_ratio),
                );
                spec_color_scale(
                    spec_color_at(
                        w,
                        Ray { origin: c.under_point, direction },
                        (remaining - 1) as nat,
                    ),
                    transparency as int,
                )
            }
        }
    }
}

/// Local Phong shade plus reflected and refracted contributions; a surface
/// that is both reflective and transparent blends the two by the Schlick
/// reflectance.
pub open spec fn spec_shade_hit(w: World, c: PreparedComputations, remaining: nat) -> Color
    decreases remaining, 2int,
{
    let shadowed = spec_is_shadowed(w, c.over_point);
    let shape = w.arena.shape(c.object as int);
    let m = shape.spec_material();
    let surface = spec_lightning(
        m,
        shape.spec_inverse_transform(),
        w.light,
        c.over_point,
        c.eyev,
        c.normalv,
        shadowed,
    );
    let reflected = spec_reflected_color(w, c, remaining);
    let refracted = spec_refracted_color(w, c, remaining);
    if m.reflective > 0 && m.transparency > 0 {
        let reflectance = spec_schlick(c);
        spec_color_add(
            spec_color_add(surface, spec_color_scale(reflected, reflectance as int)),
            spec_color_scale(refracted, spec_sub(SCALE as int, reflectance as int)),
        )
    } else {
        spec_color_add(spec_color_add(surface, reflected), refracted)
    }
}

/// The color seen along a ray: black on a miss, otherwise the shade at the
/// nearest non-negative hit, with `remaining` further bounces allowed.
pub open spec fn spec_color_at(w: World, r: Ray, remaining: nat) -> Color
    decreases remaining, 3int,
{
    let xs = spec_world_intersect(w, r);
    match spec_first_hit(xs) {
        Some(i) => spec_shade_hit(w, spec_prepare(w.arena, i, r, xs), remaining),
        None => spec_black(),
    }
}

/// The nearest non-negative hits of the listed objects are shadeable, so the
/// shader can read their materials.
proof fn lemma_objects_intersect_shadeable(a: Arena, ids: Seq<usize>, r: Ray)
    requires
        wf_arena(a),
        forall|k: int| 0 <= k < ids.len() ==> a.valid(#[trigger] ids[k] as int),
    ensures
        objects_shadeable(a, spec_objects_intersect(a, ids, r)),
    decreases ids.len(),
{
    if ids.len() > 0 {
        let front = ids.drop_last();
        assert(forall|k: int| 0 <= k < front.len() ==> front[k] == ids[k]);
        lemma_objects_intersect_shadeable(a, front, r);
        assert(a.valid(ids.last() as int)) by {
            assert(ids[ids.len() - 1] == ids.last());
        }
        let s = a.shape(ids.last() as int);
        assert(links_ok(a, s));
        lemma_shape_intersect_shadeable(a, s, ids.last(), r, a.spec_len());
        let lhs = spec_objects_intersect(a, front, r);
        let rhs = spec_shape_intersect(a, s, ids.last(), r, a.spec_len());
        let whole = spec_objects_intersect(a, ids, r);
        assert forall|j: int| 0 <= j < whole.len() implies a.valid(
            #[trigger] whole[j].object as int,
        ) && !(a.shape(whole[j].object as int) is Group) by {
            if j < lhs.len() {
                assert(whole[j] == lhs[j]);
            } else {
                assert(whole[j] == rhs[j - lhs.len()]);
            }
        }
    }
}

/// As above, after sorting.
pub proof fn lemma_world_intersect_shadeable(w: World, r: Ray)
    requires
        wf_world(w),
    ensures
        objects_shadeable(w.arena, spec_world_intersect(w, r)),
{
    broadcast use vstd::seq_lib::group_to_multiset_ensures;

    lemma_objects_intersect_shadeable(w.arena, w.object_ids@, r);
    let cc = spec_objects_intersect(w.arena, w.object_ids@, r);
    crate::intersection::lemma_sort_by_t(cc);
    let sorted = sort_by_t(cc);
    assert forall|j: int| 0 <= j < sorted.len() implies w.arena.valid(
        #[trigger] sorted[j].object as int,
    ) && !(w.arena.shape(sorted[j].object as int) is Group) by {
        let v = sorted[j];
        assert(sorted.contains(v));
        assert(sorted.to_multiset().count(v) > 0);
        assert(cc.to_multiset().count(v) > 0);
        assert(cc.contains(v));
        let i = choose|i: int| 0 <= i < cc.len() && cc[i] == v;
    }
}

/// The first entry with a non-negative parameter.
fn first_hit(xs: &Vec<Intersection>) -> (r: Option<Intersection>)
    ensures
        r == spec_first_hit(xs@),
        r matches Some(h) ==> xs@.contains(h) && h.t >= 0,
{
    let mut k: usize = 0;
    proof {
        assert(xs@.skip(0) =~= xs@);
    }
    while k < xs.len()
        invariant
            k <= xs@.len(),
            spec_first_hit(xs@) == spec_first_hit(xs@.skip(k as int)),
            forall|j: int| 0 <= j < k ==> xs@[j].t < 0,
        decreases xs@.len() - k,
    {
        proof {
            assert(xs@.skip(k as int)[0] == xs@[k as int]);
            assert(xs@.skip(k as int).drop_first() =~= xs@.skip(k + 1int));
        }
        if xs[k].t >= 0 {
            proof {
                assert(xs@.contains(xs@[k as int]));
            }
            return Some(xs[k]);
        }
        k = k + 1;
    }
    None
}

impl World {
    /// Builds a world over a fresh tail of the arena: each listed object is
    /// stored and its id recorded as a top-level object.
    pub fn new(light: PointLight, arena: Arena, objects: Vec<Shape>) -> (w: World)
        ensures
            w.light == light,
            w.object_ids@.len() == objects@.len(),
            w.arena.objects@.len() == arena.objects@.len() + objects@.len(),
            forall|k: int|
                0 <= k < objects@.len() ==> w.object_ids@[k] as int == arena.objects@.len() + k
                    && w.arena.valid(#[trigger] w.object_ids@[k] as int) && w.arena.shape(
                    w.object_ids@[k] as int,
                ) == objects@[k],
            forall|j: int|
                0 <= j < arena.objects@.len() ==> w.arena.objects@[j] == arena.objects@[j],
    {
        let ghost orig_arena = arena;
        let ghost orig_objects = objects@;
        let mut w = World { light, arena, object_ids: Vec::new() };
        let mut objects = objects;
        let ghost n0 = orig_arena.objects@.len();
        let ghost mut i: int = 0;
        while objects.len() > 0
            invariant
                0 <= i,
                i + objects@.len() == orig_objects.len(),
                objects@ == orig_objects.skip(i),
                w.object_ids@.len() == i,
                w.arena.objects@.len() == n0 + i,
                forall|k: int|
                    0 <= k < i ==> w.object_ids@[k] as int == n0 + k && w.arena.valid(
                        #[trigger] w.object_ids@[k] as int,
                    ) && w.arena.shape(w.object_ids@[k] as int) == orig_objects[k],
                forall|j: int| 0 <= j < n0 ==> w.arena.objects@[j] == orig_arena.objects@[j],
                w.light == light,
            decreases objects@.len(),
        {
            let s = objects.remove(0);
            proof {
                assert(orig_objects.skip(i)[0] == orig_objects[i]);
                assert(objects@ =~= orig_objects.skip(i + 1));
            }
            let id = w.add_object(s);
            proof {
                assert(w.object_ids@[i] == id);
                assert(w.arena.objects@[n0 + i] == Some(s));
                i = i + 1;
            }
        }
        w
    }

    /// Stores one more top-level object and returns its arena id.
    pub fn add_object(&mut self, object: Shape) -> (id: usize)
        ensures
            id as int == old(self).arena.objects@.len(),
            final(self).light == old(self).light,
            final(self).arena.objects@ == old(self).arena.objects@.push(Some(object)),
            final(self).object_ids@ == old(self).object_ids@.push(id),
    {
        let id = self.arena.add(object);
        self.object_ids.push(id);
        id
    }

    pub fn object_by_index(&self, index: usize) -> (s: &Shape)
        requires
            index < self.object_ids@.len(),
            self.arena.valid(self.object_ids@[index as int] as int),
        ensures
            *s == self.arena.shape(self.object_ids@[index as int] as int),
    {
        self.arena.get(self.object_ids[index])
    }

    pub fn last_object(&self) -> (s: Option<&Shape>)
        requires
            wf_world(*self),
        ensures
            self.object_ids@.len() == 0 <==> s is None,
            self.object_ids@.len() > 0 ==> (s matches Some(sh) && *sh == self.arena.shape(
                self.object_ids@.last() as int,
            )),
    {
        if self.object_ids.len() == 0 {
            None
        } else {
            Some(self.arena.get(self.object_ids[self.object_ids.len() - 1]))
        }
    }

    /// Every hit of the ray against every top-level object, sorted ascending.
    pub fn intersect(&self, r: &Ray) -> (xs: Vec<Intersection>)
        requires
            wf_world(*self),
        ensures
            xs@ == spec_world_intersect(*self, *r),
    {
        let mut acc: Vec<Intersection> = Vec::new();
        let mut k: usize = 0;
        while k < self.object_ids.len()
            invariant
                wf_world(*self),
                k <= self.object_ids@.len(),
                acc@ == spec_objects_intersect(
                    self.arena,
                    self.object_ids@.take(k as int),
                    *r,
                ),
            decreases self.object_ids@.len() - k,
        {
            let id = self.object_ids[k];
            let mut part = self.arena.get(id).intersect(id, &self.arena, r);
            acc.append(&mut part);
            proof {
                let pre = self.object_ids@.take(k as int);
                let post = self.object_ids@.take(k + 1int);
                assert(post.drop_last() =~= pre);
                assert(post.last() == self.object_ids@[k as int]);
            }
            k = k + 1;
        }
        proof {
            assert(self.object_ids@.take(self.object_ids@.len() as int) =~= self.object_ids@);
        }
        Intersection::sort(acc)
    }

    /// Whether anything blocks the straight path from the point to the light.
    pub fn is_shadowed(&self, point: Tuple) -> (r: bool)
        requires
            wf_world(*self),
        ensures
            r == spec_is_shadowed(*self, point),
    {
        let v = self.light.position.sub(point);
        let distance = v.magnitude();
        let direction = v.normalize();

        let ray = Ray { origin: point, direction };
        let xs = self.intersect(&ray);
        match first_hit(&xs) {
            Option::Some(i) => i.t < distance,
            Option::None => false,
        }
    }

    /// The color seen along a ray, with the full recursion budget.
    pub fn color_at(&self, r: &Ray) -> (c: Color)
        requires
            wf_world(*self),
        ensures
            c == spec_color_at(*self, *r, MAX_REFLECTION_RECURSION as nat),
    {
        self.color_at_internal(r, MAX_REFLECTION_RECURSION)
    }

    pub fn color_at_internal(&self, r: &Ray, remaining: u32) -> (c: Color)
        requires
            wf_world(*self),
        ensures
            c == spec_color_at(*self, *r, remaining as nat),
        decreases remaining, 3int,
    {
        let xs = self.intersect(r);
        proof {
            lemma_world_intersect_shadeable(*self, *r);
        }
        match first_hit(&xs) {
            Option::Some(i) => {
                proof {
                    let k = choose|k: int| 0 <= k < xs@.len() && xs@[k] == i;
                }
                let comps = i.prepare_computations(&self.arena, r, &xs);
                self.shade_hit(&comps, remaining)
            },
            Option::None => Color::black(),
        }
    }

    /// The Phong shade at a prepared hit plus its reflected and refracted
    /// contributions, blended by Schlick when the surface carries both.
    pub fn shade_hit(&self, comps: &PreparedComputations, remaining: u32) -> (c: Color)
        requires
            wf_world(*self),
            self.arena.valid(comps.object as int),
            !(self.arena.shape(comps.object as int) is Group),
        ensures
            c == spec_shade_hit(*self, *comps, remaining as nat),
        decreases remaining, 2int,
    {
        let shadowed = self.is_shadowed(comps.over_point);
        let shape = self.arena.get(comps.object);
        let surface = shape.material().lightning(
            shape.inverse_transform(),
            &self.light,
            comps.over_point,
            comps.eyev,
            comps.normalv,
            shadowed,
        );
        let reflected = self.reflected_color(comps, remaining);
        let refracted = self.refracted_color(comps, remaining);

        let material = shape.material();
        if material.reflective > 0 && material.transparency > 0 {
            let reflectance = comps.schlick();
            surface.add(reflected.mul_scalar(reflectance)).add(
                refracted.mul_scalar(fx::fx_sub(SCALE, reflectance)),
            )
        } else {
            surface.add(reflected).add(refracted)
        }
    }

    /// The reflected contribution; black once the budget or the reflectivity
    /// runs out.
    pub fn reflected_color(&self, comps: &PreparedComputations, remaining: u32) -> (c: Color)
        requires
            wf_world(*self),
            self.arena.valid(comps.object as int),
            !(self.arena.shape(comps.object as int) is Group),
        ensures
            c == spec_reflected_color(*self, *comps, remaining as nat),
        decreases remaining, 1int,
    {
        if remaining == 0 {
            return Color::black();
        }
        let reflective = self.arena.get(comps.object).material().reflective;
        if reflective == 0 {
            return Color::black();
        }

        let reflect_ray = Ray { origin: comps.over_point, direction: comps.reflectv };
        let color = self.color_at_internal(&reflect_ray, remaining - 1);
        color.mul_scalar(reflective)
    }

    /// The refracted contribution; black once the budget or the transparency
    /// runs out, and black under total internal reflection.
    pub fn refracted_color(&self, comps: &PreparedComputations, remaining: u32) -> (c: Color)
        requires
            wf_world(*self),
            self.arena.valid(comps.object as int),
            !(self.arena.shape(comps.object as int) is Group),
        ensures
            c == spec_refracted_color(*self, *comps, remaining as nat),
        decreases remaining, 1int,
    {
        if remaining == 0 {
            return Color::black();
        }
        let transparency = self.arena.get(comps.object).material().transparency;
        if transparency == 0 {
            return Color::black();
        }

        // detect total internal reflection via Snell's law
        let n_ratio = fx::fx_div(comps.n1, comps.n2);
        let cos_i = comps.eyev.dot(&comps.normalv);
        let sin2_t = fx::fx_mul(
            fx::fx_mul(n_ratio, n_ratio),
            fx::fx_sub(SCALE, fx::fx_mul(cos_i, cos_i)),
        );
        if sin2_t > SCALE {
            return Color::black();
        }

        let cos_t = fx::fx_sqrt(fx::fx_sub(SCALE, sin2_t));
        let direction = comps.normalv.mul_scalar(fx::fx_sub(fx::fx_mul(n_ratio, cos_i), cos_t))
            .sub(comps.eyev.mul_scalar(n_ratio));

        let refracted_ray = Ray { origin: comps.under_point, direction };

        self.color_at_internal(&refracted_ray, remaining - 1).mul_scalar(transparency)
    }
}

impl Default for World {
    /// The stock scene: one light at (-10, 10, -10), a sphere with a pale
    /// green solid pattern, and a half-size concentric sphere.
    fn default() -> (w: World)
        ensures
            wf_world(w),
            w.object_ids@.len() == 2,
            w.object_ids@[0] == 0usize && w.object_ids@[1] == 1usize,
            w.arena.objects@.len() == 2,
            w.light.position == (Tuple {
                x: (-10 * SCALE) as i64,
                y: (10 * SCALE) as i64,
                z: (-10 * SCALE) as i64,
                w: SCALE,
            }),
            w.light.intensity == (Color { r: SCALE, g: SCALE, b: SCALE }),
            w.arena.shape(0) matches Shape::Sphere(s1) && crate::matrix::is_identity(s1.transform)
                && crate::matrix::is_identity(s1.inverse) && s1.parent_id is None && s1.material
                == (Material {
                pattern: Pattern::Solid(
                    Color { r: (8 * SCALE / 10) as i64, g: SCALE, b: (6 * SCALE / 10) as i64 },
                ),
                diffuse: (7 * SCALE / 10) as i64,
                specular: (2 * SCALE / 10) as i64,
                ..crate::material::spec_default_material()
            }),
            w.arena.shape(1) matches Shape::Sphere(s2) && s2.material
                == crate::material::spec_default_material() && s2.parent_id is None
                && crate::matrix::spec_inverse4(s2.transform, s2.inverse) && (forall|r: int, c: int|
                0 <= r < 4 && 0 <= c < 4 ==> s2.transform.spec_at(r, c) == if r != c {
                    0
                } else {
                    seq![
                        (SCALE / 2) as int,
                        (SCALE / 2) as int,
                        (SCALE / 2) as int,
                        SCALE as int,
                    ][r]
                }),
    {
        let light = PointLight::new(
            Tuple::point(-10 * SCALE, 10 * SCALE, -10 * SCALE),
            Color::white(),
        );

        let mut s1 = Sphere::new();
        s1.material = Material {
            pattern: Pattern::solid(Color::new(8 * SCALE / 10, SCALE, 6 * SCALE / 10)),
            diffuse: 7 * SCALE / 10,
            specular: 2 * SCALE / 10,
            ..Material::default()
        };

        let mut s2 = Shape::Sphere(Sphere::new());
        let scale_half = Matrix::scaling(SCALE / 2, SCALE / 2, SCALE / 2);
        let set = s2.set_transform(scale_half);
        proof {
            crate::matrix::lemma_diag_det(
                scale_half,
                (SCALE / 2) as int,
                (SCALE / 2) as int,
                (SCALE / 2) as int,
            );
            assert(fx::spec_mul(500_000, 500_000) == 250_000) by {
                assert(vstd::math::abs(250_000_000_000int) == 250_000_000_000nat);
                assert(vstd::math::abs(1_000_000int) == 1_000_000nat);
                vstd::arithmetic::div_mod::lemma_div_multiples_vanish(250_000, 1_000_000);
                assert(250_000_000_000int / 1_000_000int == 250_000int);
            }
            assert(fx::spec_mul(500_000, 250_000) == 125_000) by {
                assert(vstd::math::abs(125_000_000_000int) == 125_000_000_000nat);
                assert(vstd::math::abs(1_000_000int) == 1_000_000nat);
                vstd::arithmetic::div_mod::lemma_div_multiples_vanish(125_000, 1_000_000);
                assert(125_000_000_000int / 1_000_000int == 125_000int);
            }
        }
        match set {
            Result::Ok(()) => {},
            Result::Err(_) => {
                proof {
                    assert(false);
                }
            },
        }

        let mut arena = Arena::new();
        let id1 = arena.add(Shape::Sphere(s1));
        let id2 = arena.add(s2);
        let mut object_ids: Vec<usize> = Vec::new();
        object_ids.push(id1);
        object_ids.push(id2);
        World { light, arena, object_ids }
    }
}

} // verus!
