//! The closed set of shape variants, the accessors they share, and the
//! arena-wide traversals: intersection through the group tree and normal
//! computation through the parent chain.
//!
//! Recursion over the id graph carries an explicit fuel, one unit per group
//! or parent hop; every public entry point starts with the arena's size,
//! which no simple path through distinct ids can exhaust.  The fueled spec
//! functions state each traversal's value exactly.

use vstd::prelude::*;

verus! {

use crate::arena::Arena;
use crate::bounds::{BoundingBox, spec_add_box, spec_box_transform, spec_intersects, spec_empty_box};
use crate::cone::Cone;
use crate::cube::Cube;
use crate::cylinder::Cylinder;
use crate::group::Group;
use crate::intersection::{Intersection, sort_by_t};
use crate::material::Material;
use crate::matrix::{Matrix, spec_inverse4};
use crate::plane::Plane;
use crate::ray::{Ray, spec_ray_transform};
use crate::sphere::Sphere;
use crate::tuple::{Tuple, spec_tuple_div, spec_magnitude};
use crate::TracerError;

#[derive(Clone)]
pub enum Shape {
    Sphere(Sphere),
    Plane(Plane),
    Cube(Cube),
    Cylinder(Cylinder),
    Cone(Cone),
    Group(Group),
}

impl Shape {
    pub open spec fn spec_transform(self) -> Matrix {
        match self {
            Shape::Sphere(s) => s.transform,
            Shape::Plane(p) => p.transform,
            Shape::Cube(c) => c.transform,
            Shape::Cylinder(c) => c.transform,
            Shape::Cone(c) => c.transform,
            Shape::Group(g) => g.transform,
        }
    }

    pub open spec fn spec_inverse_transform(self) -> Matrix {
        match self {
            Shape::Sphere(s) => s.inverse,
            Shape::Plane(p) => p.inverse,
            Shape::Cube(c) => c.inverse,
            Shape::Cylinder(c) => c.inverse,
            Shape::Cone(c) => c.inverse,
            Shape::Group(g) => g.inverse,
        }
    }

    pub open spec fn spec_parent(self) -> Option<usize> {
        match self {
            Shape::Sphere(s) => s.parent_id,
            Shape::Plane(p) => p.parent_id,
            Shape::Cube(c) => c.parent_id,
            Shape::Cylinder(c) => c.parent_id,
            Shape::Cone(c) => c.parent_id,
            Shape::Group(g) => g.parent_id,
        }
    }

    /// A group has no material of its own; asking for one is a scene bug.
    pub open spec fn spec_material(self) -> Material
        recommends
            !(self is Group),
    {
        match self {
            Shape::Sphere(s) => s.material,
            Shape::Plane(p) => p.material,
            Shape::Cube(c) => c.material,
            Shape::Cylinder(c) => c.material,
            Shape::Cone(c) => c.material,
            Shape::Group(_) => crate::material::spec_default_material(),
        }
    }

    pub open spec fn wf(self) -> bool {
        match self {
            Shape::Sphere(s) => s.wf(),
            Shape::Plane(p) => p.wf(),
            Shape::Cube(c) => c.wf(),
            Shape::Cylinder(c) => c.wf(),
            Shape::Cone(c) => c.wf(),
            Shape::Group(g) => g.wf(),
        }
    }

    pub open spec fn with_parent(self, parent_id: Option<usize>) -> Shape {
        match self {
            Shape::Sphere(s) => Shape::Sphere(Sphere { parent_id, ..s }),
            Shape::Plane(p) => Shape::Plane(Plane { parent_id, ..p }),
            Shape::Cube(c) => Shape::Cube(Cube { parent_id, ..c }),
            Shape::Cylinder(c) => Shape::Cylinder(Cylinder { parent_id, ..c }),
            Shape::Cone(c) => Shape::Cone(Cone { parent_id, ..c }),
            Shape::Group(g) => Shape::Group(Group { parent_id, ..g }),
        }
    }

    pub open spec fn with_transform(self, transform: Matrix, inverse: Matrix) -> Shape {
        match self {
            Shape::Sphere(s) => Shape::Sphere(Sphere { transform, inverse, ..s }),
            Shape::Plane(p) => Shape::Plane(Plane { transform, inverse, ..p }),
            Shape::Cube(c) => Shape::Cube(Cube { transform, inverse, ..c }),
            Shape::Cylinder(c) => Shape::Cylinder(Cylinder { transform, inverse, ..c }),
            Shape::Cone(c) => Shape::Cone(Cone { transform, inverse, ..c }),
            Shape::Group(g) => Shape::Group(Group { transform, inverse, ..g }),
        }
    }

    pub open spec fn with_material(self, material: Material) -> Shape
        recommends
            !(self is Group),
    {
        match self {
            Shape::Sphere(s) => Shape::Sphere(Sphere { material, ..s }),
            Shape::Plane(p) => Shape::Plane(Plane { material, ..p }),
            Shape::Cube(c) => Shape::Cube(Cube { material, ..c }),
            Shape::Cylinder(c) => Shape::Cylinder(Cylinder { material, ..c }),
            Shape::Cone(c) => Shape::Cone(Cone { material, ..c }),
            Shape::Group(g) => Shape::Group(g),
        }
    }

    /// The local-space roots of a primitive (a group has none of its own).
    pub open spec fn spec_local_ts(self, local: Ray) -> Seq<i64>
        recommends
            !(self is Group),
    {
        match self {
            Shape::Sphere(_) => crate::sphere::spec_sphere_ts(local),
            Shape::Plane(_) => crate::plane::spec_plane_ts(local),
            Shape::Cube(_) => crate::cube::spec_cube_ts(local),
            Shape::Cylinder(c) => crate::cylinder::spec_cylinder_ts(c, local),
            Shape::Cone(c) => crate::cone::spec_cone_ts(c, local),
            Shape::Group(_) => Seq::empty(),
        }
    }

    /// The local-space normal of a primitive (a group has none).
    pub open spec fn spec_local_normal(self, p: Tuple) -> Tuple
        recommends
            !(self is Group),
    {
        match self {
            Shape::Sphere(_) => crate::tuple::spec_tuple_sub(
                p,
                Tuple { x: 0i64, y: 0i64, z: 0i64, w: crate::fx::SCALE },
            ),
            Shape::Plane(_) => Tuple { x: 0i64, y: crate::fx::SCALE, z: 0i64, w: 0i64 },
            Shape::Cube(_) => crate::cube::spec_cube_normal(p),
            Shape::Cylinder(c) => crate::cylinder::spec_cylinder_normal(c, p),
            Shape::Cone(c) => crate::cone::spec_cone_normal(c, p),
            Shape::Group(_) => Tuple { x: 0i64, y: 0i64, z: 0i64, w: 0i64 },
        }
    }

    /// The local-space bounding box of a primitive.
    pub open spec fn spec_local_bounds(self) -> BoundingBox
        recommends
            !(self is Group),
    {
        let s = crate::fx::SCALE;
        match self {
            Shape::Sphere(_) => BoundingBox {
                min: Tuple { x: (-s) as i64, y: (-s) as i64, z: (-s) as i64, w: s },
                max: Tuple { x: s, y: s, z: s, w: s },
            },
            Shape::Plane(_) => BoundingBox {
                min: Tuple { x: i64::MIN, y: 0i64, z: i64::MIN, w: s },
                max: Tuple { x: i64::MAX, y: 0i64, z: i64::MAX, w: s },
            },
            Shape::Cube(_) => BoundingBox {
                min: Tuple { x: (-s) as i64, y: (-s) as i64, z: (-s) as i64, w: s },
                max: Tuple { x: s, y: s, z: s, w: s },
            },
            Shape::Cylinder(c) => BoundingBox {
                min: Tuple { x: (-s) as i64, y: c.minimum, z: (-s) as i64, w: s },
                max: Tuple { x: s, y: c.maximum, z: s, w: s },
            },
            Shape::Cone(c) => {
                let lo = crate::fx::spec_abs(c.minimum as int);
                let hi = crate::fx::spec_abs(c.maximum as int);
                let limit = if lo > hi {
                    lo
                } else {
                    hi
                };
                BoundingBox {
                    min: Tuple {
                        x: crate::fx::spec_neg(limit) as i64,
                        y: c.minimum,
                        z: crate::fx::spec_neg(limit) as i64,
                        w: s,
                    },
                    max: Tuple { x: limit as i64, y: c.maximum, z: limit as i64, w: s },
                }
            },
            Shape::Group(_) => spec_empty_box(),
        }
    }
}

/// The child ids a group names all point at filled arena slots (parent
/// links are checked at run time, so they need no such promise).
pub open spec fn links_ok(a: Arena, s: Shape) -> bool {
    s matches Shape::Group(g) ==> crate::group::group_links_ok(a, g)
}

/// Every filled slot's child links stay inside the arena, so the group
/// traversals can follow any id they meet.
pub open spec fn wf_arena(a: Arena) -> bool {
    forall|i: int| a.valid(i) ==> links_ok(a, #[trigger] a.shape(i))
}

/// The roots of a primitive wrapped into intersection records against `id`.
pub open spec fn spec_as_intersections(ts: Seq<i64>, id: usize) -> Seq<Intersection> {
    Seq::new(ts.len(), |i: int| Intersection { t: ts[i], object: id })
}

/// What `intersect` returns: the ray moves into local space through the
/// shape's inverse transform; a primitive reports its own roots, a group
/// defers to the bounds-gated traversal of its children.
pub open spec fn spec_shape_intersect(a: Arena, s: Shape, id: usize, r: Ray, fuel: nat) -> Seq<
    Intersection,
>
    decreases fuel, 4int, 0int,
{
    let local = spec_ray_transform(r, s.spec_inverse_transform());
    match s {
        Shape::Group(g) => spec_group_intersect(a, g, local, fuel),
        _ => spec_as_intersections(s.spec_local_ts(local), id),
    }
}

/// A group hit set: empty when the fuel is gone or the local ray misses the
/// aggregate bounds; otherwise all children's hits merged and sorted.
pub open spec fn spec_group_intersect(a: Arena, g: Group, local: Ray, fuel: nat) -> Seq<
    Intersection,
>
    decreases fuel, 3int, 0int,
{
    if fuel == 0 {
        Seq::empty()
    } else if !spec_intersects(spec_group_bounds(a, g, fuel), local) {
        Seq::empty()
    } else {
        sort_by_t(spec_children_intersect(a, g.children_ids@, local, fuel))
    }
}

/// The concatenation of every child's hits, left to right.
pub open spec fn spec_children_intersect(a: Arena, cs: Seq<usize>, local: Ray, fuel: nat) -> Seq<
    Intersection,
>
    decreases fuel, 2int, cs.len(),
{
    if cs.len() == 0 || fuel == 0 {
        Seq::empty()
    } else {
        spec_children_intersect(a, cs.drop_last(), local, fuel) + spec_shape_intersect(
            a,
            a.shape(cs.last() as int),
            cs.last(),
            local,
            (fuel - 1) as nat,
        )
    }
}

/// A shape's bounds in its parent's space: its own bounds taken through its
/// transform.
pub open spec fn spec_parent_space_bounds(a: Arena, s: Shape, fuel: nat) -> BoundingBox
    decreases fuel, 7int, 0int,
{
    spec_box_transform(spec_shape_bounds(a, s, fuel), s.spec_transform())
}

/// A primitive's local bounds, or a group's aggregate bounds.
pub open spec fn spec_shape_bounds(a: Arena, s: Shape, fuel: nat) -> BoundingBox
    decreases fuel, 6int, 0int,
{
    match s {
        Shape::Group(g) => spec_group_bounds(a, g, fuel),
        _ => s.spec_local_bounds(),
    }
}

/// The union of every child's parent-space bounds (empty when the fuel is
/// gone).
pub open spec fn spec_group_bounds(a: Arena, g: Group, fuel: nat) -> BoundingBox
    decreases fuel, 5int, 0int,
{
    if fuel == 0 {
        spec_empty_box()
    } else {
        spec_children_bounds(a, g.children_ids@, fuel)
    }
}

pub open spec fn spec_children_bounds(a: Arena, cs: Seq<usize>, fuel: nat) -> BoundingBox
    decreases fuel, 4int, cs.len(),
{
    if cs.len() == 0 || fuel == 0 {
        spec_empty_box()
    } else {
        spec_add_box(
            spec_children_bounds(a, cs.drop_last(), fuel),
            spec_parent_space_bounds(a, a.shape(cs.last() as int), (fuel - 1) as nat),
        )
    }
}

/// A world point walked down the parent chain into the shape's local space.
pub open spec fn spec_world_to_object(a: Arena, s: Shape, point: Tuple, fuel: nat) -> Tuple
    decreases fuel,
{
    let p2 = if fuel > 0 && s.spec_parent() is Some && a.valid(s.spec_parent()->0 as int) {
        spec_world_to_object(a, a.shape(s.spec_parent()->0 as int), point, (fuel - 1) as nat)
    } else {
        point
    };
    s.spec_inverse_transform().spec_mul_tuple(p2)
}

/// A local normal carried back to world space: through the transposed
/// inverse at each level, zeroed in `w` and re-normalized, then up the chain.
pub open spec fn spec_normal_to_world(a: Arena, s: Shape, normal: Tuple, fuel: nat) -> Tuple
    decreases fuel,
{
    let m = s.spec_inverse_transform();
    let raw = Tuple {
        x: m.spec_col_tuple(0, normal) as i64,
        y: m.spec_col_tuple(1, normal) as i64,
        z: m.spec_col_tuple(2, normal) as i64,
        w: 0i64,
    };
    let n = spec_tuple_div(raw, spec_magnitude(raw));
    if fuel > 0 && s.spec_parent() is Some && a.valid(s.spec_parent()->0 as int) {
        spec_normal_to_world(a, a.shape(s.spec_parent()->0 as int), n, (fuel - 1) as nat)
    } else {
        n
    }
}

/// The world normal at a world point: down the chain, the primitive's local
/// normal, back up the chain.
pub open spec fn spec_normal_at(a: Arena, s: Shape, point: Tuple, fuel: nat) -> Tuple {
    spec_normal_to_world(
        a,
        s,
        s.spec_local_normal(spec_world_to_object(a, s, point, fuel)),
        fuel,
    )
}


/// A group whose aggregate bounds the local ray misses reports no
/// intersection at all: the whole subtree is pruned.
pub proof fn lemma_group_bounds_prune(a: Arena, g: Group, local: Ray, fuel: nat)
    requires
        !spec_intersects(spec_group_bounds(a, g, fuel), local),
    ensures
        spec_group_intersect(a, g, local, fuel) == Seq::<Intersection>::empty(),
{
    if fuel == 0 {
        assert(spec_group_intersect(a, g, local, fuel) =~= Seq::<Intersection>::empty());
    } else {
        assert(spec_group_intersect(a, g, local, fuel) =~= Seq::<Intersection>::empty());
    }
}

/// On a unit sphere sitting untransformed and parentless in the arena, the
/// surface normal at a point is exactly the normalized vector from the
/// sphere's origin to that point.
pub proof fn lemma_unit_sphere_normal(a: Arena, sp: Sphere, p: Tuple)
    requires
        crate::matrix::is_identity(sp.inverse),
        sp.parent_id is None,
    ensures
        spec_normal_at(a, Shape::Sphere(sp), p, a.spec_len()) == ({
            let v = crate::tuple::spec_tuple_sub(
                p,
                Tuple { x: 0i64, y: 0i64, z: 0i64, w: crate::fx::SCALE },
            );
            let raw = Tuple { x: v.x, y: v.y, z: v.z, w: 0i64 };
            spec_tuple_div(raw, spec_magnitude(raw))
        }),
{
    let s = Shape::Sphere(sp);
    let fuel = a.spec_len();
    crate::matrix::lemma_identity_mul_tuple(sp.inverse, p);
    assert(spec_world_to_object(a, s, p, fuel) == p);
    let v = crate::tuple::spec_tuple_sub(
        p,
        Tuple { x: 0i64, y: 0i64, z: 0i64, w: crate::fx::SCALE },
    );
    assert(s.spec_local_normal(p) == v);
    // carrying the normal back through the identity column products
    let m = sp.inverse;
    assert forall|c: int| 0 <= c < 3 implies m.spec_col_tuple(c, v) == (if c == 0 {
        v.x as int
    } else if c == 1 {
        v.y as int
    } else {
        v.z as int
    }) by {
        crate::fx::lemma_mul_unit(v.x as int);
        crate::fx::lemma_mul_unit(v.y as int);
        crate::fx::lemma_mul_unit(v.z as int);
        crate::fx::lemma_mul_zero(v.x as int);
        crate::fx::lemma_mul_zero(v.y as int);
        crate::fx::lemma_mul_zero(v.z as int);
        crate::fx::lemma_mul_zero(v.w as int);
        assert(m.data[0][c] as int == m.spec_at(0, c));
        assert(m.data[1][c] as int == m.spec_at(1, c));
        assert(m.data[2][c] as int == m.spec_at(2, c));
        assert(m.data[3][c] as int == m.spec_at(3, c));
    }
}

/// Every hit a primitive or group reports names a filled, non-group slot,
/// so the shading pipeline can read its material.
pub proof fn lemma_shape_intersect_shadeable(a: Arena, s: Shape, id: usize, r: Ray, fuel: nat)
    requires
        wf_arena(a),
        links_ok(a, s),
        !(s is Group) ==> a.valid(id as int) && !(a.shape(id as int) is Group),
    ensures
        crate::intersection::objects_shadeable(a, spec_shape_intersect(a, s, id, r, fuel)),
    decreases fuel, 4int, 0int,
{
    let local = spec_ray_transform(r, s.spec_inverse_transform());
    if s is Group {
        let g = s->Group_0;
        lemma_group_intersect_shadeable(a, g, local, fuel);
    } else {
        let ts = s.spec_local_ts(local);
        let xs = spec_as_intersections(ts, id);
        assert forall|j: int| 0 <= j < xs.len() implies a.valid(#[trigger] xs[j].object as int)
            && !(a.shape(xs[j].object as int) is Group) by {
            assert(xs[j].object == id);
        }
    }
}

pub proof fn lemma_group_intersect_shadeable(a: Arena, g: Group, local: Ray, fuel: nat)
    requires
        wf_arena(a),
        crate::group::group_links_ok(a, g),
    ensures
        crate::intersection::objects_shadeable(a, spec_group_intersect(a, g, local, fuel)),
    decreases fuel, 3int, 0int,
{
    broadcast use vstd::seq_lib::group_to_multiset_ensures;

    if fuel == 0 {
    } else if !spec_intersects(spec_group_bounds(a, g, fuel), local) {
    } else {
        lemma_children_intersect_shadeable(a, g.children_ids@, local, fuel);
        let cc = spec_children_intersect(a, g.children_ids@, local, fuel);
        crate::intersection::lemma_sort_by_t(cc);
        let sorted = sort_by_t(cc);
        assert forall|j: int| 0 <= j < sorted.len() implies a.valid(
            #[trigger] sorted[j].object as int,
        ) && !(a.shape(sorted[j].object as int) is Group) by {
            let v = sorted[j];
            assert(sorted.contains(v));
            assert(sorted.to_multiset().count(v) > 0);
            assert(cc.to_multiset().count(v) > 0);
            assert(cc.contains(v));
            let i = choose|i: int| 0 <= i < cc.len() && cc[i] == v;
        }
    }
}

pub proof fn lemma_children_intersect_shadeable(a: Arena, cs: Seq<usize>, local: Ray, fuel: nat)
    requires
        wf_arena(a),
        forall|k: int| 0 <= k < cs.len() ==> a.valid(#[trigger] cs[k] as int),
    ensures
        crate::intersection::objects_shadeable(a, spec_children_intersect(a, cs, local, fuel)),
    decreases fuel, 2int, cs.len(),
{
    if cs.len() == 0 || fuel == 0 {
    } else {
        let front = cs.drop_last();
        assert(forall|k: int| 0 <= k < front.len() ==> front[k] == cs[k]);
        lemma_children_intersect_shadeable(a, front, local, fuel);
        let child = a.shape(cs.last() as int);
        assert(a.valid(cs.last() as int)) by {
            assert(cs[cs.len() - 1] == cs.last());
        }
        assert(links_ok(a, child));
        lemma_shape_intersect_shadeable(a, child, cs.last(), local, (fuel - 1) as nat);
        let lhs = spec_children_intersect(a, front, local, fuel);
        let rhs = spec_shape_intersect(a, child, cs.last(), local, (fuel - 1) as nat);
        let whole = spec_children_intersect(a, cs, local, fuel);
        assert(whole == lhs + rhs);
        assert forall|j: int| 0 <= j < whole.len() implies a.valid(
            #[trigger] whole[j].object as int,
        ) && !(a.shape(whole[j].object as int) is Group) by {
            if j < lhs.len() {
                assert(whole[j] == lhs[j]);
            } else {
                assert(whole[j] == rhs[j - lhs.len()]);
            }
        }
    }
}

impl Shape {
    pub fn transform(&self) -> (m: &Matrix)
        ensures
            *m == self.spec_transform(),
    {
        match self {
            Shape::Sphere(s) => &s.transform,
            Shape::Plane(p) => &p.transform,
            Shape::Cube(c) => &c.transform,
            Shape::Cylinder(c) => &c.transform,
            Shape::Cone(c) => &c.transform,
            Shape::Group(g) => &g.transform,
        }
    }

    pub fn inverse_transform(&self) -> (m: &Matrix)
        ensures
            *m == self.spec_inverse_transform(),
    {
        match self {
            Shape::Sphere(s) => &s.inverse,
            Shape::Plane(p) => &p.inverse,
            Shape::Cube(c) => &c.inverse,
            Shape::Cylinder(c) => &c.inverse,
            Shape::Cone(c) => &c.inverse,
            Shape::Group(g) => &g.inverse,
        }
    }

    /// Replaces the transform, keeping its inverse alongside; a matrix with
    /// zero determinant is a scene-construction error and is rejected.
    pub fn set_transform(&mut self, transform: Matrix) -> (r: Result<(), TracerError>)
        requires
            transform.size == 4,
        ensures
            r is Ok <==> crate::matrix::spec_det(crate::matrix::mview(transform)) != 0,
            r is Ok ==> *final(self) == old(self).with_transform(
                transform,
                final(self).spec_inverse_transform(),
            ) && spec_inverse4(transform, final(self).spec_inverse_transform()),
            r is Err ==> *final(self) == *old(self),
    {
        match transform.inverse() {
            Option::Some(inv) => {
                match self {
                    Shape::Sphere(s) => {
                        s.transform = transform;
                        s.inverse = inv;
                    },
                    Shape::Plane(p) => {
                        p.transform = transform;
                        p.inverse = inv;
                    },
                    Shape::Cube(c) => {
                        c.transform = transform;
                        c.inverse = inv;
                    },
                    Shape::Cylinder(c) => {
                        c.transform = transform;
                        c.inverse = inv;
                    },
                    Shape::Cone(c) => {
                        c.transform = transform;
                        c.inverse = inv;
                    },
                    Shape::Group(g) => {
                        g.transform = transform;
                        g.inverse = inv;
                    },
                }
                Ok(())
            },
            Option::None => Err(TracerError::SingularTransform),
        }
    }

    /// A group holds no material; asking is a scene bug kept out by contract.
    pub fn material(&self) -> (m: &Material)
        requires
            !(*self is Group),
        ensures
            *m == self.spec_material(),
    {
        match self {
            Shape::Sphere(s) => &s.material,
            Shape::Plane(p) => &p.material,
            Shape::Cube(c) => &c.material,
            Shape::Cylinder(c) => &c.material,
            Shape::Cone(c) => &c.material,
            Shape::Group(_) => unreached(),
        }
    }

    pub fn set_material(&mut self, material: Material)
        requires
            !(*old(self) is Group),
        ensures
            *final(self) == old(self).with_material(material),
    {
        match self {
            Shape::Sphere(s) => s.material = material,
            Shape::Plane(p) => p.material = material,
            Shape::Cube(c) => c.material = material,
            Shape::Cylinder(c) => c.material = material,
            Shape::Cone(c) => c.material = material,
            Shape::Group(_) => unreached(),
        }
    }

    pub fn parent_id(&self) -> (p: Option<usize>)
        ensures
            p == self.spec_parent(),
    {
        match self {
            Shape::Sphere(s) => s.parent_id,
            Shape::Plane(p) => p.parent_id,
            Shape::Cube(c) => c.parent_id,
            Shape::Cylinder(c) => c.parent_id,
            Shape::Cone(c) => c.parent_id,
            Shape::Group(g) => g.parent_id,
        }
    }

    pub fn set_parent_id(&mut self, parent_id: Option<usize>)
        ensures
            *final(self) == old(self).with_parent(parent_id),
    {
        match self {
            Shape::Sphere(s) => s.parent_id = parent_id,
            Shape::Plane(p) => p.parent_id = parent_id,
            Shape::Cube(c) => c.parent_id = parent_id,
            Shape::Cylinder(c) => c.parent_id = parent_id,
            Shape::Cone(c) => c.parent_id = parent_id,
            Shape::Group(g) => g.parent_id = parent_id,
        }
    }

    /// The local roots of a primitive, dispatched by variant.
    pub fn local_intersect(&self, local_ray: &Ray) -> (ts: Vec<i64>)
        requires
            !(*self is Group),
        ensures
            ts@ == self.spec_local_ts(*local_ray),
    {
        match self {
            Shape::Sphere(s) => s.local_intersect(local_ray),
            Shape::Plane(p) => p.local_intersect(local_ray),
            Shape::Cube(c) => c.local_intersect(local_ray),
            Shape::Cylinder(c) => c.local_intersect(local_ray),
            Shape::Cone(c) => c.local_intersect(local_ray),
            Shape::Group(_) => unreached(),
        }
    }

    /// Intersects a ray with this shape, which lives in the arena under
    /// `self_id`; group traversal prunes by bounds and recurses.
    pub fn intersect(&self, self_id: usize, arena: &Arena, r: &Ray) -> (xs: Vec<Intersection>)
        requires
            wf_arena(*arena),
            links_ok(*arena, *self),
        ensures
            xs@ == spec_shape_intersect(*arena, *self, self_id, *r, arena.spec_len()),
    {
        let fuel = arena.len();
        self.intersect_rec(self_id, arena, r, fuel)
    }

    pub fn intersect_rec(&self, self_id: usize, arena: &Arena, r: &Ray, fuel: usize) -> (xs: Vec<
        Intersection,
    >)
        requires
            wf_arena(*arena),
            links_ok(*arena, *self),
        ensures
            xs@ == spec_shape_intersect(*arena, *self, self_id, *r, fuel as nat),
        decreases fuel, 4int,
    {
        let local_ray = r.transform(self.inverse_transform());
        match self {
            Shape::Group(g) => g.local_intersect_rec(arena, &local_ray, fuel),
            _ => {
                let ts = self.local_intersect(&local_ray);
                let mut xs: Vec<Intersection> = Vec::new();
                let mut i: usize = 0;
                while i < ts.len()
                    invariant
                        i <= ts@.len(),
                        xs@ == spec_as_intersections(ts@, self_id).take(i as int),
                    decreases ts@.len() - i,
                {
                    xs.push(Intersection { t: ts[i], object: self_id });
                    proof {
                        assert(xs@ =~= spec_as_intersections(ts@, self_id).take(i + 1int));
                    }
                    i = i + 1;
                }
                proof {
                    assert(xs@ =~= spec_as_intersections(ts@, self_id));
                }
                xs
            },
        }
    }

    /// This shape's bounds expressed in its parent's coordinate frame.
    pub fn parent_space_bounds_rec(&self, arena: &Arena, fuel: usize) -> (b: BoundingBox)
        requires
            wf_arena(*arena),
            links_ok(*arena, *self),
        ensures
            b == spec_parent_space_bounds(*arena, *self, fuel as nat),
        decreases fuel, 2int,
    {
        self.bounds_rec(arena, fuel).transform(self.transform())
    }

    pub fn parent_space_bounds(&self, arena: &Arena) -> (b: BoundingBox)
        requires
            wf_arena(*arena),
            links_ok(*arena, *self),
        ensures
            b == spec_parent_space_bounds(*arena, *self, arena.spec_len()),
    {
        let fuel = arena.len();
        self.parent_space_bounds_rec(arena, fuel)
    }

    /// The local bounds of a primitive or the aggregate bounds of a group.
    pub fn bounds_rec(&self, arena: &Arena, fuel: usize) -> (b: BoundingBox)
        requires
            wf_arena(*arena),
            links_ok(*arena, *self),
        ensures
            b == spec_shape_bounds(*arena, *self, fuel as nat),
        decreases fuel, 1int,
    {
        match self {
            Shape::Sphere(s) => s.bounds(),
            Shape::Plane(p) => p.bounds(),
            Shape::Cube(c) => c.bounds(),
            Shape::Cylinder(c) => c.bounds(),
            Shape::Cone(c) => c.bounds(),
            Shape::Group(g) => g.bounds_rec(arena, fuel),
        }
    }

    pub fn bounds(&self, arena: &Arena) -> (b: BoundingBox)
        requires
            wf_arena(*arena),
            links_ok(*arena, *self),
        ensures
            b == spec_shape_bounds(*arena, *self, arena.spec_len()),
    {
        let fuel = arena.len();
        self.bounds_rec(arena, fuel)
    }

    /// A world point taken into this shape's local frame through the whole
    /// parent chain.
    pub fn world_to_object_rec(&self, arena: &Arena, point: Tuple, fuel: usize) -> (p: Tuple)
        requires
            wf_arena(*arena),
        ensures
            p == spec_world_to_object(*arena, *self, point, fuel as nat),
        decreases fuel,
    {
        let mut point = point;
        if fuel > 0 {
            if let Option::Some(pid) = self.parent_id() {
                if arena.is_valid(pid) {
                    point = arena.get(pid).world_to_object_rec(arena, point, fuel - 1);
                }
            }
        }
        self.inverse_transform().mul_tuple(point)
    }

    pub fn world_to_object(&self, arena: &Arena, point: Tuple) -> (p: Tuple)
        requires
            wf_arena(*arena),
        ensures
            p == spec_world_to_object(*arena, *self, point, arena.spec_len()),
    {
        let fuel = arena.len();
        self.world_to_object_rec(arena, point, fuel)
    }

    /// A local normal carried back out to world space through the whole
    /// parent chain.
    pub fn normal_to_world_rec(&self, arena: &Arena, normal: Tuple, fuel: usize) -> (n: Tuple)
        requires
            wf_arena(*arena),
        ensures
            n == spec_normal_to_world(*arena, *self, normal, fuel as nat),
        decreases fuel,
    {
        let raw = self.inverse_transform().transpose().mul_tuple(normal);
        let raw = Tuple { x: raw.x, y: raw.y, z: raw.z, w: 0 };
        proof {
            let m = self.spec_inverse_transform();
            assert(raw.x as int == m.spec_col_tuple(0, normal));
            assert(raw.y as int == m.spec_col_tuple(1, normal));
            assert(raw.z as int == m.spec_col_tuple(2, normal));
        }
        let mut n = raw.normalize();
        if fuel > 0 {
            if let Option::Some(pid) = self.parent_id() {
                if arena.is_valid(pid) {
                    n = arena.get(pid).normal_to_world_rec(arena, n, fuel - 1);
                }
            }
        }
        n
    }

    pub fn normal_to_world(&self, arena: &Arena, normal: Tuple) -> (n: Tuple)
        requires
            wf_arena(*arena),
        ensures
            n == spec_normal_to_world(*arena, *self, normal, arena.spec_len()),
    {
        let fuel = arena.len();
        self.normal_to_world_rec(arena, normal, fuel)
    }

    /// The world-space surface normal at a world point.  A group has no
    /// surface of its own, so asking it for a normal is a scene bug.
    pub fn normal_at(&self, arena: &Arena, point: Tuple) -> (n: Tuple)
        requires
            wf_arena(*arena),
            !(*self is Group),
        ensures
            n == spec_normal_at(*arena, *self, point, arena.spec_len()),
    {
        let local_point = self.world_to_object(arena, point);
        let local_normal = match self {
            Shape::Sphere(s) => s.local_normal_at(local_point),
            Shape::Plane(p) => p.local_normal_at(local_point),
            Shape::Cube(c) => c.local_normal_at(local_point),
            Shape::Cylinder(c) => c.local_normal_at(local_point),
            Shape::Cone(c) => c.local_normal_at(local_point),
            Shape::Group(_) => unreached(),
        };
        self.normal_to_world(arena, local_normal)
    }
}

} // verus!
