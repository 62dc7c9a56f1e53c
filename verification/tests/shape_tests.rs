use rust_tracer::arena::Arena;
use rust_tracer::cone::Cone;
use rust_tracer::cube::Cube;
use rust_tracer::cylinder::Cylinder;
use rust_tracer::material::Material;
use rust_tracer::matrix::Matrix;
use rust_tracer::plane::Plane;
use rust_tracer::ray::Ray;
use rust_tracer::shapes::Shape;
use rust_tracer::sphere::Sphere;
use rust_tracer::tuple::Tuple;

const S: i64 = 1_000_000;

fn p(x: i64, y: i64, z: i64) -> Tuple {
    Tuple::point(x * S, y * S, z * S)
}

fn v(x: i64, y: i64, z: i64) -> Tuple {
    Tuple::vector(x * S, y * S, z * S)
}

fn in_arena(s: Shape) -> (Arena, usize) {
    let mut arena = Arena::new();
    let id = arena.add(s);
    (arena, id)
}

#[test]
fn sphere_ray_intersects_at_two_pts() {
    let (arena, id) = in_arena(Shape::Sphere(Sphere::new()));
    let r = Ray::new(p(0, 0, -5), v(0, 0, 1));
    let xs = arena.get(id).intersect(id, &arena, &r);
    assert_eq!(2, xs.len());
    assert_eq!(4 * S, xs[0].t);
    assert_eq!(6 * S, xs[1].t);
}

#[test]
fn sphere_ray_intersects_tangent() {
    let (arena, id) = in_arena(Shape::Sphere(Sphere::new()));
    let r = Ray::new(p(0, 1, -5), v(0, 0, 1));
    let xs = arena.get(id).intersect(id, &arena, &r);
    assert_eq!(2, xs.len());
    assert_eq!(5 * S, xs[0].t);
    assert_eq!(5 * S, xs[1].t);
}

#[test]
fn sphere_ray_misses() {
    let (arena, id) = in_arena(Shape::Sphere(Sphere::new()));
    let r = Ray::new(p(0, 2, -5), v(0, 0, 1));
    let xs = arena.get(id).intersect(id, &arena, &r);
    assert!(xs.is_empty());
}

#[test]
fn sphere_ray_within() {
    let (arena, id) = in_arena(Shape::Sphere(Sphere::new()));
    let r = Ray::new(p(0, 0, 0), v(0, 0, 1));
    let xs = arena.get(id).intersect(id, &arena, &r);
    assert_eq!(2, xs.len());
    assert_eq!(-S, xs[0].t);
    assert_eq!(S, xs[1].t);
}

#[test]
fn sphere_ray_behind() {
    let (arena, id) = in_arena(Shape::Sphere(Sphere::new()));
    let r = Ray::new(p(0, 0, 5), v(0, 0, 1));
    let xs = arena.get(id).intersect(id, &arena, &r);
    assert_eq!(2, xs.len());
    assert_eq!(-6 * S, xs[0].t);
    assert_eq!(-4 * S, xs[1].t);
}

#[test]
fn sphere_set_transform_scaled_intersect() {
    let mut s = Shape::Sphere(Sphere::new());
    s.set_transform(Matrix::scaling(2 * S, 2 * S, 2 * S)).unwrap();
    let (arena, id) = in_arena(s);
    let r = Ray::new(p(0, 0, -5), v(0, 0, 1));
    let xs = arena.get(id).intersect(id, &arena, &r);
    assert_eq!(2, xs.len());
    assert_eq!(3 * S, xs[0].t);
    assert_eq!(7 * S, xs[1].t);
}

#[test]
fn sphere_set_transform_translated_intersect() {
    let mut s = Shape::Sphere(Sphere::new());
    s.set_transform(Matrix::translation(5 * S, 0, 0)).unwrap();
    let (arena, id) = in_arena(s);
    let r = Ray::new(p(0, 0, -5), v(0, 0, 1));
    let xs = arena.get(id).intersect(id, &arena, &r);
    assert!(xs.is_empty());
}

#[test]
fn singular_transform_is_rejected() {
    let mut s = Shape::Sphere(Sphere::new());
    let degenerate = Matrix::scaling(0, 0, 0);
    assert!(s.set_transform(degenerate).is_err());
}

#[test]
fn sphere_normal_x_axis() {
    let (arena, id) = in_arena(Shape::Sphere(Sphere::new()));
    let n = arena.get(id).normal_at(&arena, p(1, 0, 0));
    assert!(v(1, 0, 0).approx_eq(&n));
}

#[test]
fn sphere_normal_y_axis() {
    let (arena, id) = in_arena(Shape::Sphere(Sphere::new()));
    let n = arena.get(id).normal_at(&arena, p(0, 1, 0));
    assert!(v(0, 1, 0).approx_eq(&n));
}

#[test]
fn sphere_normal_z_axis() {
    let (arena, id) = in_arena(Shape::Sphere(Sphere::new()));
    let n = arena.get(id).normal_at(&arena, p(0, 0, 1));
    assert!(v(0, 0, 1).approx_eq(&n));
}

#[test]
fn sphere_normal_nonaxial() {
    // sqrt(3)/3 of a unit
    let c = 577_350;
    let (arena, id) = in_arena(Shape::Sphere(Sphere::new()));
    let n = arena.get(id).normal_at(&arena, Tuple::point(c, c, c));
    assert!(Tuple::vector(c, c, c).approx_eq(&n));
}

#[test]
fn sphere_normal_is_normalized_vector() {
    let c = 577_350;
    let (arena, id) = in_arena(Shape::Sphere(Sphere::new()));
    let n = arena.get(id).normal_at(&arena, Tuple::point(c, c, c));
    assert!(n.normalize().approx_eq(&n));
    assert!(rust_tracer::approx_eq(S, n.magnitude()));
}

#[test]
fn sphere_normal_translated() {
    let mut s = Shape::Sphere(Sphere::new());
    s.set_transform(Matrix::translation(0, S, 0)).unwrap();
    let (arena, id) = in_arena(s);
    let n = arena.get(id).normal_at(&arena, Tuple::point(0, 1_707_110, -707_110));
    assert!(Tuple::vector(0, 707_110, -707_110).approx_eq(&n));
}

#[test]
fn sphere_has_a_default_material() {
    let s = Shape::Sphere(Sphere::new());
    let d = Material::default();
    assert_eq!(d.ambient, s.material().ambient);
    assert_eq!(d.diffuse, s.material().diffuse);
}

#[test]
fn sphere_set_material() {
    let mut s = Shape::Sphere(Sphere::new());
    let m = Material { ambient: S, ..Material::default() };
    s.set_material(m);
    assert_eq!(S, s.material().ambient);
}

#[test]
fn normal_of_plane_is_constant_everywhere() {
    let pl = Plane::new();
    let n1 = pl.local_normal_at(p(0, 0, 0));
    let n2 = pl.local_normal_at(p(10, 0, -10));
    let n3 = pl.local_normal_at(p(-5, 0, 150));
    assert!(v(0, 1, 0).approx_eq(&n1));
    assert!(v(0, 1, 0).approx_eq(&n2));
    assert!(v(0, 1, 0).approx_eq(&n3));
}

#[test]
fn intersect_with_ray_parallel_to_plane() {
    let pl = Plane::new();
    let r = Ray::new(p(0, 10, 0), v(0, 0, 1));
    assert!(pl.local_intersect(&r).is_empty());
}

#[test]
fn intersect_with_coplanar_ray() {
    let pl = Plane::new();
    let r = Ray::new(p(0, 0, 0), v(0, 0, 1));
    assert!(pl.local_intersect(&r).is_empty());
}

#[test]
fn ray_intersecting_plane_from_above() {
    let pl = Plane::new();
    let r = Ray::new(p(0, 1, 0), v(0, -1, 0));
    let xs = pl.local_intersect(&r);
    assert_eq!(1, xs.len());
    assert_eq!(S, xs[0]);
}

#[test]
fn ray_intersecting_plane_from_below() {
    let pl = Plane::new();
    let r = Ray::new(p(0, -1, 0), v(0, 1, 0));
    let xs = pl.local_intersect(&r);
    assert_eq!(1, xs.len());
    assert_eq!(S, xs[0]);
}

#[test]
fn ray_intersects_cube() {
    let c = Cube::new();
    let half = 500_000;
    let cases = [
        (Tuple::point(5 * S, half, 0), v(-1, 0, 0), 4 * S, 6 * S),
        (Tuple::point(-5 * S, half, 0), v(1, 0, 0), 4 * S, 6 * S),
        (Tuple::point(half, 5 * S, 0), v(0, -1, 0), 4 * S, 6 * S),
        (Tuple::point(half, -5 * S, 0), v(0, 1, 0), 4 * S, 6 * S),
        (Tuple::point(half, 0, 5 * S), v(0, 0, -1), 4 * S, 6 * S),
        (Tuple::point(half, 0, -5 * S), v(0, 0, 1), 4 * S, 6 * S),
        (Tuple::point(0, half, 0), v(0, 0, 1), -S, S),
    ];
    for (origin, direction, t1, t2) in cases {
        let r = Ray::new(origin, direction);
        let xs = c.local_intersect(&r);
        assert_eq!(2, xs.len());
        assert_eq!(t1, xs[0]);
        assert_eq!(t2, xs[1]);
    }
}

#[test]
fn ray_misses_cube() {
    let c = Cube::new();
    let cases = [
        (p(-2, 0, 0), Tuple::vector(267_300, 534_500, 801_800)),
        (p(0, -2, 0), Tuple::vector(801_800, 267_300, 534_500)),
        (p(0, 0, -2), Tuple::vector(534_500, 801_800, 267_300)),
        (p(2, 0, 2), v(0, 0, -1)),
        (p(0, 2, 2), v(0, -1, 0)),
        (p(2, 2, 0), v(-1, 0, 0)),
    ];
    for (origin, direction) in cases {
        let r = Ray::new(origin, direction);
        assert_eq!(0, c.local_intersect(&r).len());
    }
}

#[test]
fn normal_on_surface_of_cube() {
    let c = Cube::new();
    let cases = [
        (Tuple::point(S, 500_000, -800_000), Tuple::vector(S, 0, 0)),
        (Tuple::point(-S, -200_000, 900_000), Tuple::vector(-S, 0, 0)),
        (Tuple::point(-400_000, S, -100_000), Tuple::vector(0, S, 0)),
        (Tuple::point(300_000, -S, -700_000), Tuple::vector(0, -S, 0)),
        (Tuple::point(-600_000, 300_000, S), Tuple::vector(0, 0, S)),
        (Tuple::point(400_000, 400_000, -S), Tuple::vector(0, 0, -S)),
        (p(1, 1, 1), v(1, 0, 0)),
        (p(-1, -1, -1), v(-1, 0, 0)),
    ];
    for (point, normal) in cases {
        assert!(normal.approx_eq(&c.local_normal_at(point)));
    }
}

#[test]
fn ray_misses_cylinder() {
    let c = Cylinder::new();
    let cases = [
        (p(1, 0, 0), v(0, 1, 0)),
        (p(0, 0, 0), v(0, 1, 0)),
        (p(0, 0, -5), v(1, 1, 1)),
    ];
    for (origin, direction) in cases {
        let r = Ray::new(origin, direction.normalize());
        assert!(c.local_intersect(&r).is_empty());
    }
}

#[test]
fn ray_strikes_cylinder() {
    let c = Cylinder::new();
    let r = Ray::new(p(1, 0, -5), v(0, 0, 1));
    let xs = c.local_intersect(&r);
    assert_eq!(2, xs.len());
    assert_eq!(5 * S, xs[0]);
    assert_eq!(5 * S, xs[1]);

    let r = Ray::new(p(0, 0, -5), v(0, 0, 1));
    let xs = c.local_intersect(&r);
    assert_eq!(2, xs.len());
    assert_eq!(4 * S, xs[0]);
    assert_eq!(6 * S, xs[1]);
}

#[test]
fn constrained_cylinder() {
    let c = Cylinder::new_with_min_max(S, 2 * S);
    let cases = [
        (Tuple::point(0, 1_500_000, 0), v(0, 1, 0).normalize(), 0),
        (p(0, 3, -5), v(0, 0, 1), 0),
        (p(0, 0, -5), v(0, 0, 1), 0),
        (p(0, 2, -5), v(0, 0, 1), 0),
        (p(0, 1, -5), v(0, 0, 1), 0),
        (Tuple::point(0, 1_500_000, -2 * S), v(0, 0, 1), 2),
    ];
    for (origin, direction, count) in cases {
        let r = Ray::new(origin, direction);
        assert_eq!(count, c.local_intersect(&r).len());
    }
}

#[test]
fn intersecting_caps_of_closed_cylinder() {
    let c = Cylinder::new_with_min_max_closed(S, 2 * S, true);
    let cases = [
        (p(0, 3, 0), v(0, -1, 0), 2),
        (p(0, 3, -2), v(0, -1, 2), 2),
        (p(0, 0, -2), v(0, 1, 2), 2),
    ];
    for (origin, direction, count) in cases {
        let r = Ray::new(origin, direction.normalize());
        assert_eq!(count, c.local_intersect(&r).len());
    }
}

#[test]
fn cylinder_normal() {
    let c = Cylinder::new();
    assert!(v(1, 0, 0).approx_eq(&c.local_normal_at(p(1, 0, 0))));
    assert!(v(0, 0, -1).approx_eq(&c.local_normal_at(p(0, 5, -1))));
    assert!(v(0, 0, 1).approx_eq(&c.local_normal_at(p(0, -2, 1))));
    assert!(v(-1, 0, 0).approx_eq(&c.local_normal_at(p(-1, 1, 0))));
}

#[test]
fn cylinder_cap_normal() {
    let c = Cylinder::new_with_min_max_closed(S, 2 * S, true);
    let half = 500_000;
    assert!(v(0, -1, 0).approx_eq(&c.local_normal_at(p(0, 1, 0))));
    assert!(v(0, -1, 0).approx_eq(&c.local_normal_at(Tuple::point(half, S, 0))));
    assert!(v(0, 1, 0).approx_eq(&c.local_normal_at(p(0, 2, 0))));
    assert!(v(0, 1, 0).approx_eq(&c.local_normal_at(Tuple::point(half, 2 * S, 0))));
}

#[test]
fn intersecting_cone() {
    let c = Cone::new();
    let r = Ray::new(p(0, 0, -5), v(0, 0, 1));
    let xs = c.local_intersect(&r);
    assert_eq!(2, xs.len());
    assert_eq!(5 * S, xs[0]);
    assert_eq!(5 * S, xs[1]);
}

#[test]
fn intersecting_ray_with_ray_parallel_to_halves() {
    let c = Cone::new();
    let r = Ray::new(p(0, 0, -1), v(0, 1, 1).normalize());
    let xs = c.local_intersect(&r);
    assert_eq!(1, xs.len());
    assert!(rust_tracer::approx_eq(353_550, xs[0]));
}

#[test]
fn intersecting_caps_closed_cone() {
    let half = 500_000;
    let c = Cone::new_with_min_max_closed(-half, half, true);
    let cases = [
        (p(0, 0, -5), v(0, 1, 0), 0),
        (Tuple::point(0, 0, -250_000), v(0, 1, 1), 2),
        (Tuple::point(0, 0, -250_000), v(0, 1, 0), 4),
    ];
    for (origin, direction, count) in cases {
        let r = Ray::new(origin, direction.normalize());
        assert_eq!(count, c.local_intersect(&r).len());
    }
}

#[test]
fn cone_normal() {
    let c = Cone::new();
    assert!(v(0, 0, 0).approx_eq(&c.local_normal_at(p(0, 0, 0))));
    // at (1, 1, 1) the radial part is sqrt(2), negated above the apex
    let n = c.local_normal_at(p(1, 1, 1));
    assert!(Tuple::vector(S, -1_414_213, S).approx_eq(&n));
    assert!(v(-1, 1, 0).approx_eq(&c.local_normal_at(p(-1, -1, 0))));
}

#[test]
fn shape_default_transformation() {
    let s = Shape::Sphere(Sphere::new());
    assert!(Matrix::identity().approx_eq(s.transform()));
    let pl = Shape::Plane(Plane::new());
    assert!(Matrix::identity().approx_eq(pl.transform()));
}

#[test]
fn shape_assign_transformation() {
    let mut s = Shape::Plane(Plane::new());
    s.set_transform(Matrix::translation(2 * S, 3 * S, 4 * S)).unwrap();
    assert!(Matrix::translation(2 * S, 3 * S, 4 * S).approx_eq(s.transform()));
}

#[test]
fn converting_point_from_world_to_object_space() {
    let mut arena = Arena::new();

    let mut s = Shape::Sphere(Sphere::new());
    s.set_transform(Matrix::translation(5 * S, 0, 0)).unwrap();
    let s_id = arena.add(s);

    let g2_id = arena.next_id();
    let mut g2_inner = rust_tracer::group::Group::new(g2_id);
    g2_inner.add_child(s_id, &mut arena);
    let mut g2 = Shape::Group(g2_inner);
    g2.set_transform(Matrix::scaling(2 * S, 2 * S, 2 * S)).unwrap();
    arena.add_with_id(g2_id, g2);

    let g1_id = arena.next_id();
    let mut g1_inner = rust_tracer::group::Group::new(g1_id);
    g1_inner.add_child(g2_id, &mut arena);
    let mut g1 = Shape::Group(g1_inner);
    // a quarter turn about y
    g1.set_transform(Matrix::rotation_y(S, 0)).unwrap();
    arena.add_with_id(g1_id, g1);

    let converted = arena.get(s_id).world_to_object(&arena, p(-2, 0, -10));
    assert!(p(0, 0, -1).approx_eq(&converted));
}

#[test]
fn finding_normal_on_child_object() {
    let mut arena = Arena::new();

    let mut s = Shape::Sphere(Sphere::new());
    s.set_transform(Matrix::translation(5 * S, 0, 0)).unwrap();
    let s_id = arena.add(s);

    let g2_id = arena.next_id();
    let mut g2_inner = rust_tracer::group::Group::new(g2_id);
    g2_inner.add_child(s_id, &mut arena);
    let mut g2 = Shape::Group(g2_inner);
    g2.set_transform(Matrix::scaling(S, 2 * S, 3 * S)).unwrap();
    arena.add_with_id(g2_id, g2);

    let g1_id = arena.next_id();
    let mut g1_inner = rust_tracer::group::Group::new(g1_id);
    g1_inner.add_child(g2_id, &mut arena);
    let mut g1 = Shape::Group(g1_inner);
    g1.set_transform(Matrix::rotation_y(S, 0)).unwrap();
    arena.add_with_id(g1_id, g1);

    let n = arena.get(s_id).normal_at(
        &arena,
        Tuple::point(1_732_100, 1_154_700, -5_577_400),
    );
    assert!(Tuple::vector(285_700, 428_540, -857_160).approx_eq(&n));
}

#[test]
fn cylinder_default_extent_is_unbounded() {
    let c = Cylinder::new();
    assert_eq!(i64::MIN, c.minimum);
    assert_eq!(i64::MAX, c.maximum);
    assert!(!c.closed);
}

#[test]
fn cone_bounds_track_the_larger_end() {
    let c = Cone::new_with_min_max(-S, 3 * S);
    let b = c.bounds();
    assert_eq!(-3 * S, b.min.x);
    assert_eq!(-S, b.min.y);
    assert_eq!(3 * S, b.max.x);
    assert_eq!(3 * S, b.max.y);
}

#[test]
fn sphere_normal_transformed() {
    // scaling(1, 0.5, 1) composed with a fifth-turn about z
    let sin_z = 587_785;
    let cos_z = 809_017;
    let m = Matrix::scaling(S, 500_000, S).mul_matrix(&Matrix::rotation_z(sin_z, cos_z));
    let mut s = Shape::Sphere(Sphere::new());
    s.set_transform(m).unwrap();
    let (arena, id) = in_arena(s);
    let sq2h = 707_107;
    let n = arena.get(id).normal_at(&arena, Tuple::point(0, sq2h, -sq2h));
    assert!(Tuple::vector(0, 970_140, -242_540).approx_eq(&n));
}

#[test]
fn converting_normal_from_object_to_world_space() {
    let mut arena = Arena::new();

    let mut s = Shape::Sphere(Sphere::new());
    s.set_transform(Matrix::translation(5 * S, 0, 0)).unwrap();
    let s_id = arena.add(s);

    let g2_id = arena.next_id();
    let mut g2_inner = rust_tracer::group::Group::new(g2_id);
    g2_inner.add_child(s_id, &mut arena);
    let mut g2 = Shape::Group(g2_inner);
    g2.set_transform(Matrix::scaling(S, 2 * S, 3 * S)).unwrap();
    arena.add_with_id(g2_id, g2);

    let g1_id = arena.next_id();
    let mut g1_inner = rust_tracer::group::Group::new(g1_id);
    g1_inner.add_child(g2_id, &mut arena);
    let mut g1 = Shape::Group(g1_inner);
    // a quarter turn about y
    g1.set_transform(Matrix::rotation_y(S, 0)).unwrap();
    arena.add_with_id(g1_id, g1);

    // sqrt(3)/3 of a unit in every component
    let c = 577_350;
    let n = arena.get(s_id).normal_to_world(&arena, Tuple::vector(c, c, c));
    assert!(Tuple::vector(285_710, 428_570, -857_140).approx_eq(&n));
}

#[test]
fn cone_cap_normal() {
    let c = Cone::new_with_min_max_closed(-S, S, true);
    let half = 500_000;
    assert!(v(0, 1, 0).approx_eq(&c.local_normal_at(Tuple::point(half, S, 0))));
    assert!(v(0, -1, 0).approx_eq(&c.local_normal_at(Tuple::point(0, -S, half))));
    // on the rim itself the radial branch still applies
    let n = c.local_normal_at(p(1, 1, 1));
    assert!(Tuple::vector(S, -1_414_213, S).approx_eq(&n));
}
