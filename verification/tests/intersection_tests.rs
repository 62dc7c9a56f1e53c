use rust_tracer::arena::Arena;
use rust_tracer::intersection::Intersection;
use rust_tracer::material::Material;
use rust_tracer::matrix::Matrix;
use rust_tracer::ray::Ray;
use rust_tracer::shapes::Shape;
use rust_tracer::sphere::Sphere;
use rust_tracer::tuple::Tuple;

const S: i64 = 1_000_000;
const EPSILON: i64 = 10;

fn p(x: i64, y: i64, z: i64) -> Tuple {
    Tuple::point(x * S, y * S, z * S)
}

fn v(x: i64, y: i64, z: i64) -> Tuple {
    Tuple::vector(x * S, y * S, z * S)
}

fn glass_sphere(refractive_index: i64) -> Shape {
    let mut s = Shape::Sphere(Sphere::new());
    s.set_material(Material { transparency: S, refractive_index, ..Material::default() });
    s
}

#[test]
fn intersection_ctor() {
    let i = Intersection::new(3_500_000, 7);
    assert_eq!(3_500_000, i.t);
    assert_eq!(7, i.object);
}

#[test]
fn hit_positive() {
    let i1 = Intersection::new(S, 0);
    let i2 = Intersection::new(2 * S, 0);
    let i = Intersection::hit(&vec![i2, i1]);
    assert_eq!(Some(i1), i);
}

#[test]
fn hit_negative() {
    let i1 = Intersection::new(-S, 0);
    let i2 = Intersection::new(2 * S, 0);
    let i = Intersection::hit(&vec![i2, i1]);
    assert_eq!(Some(i2), i);
}

#[test]
fn hit_all_negative() {
    let i1 = Intersection::new(-2 * S, 0);
    let i2 = Intersection::new(-S, 0);
    let i = Intersection::hit(&vec![i2, i1]);
    assert_eq!(None, i);
}

#[test]
fn hit_lowest_non_negative() {
    let i1 = Intersection::new(5 * S, 0);
    let i2 = Intersection::new(7 * S, 0);
    let i3 = Intersection::new(-3 * S, 0);
    let i4 = Intersection::new(2 * S, 0);
    let i = Intersection::hit(&vec![i1, i2, i3, i4]);
    assert_eq!(Some(i4), i);
}

#[test]
fn sort_orders_by_t() {
    let xs = vec![
        Intersection::new(5 * S, 0),
        Intersection::new(-3 * S, 1),
        Intersection::new(2 * S, 2),
    ];
    let sorted = Intersection::sort(xs);
    assert_eq!(-3 * S, sorted[0].t);
    assert_eq!(2 * S, sorted[1].t);
    assert_eq!(5 * S, sorted[2].t);
}

#[test]
fn precompute() {
    let mut arena = Arena::new();
    let id = arena.add(Shape::Sphere(Sphere::new()));
    let r = Ray::new(p(0, 0, -5), v(0, 0, 1));
    let i = Intersection::new(4 * S, id);
    let comps = i.prepare_computations(&arena, &r, &vec![i]);
    assert_eq!(i.t, comps.t);
    assert_eq!(id, comps.object);
    assert!(p(0, 0, -1).approx_eq(&comps.point));
    assert!(v(0, 0, -1).approx_eq(&comps.eyev));
    assert!(v(0, 0, -1).approx_eq(&comps.normalv));
}

#[test]
fn outside() {
    let mut arena = Arena::new();
    let id = arena.add(Shape::Sphere(Sphere::new()));
    let r = Ray::new(p(0, 0, -5), v(0, 0, 1));
    let i = Intersection::new(4 * S, id);
    let comps = i.prepare_computations(&arena, &r, &vec![i]);
    assert!(!comps.inside);
}

#[test]
fn inside() {
    let mut arena = Arena::new();
    let id = arena.add(Shape::Sphere(Sphere::new()));
    let r = Ray::new(p(0, 0, 0), v(0, 0, 1));
    let i = Intersection::new(S, id);
    let comps = i.prepare_computations(&arena, &r, &vec![i]);
    assert!(p(0, 0, 1).approx_eq(&comps.point));
    assert!(v(0, 0, -1).approx_eq(&comps.eyev));
    assert!(comps.inside);
    assert!(v(0, 0, -1).approx_eq(&comps.normalv));
}

#[test]
fn hit_should_offset_point() {
    let mut arena = Arena::new();
    let mut s = Shape::Sphere(Sphere::new());
    s.set_transform(Matrix::translation(0, 0, S)).unwrap();
    let id = arena.add(s);
    let r = Ray::new(p(0, 0, -5), v(0, 0, 1));
    let i = Intersection::new(5 * S, id);
    let comps = i.prepare_computations(&arena, &r, &vec![i]);
    assert!(comps.over_point.z < -EPSILON / 2);
    assert!(comps.point.z > comps.over_point.z);
}

#[test]
fn under_point_is_below_surface() {
    let mut arena = Arena::new();
    let mut s = Shape::Sphere(Sphere::new());
    s.set_transform(Matrix::translation(0, 0, S)).unwrap();
    let id = arena.add(s);
    let r = Ray::new(p(0, 0, -5), v(0, 0, 1));
    let i = Intersection::new(5 * S, id);
    let comps = i.prepare_computations(&arena, &r, &vec![i]);
    assert!(comps.under_point.z > -EPSILON / 2);
    assert!(comps.point.z < comps.under_point.z);
}

#[test]
fn precomputing_reflection_vector() {
    let mut arena = Arena::new();
    let id = arena.add(Shape::Plane(rust_tracer::plane::Plane::new()));
    let sq2 = 1_414_214;
    let sq2h = 707_107;
    let r = Ray::new(p(0, 1, -1), Tuple::vector(0, -sq2h, sq2h));
    let i = Intersection::new(sq2, id);
    let comps = i.prepare_computations(&arena, &r, &vec![i]);
    assert!(Tuple::vector(0, sq2h, sq2h).approx_eq(&comps.reflectv));
}

#[test]
fn finding_n1_and_n2() {
    let mut arena = Arena::new();

    let mut a = glass_sphere(1_500_000);
    a.set_transform(Matrix::scaling(2 * S, 2 * S, 2 * S)).unwrap();
    let a_id = arena.add(a);

    let mut b = glass_sphere(2_000_000);
    b.set_transform(Matrix::translation(0, 0, -250_000)).unwrap();
    let b_id = arena.add(b);

    let mut c = glass_sphere(2_500_000);
    c.set_transform(Matrix::translation(0, 0, 250_000)).unwrap();
    let c_id = arena.add(c);

    let r = Ray::new(p(0, 0, -4), v(0, 0, 1));
    let xs = vec![
        Intersection::new(2 * S, a_id),
        Intersection::new(2_750_000, b_id),
        Intersection::new(3_250_000, c_id),
        Intersection::new(4_750_000, b_id),
        Intersection::new(5_250_000, c_id),
        Intersection::new(6 * S, a_id),
    ];

    let expected = [
        (1_000_000, 1_500_000),
        (1_500_000, 2_000_000),
        (2_000_000, 2_500_000),
        (2_500_000, 2_500_000),
        (2_500_000, 1_500_000),
        (1_500_000, 1_000_000),
    ];

    for (k, i) in xs.iter().enumerate() {
        let comps = i.prepare_computations(&arena, &r, &xs);
        let (n1, n2) = expected[k];
        assert_eq!(n1, comps.n1, "n1 at {}", k);
        assert_eq!(n2, comps.n2, "n2 at {}", k);
    }
}

#[test]
fn schlick_approximation_under_total_internal_reflection() {
    let mut arena = Arena::new();
    let id = arena.add(glass_sphere(1_500_000));
    let sq2h = 707_107;
    let r = Ray::new(Tuple::point(0, 0, sq2h), v(0, 1, 0));
    let i1 = Intersection::new(-sq2h, id);
    let i2 = Intersection::new(sq2h, id);
    let comps = i2.prepare_computations(&arena, &r, &vec![i1, i2]);
    let reflectance = comps.schlick();
    assert_eq!(S, reflectance);
}

#[test]
fn schlick_approximation_with_perpendicular_viewing_angle() {
    let mut arena = Arena::new();
    let id = arena.add(glass_sphere(1_500_000));
    let r = Ray::new(p(0, 0, 0), v(0, 1, 0));
    let i1 = Intersection::new(-S, id);
    let i2 = Intersection::new(S, id);
    let comps = i2.prepare_computations(&arena, &r, &vec![i1, i2]);
    let reflectance = comps.schlick();
    assert!(rust_tracer::approx_eq(40_000, reflectance));
}

#[test]
fn schlick_approximation_with_small_angle_and_n2_gt_n1() {
    let mut arena = Arena::new();
    let id = arena.add(glass_sphere(1_500_000));
    let r = Ray::new(Tuple::point(0, 990_000, -2 * S), v(0, 0, 1));
    let i = Intersection::new(1_858_900, id);
    let comps = i.prepare_computations(&arena, &r, &vec![i]);
    let reflectance = comps.schlick();
    assert!(rust_tracer::approx_eq(488_730, reflectance));
}
