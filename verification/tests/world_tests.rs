use rust_tracer::arena::Arena;
use rust_tracer::color::Color;
use rust_tracer::intersection::Intersection;
use rust_tracer::light::PointLight;
use rust_tracer::material::Material;
use rust_tracer::matrix::Matrix;
use rust_tracer::plane::Plane;
use rust_tracer::ray::Ray;
use rust_tracer::shapes::Shape;
use rust_tracer::sphere::Sphere;
use rust_tracer::tuple::Tuple;
use rust_tracer::world::World;
use rust_tracer::MAX_REFLECTION_RECURSION;

const S: i64 = 1_000_000;

fn p(x: i64, y: i64, z: i64) -> Tuple {
    Tuple::point(x * S, y * S, z * S)
}

fn v(x: i64, y: i64, z: i64) -> Tuple {
    Tuple::vector(x * S, y * S, z * S)
}

#[test]
fn intersect_with_ray() {
    let w = World::default();
    let r = Ray::new(p(0, 0, -5), v(0, 0, 1));
    let xs = w.intersect(&r);
    assert_eq!(4, xs.len());
    assert_eq!(4 * S, xs[0].t);
    assert_eq!(4_500_000, xs[1].t);
    assert_eq!(5_500_000, xs[2].t);
    assert_eq!(6 * S, xs[3].t);
}

#[test]
fn shading_an_intersection() {
    let w = World::default();
    let r = Ray::new(p(0, 0, -5), v(0, 0, 1));
    let i = Intersection::new(4 * S, w.object_ids[0]);
    let comps = i.prepare_computations(&w.arena, &r, &vec![i]);
    let c = w.shade_hit(&comps, MAX_REFLECTION_RECURSION);
    assert!(Color::new(380_660, 475_830, 285_500).approx_eq(&c));
}

#[test]
fn color_when_ray_misses() {
    let w = World::default();
    let r = Ray::new(p(0, 0, -5), v(0, 1, 0));
    assert!(Color::black().approx_eq(&w.color_at(&r)));
}

#[test]
fn color_when_ray_hits() {
    let w = World::default();
    let r = Ray::new(p(0, 0, -5), v(0, 0, 1));
    assert!(Color::new(380_660, 475_830, 285_500).approx_eq(&w.color_at(&r)));
}

#[test]
fn no_shadow_when_nothing_is_collinear_with_point_and_light() {
    let w = World::default();
    assert!(!w.is_shadowed(p(0, 10, 0)));
}

#[test]
fn shadow_when_object_between_point_and_light() {
    let w = World::default();
    assert!(w.is_shadowed(p(10, -10, 10)));
}

#[test]
fn no_shadow_when_object_behind_light() {
    let w = World::default();
    assert!(!w.is_shadowed(p(-20, 20, -20)));
}

#[test]
fn no_shadow_when_object_behind_point() {
    let w = World::default();
    assert!(!w.is_shadowed(p(-2, 2, -2)));
}

#[test]
fn shade_hit_intersection_in_shadow() {
    let light = PointLight::new(p(0, 0, -10), Color::white());
    let arena = Arena::new();

    let s1 = Shape::Sphere(Sphere::new());
    let mut s2 = Shape::Sphere(Sphere::new());
    s2.set_transform(Matrix::translation(0, 0, 10 * S)).unwrap();
    let w = World::new(light, arena, vec![s1, s2]);

    let r = Ray::new(p(0, 0, 5), v(0, 0, 1));
    let i = Intersection::new(4 * S, w.object_ids[1]);
    let comps = i.prepare_computations(&w.arena, &r, &vec![i]);
    let c = w.shade_hit(&comps, MAX_REFLECTION_RECURSION);
    assert!(Color::new(100_000, 100_000, 100_000).approx_eq(&c));
}

#[test]
fn reflected_color_non_reflective_material() {
    let mut w = World::default();
    let id = w.object_ids[1];
    let mut inner = w.arena.get(id).clone();
    let m = Material { ambient: S, ..*inner.material() };
    inner.set_material(m);
    w.arena.replace(id, inner);

    let r = Ray::new(p(0, 0, 0), v(0, 0, 1));
    let i = Intersection::new(S, id);
    let comps = i.prepare_computations(&w.arena, &r, &vec![i]);
    let color = w.reflected_color(&comps, MAX_REFLECTION_RECURSION);
    assert!(Color::black().approx_eq(&color));
}

#[test]
fn color_at_with_mutually_reflective_surfaces_doesnt_cause_infinite_recursion() {
    let light = PointLight::new(p(0, 0, 0), Color::white());
    let mut lower = Shape::Plane(Plane::new());
    lower.set_material(Material { reflective: S, ..Material::default() });
    lower.set_transform(Matrix::translation(0, -S, 0)).unwrap();
    let mut upper = Shape::Plane(Plane::new());
    upper.set_material(Material { reflective: S, ..Material::default() });
    upper.set_transform(Matrix::translation(0, S, 0)).unwrap();
    let w = World::new(light, Arena::new(), vec![lower, upper]);
    let r = Ray::new(p(0, 0, 0), v(0, 1, 0));
    // must terminate and produce a finite color
    let _ = w.color_at(&r);
}

#[test]
fn reflected_color_at_max_recursive_depth() {
    let mut w = World::default();
    let mut shape = Shape::Plane(Plane::new());
    shape.set_material(Material { reflective: 500_000, ..Material::default() });
    shape.set_transform(Matrix::translation(0, -S, 0)).unwrap();
    let id = w.add_object(shape);

    let sq2 = 1_414_214;
    let sq2h = 707_107;
    let r = Ray::new(p(0, 0, -3), Tuple::vector(0, -sq2h, sq2h));
    let i = Intersection::new(sq2, id);
    let comps = i.prepare_computations(&w.arena, &r, &vec![i]);
    let color = w.reflected_color(&comps, 0);
    assert!(Color::black().approx_eq(&color));
}

#[test]
fn find_refracted_color_opaque_object() {
    let w = World::default();
    let id = w.object_ids[0];
    let r = Ray::new(p(0, 0, -5), v(0, 0, 1));
    let i1 = Intersection::new(4 * S, id);
    let i2 = Intersection::new(6 * S, id);
    let comps = i1.prepare_computations(&w.arena, &r, &vec![i1, i2]);
    let c = w.refracted_color(&comps, MAX_REFLECTION_RECURSION);
    assert!(Color::black().approx_eq(&c));
}

#[test]
fn refracted_color_max_recursion() {
    let mut w = World::default();
    let id = w.object_ids[0];
    let mut outer = w.arena.get(id).clone();
    let m = Material { transparency: S, refractive_index: 1_500_000, ..*outer.material() };
    outer.set_material(m);
    w.arena.replace(id, outer);

    let r = Ray::new(p(0, 0, -5), v(0, 0, 1));
    let i1 = Intersection::new(4 * S, id);
    let i2 = Intersection::new(6 * S, id);
    let comps = i1.prepare_computations(&w.arena, &r, &vec![i1, i2]);
    let c = w.refracted_color(&comps, 0);
    assert!(Color::black().approx_eq(&c));
}

#[test]
fn refracted_color_under_total_internal_reflection() {
    let mut w = World::default();
    let id = w.object_ids[0];
    let mut outer = w.arena.get(id).clone();
    let m = Material { transparency: S, refractive_index: 1_500_000, ..*outer.material() };
    outer.set_material(m);
    w.arena.replace(id, outer);

    let sq2h = 707_107;
    let r = Ray::new(Tuple::point(0, 0, sq2h), v(0, 1, 0));
    let i1 = Intersection::new(-sq2h, id);
    let i2 = Intersection::new(sq2h, id);
    // the eye sits inside the sphere, so the second intersection is the one
    let comps = i2.prepare_computations(&w.arena, &r, &vec![i1, i2]);
    let c = w.refracted_color(&comps, MAX_REFLECTION_RECURSION);
    assert!(Color::black().approx_eq(&c));
}

#[test]
fn color_intersection_behind_ray() {
    let mut w = World::default();
    for idx in 0..2 {
        let id = w.object_ids[idx];
        let mut s = w.arena.get(id).clone();
        let m = Material { ambient: S, ..*s.material() };
        s.set_material(m);
        w.arena.replace(id, s);
    }
    let r = Ray::new(Tuple::point(0, 0, 750_000), v(0, 0, -1));
    let c = w.color_at(&r);
    // the inner sphere's solid white shows through at full ambient
    assert!(Color::white().approx_eq(&c));
}

#[test]
fn reflected_color_reflective_material() {
    let mut w = World::default();
    let mut shape = Shape::Plane(Plane::new());
    shape.set_material(Material { reflective: 500_000, ..Material::default() });
    shape.set_transform(Matrix::translation(0, -S, 0)).unwrap();
    let id = w.add_object(shape);

    let sq2 = 1_414_214;
    let sq2h = 707_107;
    let r = Ray::new(p(0, 0, -3), Tuple::vector(0, -sq2h, sq2h));
    let i = Intersection::new(sq2, id);
    let comps = i.prepare_computations(&w.arena, &r, &vec![i]);
    let color = w.reflected_color(&comps, MAX_REFLECTION_RECURSION);
    assert!(Color::new(190_330, 237_910, 142_740).approx_eq(&color));
}

#[test]
fn shade_hit_reflective_material() {
    let mut w = World::default();
    let mut shape = Shape::Plane(Plane::new());
    shape.set_material(Material { reflective: 500_000, ..Material::default() });
    shape.set_transform(Matrix::translation(0, -S, 0)).unwrap();
    let id = w.add_object(shape);

    let sq2 = 1_414_214;
    let sq2h = 707_107;
    let r = Ray::new(p(0, 0, -3), Tuple::vector(0, -sq2h, sq2h));
    let i = Intersection::new(sq2, id);
    let comps = i.prepare_computations(&w.arena, &r, &vec![i]);
    let c = w.shade_hit(&comps, MAX_REFLECTION_RECURSION);
    assert!(Color::new(876_760, 924_340, 829_170).approx_eq(&c));
}

#[test]
fn refracted_color_refracted_ray() {
    let mut w = World::default();
    let outer_id = w.object_ids[0];
    let mut outer = w.arena.get(outer_id).clone();
    // the test pattern reports the pattern point as a color, so the returned
    // color shows whether the ray was refracted
    let m = Material {
        ambient: S,
        pattern: rust_tracer::patterns::Pattern::test(),
        ..*outer.material()
    };
    outer.set_material(m);
    w.arena.replace(outer_id, outer);

    let inner_id = w.object_ids[1];
    let mut inner = w.arena.get(inner_id).clone();
    let m = Material { transparency: S, refractive_index: 1_500_000, ..*inner.material() };
    inner.set_material(m);
    w.arena.replace(inner_id, inner);

    let r = Ray::new(Tuple::point(0, 0, 100_000), v(0, 1, 0));
    let xs = vec![
        Intersection::new(-989_900, outer_id),
        Intersection::new(-489_900, inner_id),
        Intersection::new(489_900, inner_id),
        Intersection::new(989_900, outer_id),
    ];
    let comps = xs[2].prepare_computations(&w.arena, &r, &xs);
    let c = w.refracted_color(&comps, MAX_REFLECTION_RECURSION);
    assert!(Color::new(0, 998_870, 47_220).approx_eq(&c));
}

#[test]
fn shade_hit_with_transparent_material() {
    let mut w = World::default();

    let mut floor = Shape::Plane(Plane::new());
    floor.set_transform(Matrix::translation(0, -S, 0)).unwrap();
    floor.set_material(
        Material { transparency: 500_000, refractive_index: 1_500_000, ..Material::default() },
    );
    let floor_id = w.add_object(floor);

    let mut ball = Shape::Sphere(Sphere::new());
    ball.set_material(
        Material {
            pattern: rust_tracer::patterns::Pattern::solid(Color::red()),
            ambient: 500_000,
            ..Material::default()
        },
    );
    ball.set_transform(Matrix::translation(0, -3_500_000, -500_000)).unwrap();
    w.add_object(ball);

    let sq2 = 1_414_214;
    let sq2h = 707_107;
    let r = Ray::new(p(0, 0, -3), Tuple::vector(0, -sq2h, sq2h));
    let i = Intersection::new(sq2, floor_id);
    let comps = i.prepare_computations(&w.arena, &r, &vec![i]);
    let c = w.shade_hit(&comps, MAX_REFLECTION_RECURSION);
    assert!(Color::new(936_420, 686_420, 686_420).approx_eq(&c));
}

#[test]
fn shade_hit_with_reflective_transparent_material() {
    let mut w = World::default();

    let mut floor = Shape::Plane(Plane::new());
    floor.set_transform(Matrix::translation(0, -S, 0)).unwrap();
    floor.set_material(
        Material {
            reflective: 500_000,
            transparency: 500_000,
            refractive_index: 1_500_000,
            ..Material::default()
        },
    );
    let floor_id = w.add_object(floor);

    let mut ball = Shape::Sphere(Sphere::new());
    ball.set_material(
        Material {
            pattern: rust_tracer::patterns::Pattern::solid(Color::red()),
            ambient: 500_000,
            ..Material::default()
        },
    );
    ball.set_transform(Matrix::translation(0, -3_500_000, -500_000)).unwrap();
    w.add_object(ball);

    let sq2 = 1_414_214;
    let sq2h = 707_107;
    let r = Ray::new(p(0, 0, -3), Tuple::vector(0, -sq2h, sq2h));
    let i = Intersection::new(sq2, floor_id);
    let comps = i.prepare_computations(&w.arena, &r, &vec![i]);
    let c = w.shade_hit(&comps, MAX_REFLECTION_RECURSION);
    assert!(Color::new(933_910, 696_430, 692_430).approx_eq(&c));
}
