use rust_tracer::arena::Arena;
use rust_tracer::group::Group;
use rust_tracer::matrix::Matrix;
use rust_tracer::ray::Ray;
use rust_tracer::shapes::Shape;
use rust_tracer::sphere::Sphere;
use rust_tracer::tuple::Tuple;

const S: i64 = 1_000_000;

fn p(x: i64, y: i64, z: i64) -> Tuple {
    Tuple::point(x * S, y * S, z * S)
}

fn v(x: i64, y: i64, z: i64) -> Tuple {
    Tuple::vector(x * S, y * S, z * S)
}

fn translated_sphere(x: i64, y: i64, z: i64) -> Shape {
    let mut s = Shape::Sphere(Sphere::new());
    s.set_transform(Matrix::translation(x * S, y * S, z * S)).unwrap();
    s
}

#[test]
fn group() {
    let mut arena = Arena::new();
    let group_id = arena.next_id();
    let mut group = Group::new(group_id);

    let sphere_id = arena.add(Shape::Sphere(Sphere::new()));
    group.add_child(sphere_id, &mut arena);

    arena.add_with_id(group_id, Shape::Group(group));

    assert_eq!(Some(group_id), arena.get(sphere_id).parent_id());
}

#[test]
fn intersect_non_empty_group() {
    let mut arena = Arena::new();

    let s1 = Shape::Sphere(Sphere::new());
    let s2 = translated_sphere(0, 0, -3);
    let s3 = translated_sphere(5, 0, 0);

    let group_id = arena.next_id();
    let mut group = Group::new(group_id);
    let s1_id = arena.add(s1);
    let s2_id = arena.add(s2);
    let s3_id = arena.add(s3);
    group.add_children(&vec![s1_id, s2_id, s3_id], &mut arena);

    let r = Ray::new(p(0, 0, -5), v(0, 0, 1));
    let xs = group.local_intersect(&arena, &r);

    assert_eq!(4, xs.len());
    assert_eq!(s2_id, xs[0].object);
    assert_eq!(s2_id, xs[1].object);
    assert_eq!(s1_id, xs[2].object);
    assert_eq!(s1_id, xs[3].object);
}

#[test]
fn intersect_ray_misses_group_bounds() {
    // the pruning pass: a ray missing the aggregate box reports nothing
    let mut arena = Arena::new();
    let group_id = arena.next_id();
    let mut group = Group::new(group_id);
    let s_id = arena.add(Shape::Sphere(Sphere::new()));
    group.add_child(s_id, &mut arena);

    let r = Ray::new(p(0, 10, 0), v(1, 0, 0));
    let xs = group.local_intersect(&arena, &r);
    assert!(xs.is_empty());
}

#[test]
fn intersect_transformed_group() {
    let mut arena = Arena::new();

    let sphere = translated_sphere(5, 0, 0);

    let group_id = arena.next_id();
    let mut group_inner = Group::new(group_id);
    let s_id = arena.add(sphere);
    group_inner.add_child(s_id, &mut arena);

    let mut group = Shape::Group(group_inner);
    group.set_transform(Matrix::scaling(2 * S, 2 * S, 2 * S)).unwrap();

    arena.add_with_id(group_id, group);

    let r = Ray::new(p(10, 0, 10), v(0, 0, 1));
    let xs = arena.get(group_id).intersect(group_id, &arena, &r);
    assert_eq!(2, xs.len());
}

#[test]
fn partitioning_groups_children() {
    let mut arena = Arena::new();

    let s1 = translated_sphere(-2, 0, 0);
    let s2 = translated_sphere(2, 0, 0);
    let s3 = Shape::Sphere(Sphere::new());

    let group_id = arena.next_id();
    let mut group_inner = Group::new(group_id);
    let s1_id = arena.add(s1);
    let s2_id = arena.add(s2);
    let s3_id = arena.add(s3);
    group_inner.add_children(&vec![s1_id, s2_id, s3_id], &mut arena);

    let (left, right) = group_inner.partition_children(&arena);

    assert_eq!(vec![s3_id], group_inner.children_ids);
    assert_eq!(vec![s1_id], left);
    assert_eq!(vec![s2_id], right);
}

#[test]
fn create_subgroup_from_children() {
    let mut arena = Arena::new();

    let s1 = Shape::Sphere(Sphere::new());
    let s2 = Shape::Sphere(Sphere::new());

    let group_id = arena.next_id();
    let mut g = Group::new(group_id);

    let s1_id = arena.add(s1);
    let s2_id = arena.add(s2);
    g.make_subgroup(&vec![s1_id, s2_id], &mut arena);

    assert_eq!(1, g.children_ids.len());
    let subgroup = match arena.get(g.children_ids[0]) {
        Shape::Group(g) => g,
        _ => panic!("not a group"),
    };
    assert_eq!(vec![s1_id, s2_id], subgroup.children_ids);
}

#[test]
fn divide() {
    let mut arena = Arena::new();

    let s1 = translated_sphere(-2, -2, 0);
    let s2 = translated_sphere(-2, 2, 0);
    let mut s3 = Shape::Sphere(Sphere::new());
    s3.set_transform(Matrix::scaling(4 * S, 4 * S, 4 * S)).unwrap();

    let group_id = arena.next_id();
    let mut group_inner = Group::new(group_id);
    let s1_id = arena.add(s1);
    let s2_id = arena.add(s2);
    let s3_id = arena.add(s3);
    group_inner.add_children(&vec![s1_id, s2_id, s3_id], &mut arena);

    group_inner.divide(1, &mut arena);
    assert_eq!(2, group_inner.children_ids.len());
    assert_eq!(s3_id, group_inner.children_ids[0]);

    let subgroup = match arena.get(group_inner.children_ids[1]) {
        Shape::Group(g) => g,
        _ => panic!("not a group"),
    };
    assert_eq!(2, subgroup.children_ids.len());
    assert_eq!(s1_id, subgroup.children_ids[0]);
    assert_eq!(s2_id, subgroup.children_ids[1]);
}

#[test]
fn group_bounds_wrap_children() {
    let mut arena = Arena::new();
    let group_id = arena.next_id();
    let mut group = Group::new(group_id);
    let s1_id = arena.add(translated_sphere(-2, 0, 0));
    let s2_id = arena.add(translated_sphere(2, 0, 0));
    group.add_children(&vec![s1_id, s2_id], &mut arena);
    let b = group.bounds(&arena);
    assert!(p(-3, -1, -1).approx_eq(&b.min));
    assert!(p(3, 1, 1).approx_eq(&b.max));
}

#[test]
fn divide_below_threshold_leaves_group_alone() {
    let mut arena = Arena::new();
    let group_id = arena.next_id();
    let mut group = Group::new(group_id);
    let s1_id = arena.add(translated_sphere(-2, 0, 0));
    group.add_child(s1_id, &mut arena);
    group.divide(5, &mut arena);
    assert_eq!(vec![s1_id], group.children_ids);
    assert_eq!(2, arena.len());
}
