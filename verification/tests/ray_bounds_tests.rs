use rust_tracer::bounds::BoundingBox;
use rust_tracer::matrix::Matrix;
use rust_tracer::ray::Ray;
use rust_tracer::tuple::Tuple;

const S: i64 = 1_000_000;

fn p(x: i64, y: i64, z: i64) -> Tuple {
    Tuple::point(x * S, y * S, z * S)
}

fn v(x: i64, y: i64, z: i64) -> Tuple {
    Tuple::vector(x * S, y * S, z * S)
}

#[test]
fn ray_ctor() {
    let origin = p(1, 2, 3);
    let direction = v(4, 5, 6);
    let r = Ray::new(origin, direction);
    assert!(origin.approx_eq(&r.origin));
    assert!(direction.approx_eq(&r.direction));
}

#[test]
fn compute_point_from_distance() {
    let r = Ray::new(p(2, 3, 4), v(1, 0, 0));
    assert!(p(2, 3, 4).approx_eq(&r.position(0)));
    assert!(p(3, 3, 4).approx_eq(&r.position(S)));
    assert!(p(1, 3, 4).approx_eq(&r.position(-S)));
    assert!(Tuple::point(4_500_000, 3 * S, 4 * S).approx_eq(&r.position(2_500_000)));
}

#[test]
fn ray_transform() {
    let r = Ray::new(p(1, 2, 3), v(0, 1, 0));
    let t = Matrix::translation(3 * S, 4 * S, 5 * S);
    let r2 = r.transform(&t);
    assert!(p(4, 6, 8).approx_eq(&r2.origin));
    assert!(v(0, 1, 0).approx_eq(&r2.direction));
}

#[test]
fn add_points() {
    let b = BoundingBox::empty().add_point(p(-5, 2, 0)).add_point(p(7, 0, -3));
    assert!(p(-5, 0, -3).approx_eq(&b.min));
    assert!(p(7, 2, 0).approx_eq(&b.max));
}

#[test]
fn add_box() {
    let b1 = BoundingBox::new(p(-5, 2, 0), p(7, 4, 4));
    let b2 = BoundingBox::new(p(8, -7, -2), p(14, 2, 8));
    let result = b1.add_box(b2);
    assert!(p(-5, -7, -2).approx_eq(&result.min));
    assert!(p(14, 4, 8).approx_eq(&result.max));
}

#[test]
fn contains_point() {
    let b = BoundingBox::new(p(5, -2, 0), p(14, 4, 7));
    let cases = [
        (p(5, -2, 0), true),
        (p(11, 4, 7), true),
        (p(8, 1, 3), true),
        (p(3, 0, 3), false),
        (p(8, -4, 3), false),
        (p(8, 1, -1), false),
        (p(8, 5, 3), false),
        (p(8, 1, 8), false),
    ];
    for (point, expected) in cases {
        assert_eq!(expected, b.contains_point(point));
    }
}

#[test]
fn contains_box() {
    let b = BoundingBox::new(p(5, -2, 0), p(14, 4, 7));
    let cases = [
        (BoundingBox::new(p(5, -2, 0), p(11, 4, 7)), true),
        (BoundingBox::new(p(6, -1, 1), p(10, 3, 6)), true),
        (BoundingBox::new(p(4, -3, -1), p(10, 3, 6)), false),
        (BoundingBox::new(p(6, -1, 1), p(12, 5, 8)), false),
    ];
    for (other, expected) in cases {
        assert_eq!(expected, b.contains_box(other));
    }
}

#[test]
fn intersecting_with_a_bounding_box_at_the_origin() {
    let bb = BoundingBox::new(p(-1, -1, -1), p(1, 1, 1));
    let half = 500_000;
    let cases = [
        (Tuple::point(5 * S, half, 0), v(-1, 0, 0), true),
        (Tuple::point(-5 * S, half, 0), v(1, 0, 0), true),
        (Tuple::point(half, 5 * S, 0), v(0, -1, 0), true),
        (Tuple::point(half, -5 * S, 0), v(0, 1, 0), true),
        (Tuple::point(half, 0, 5 * S), v(0, 0, -1), true),
        (Tuple::point(half, 0, -5 * S), v(0, 0, 1), true),
        (Tuple::point(0, half, 0), v(0, 0, 1), true),
        (p(-2, 0, 0), v(2, 4, 6), false),
        (p(0, -2, 0), v(6, 2, 4), false),
        (p(0, 0, -2), v(4, 6, 2), false),
        (p(2, 0, 2), v(0, 0, -1), false),
        (p(0, 2, 2), v(0, -1, 0), false),
        (p(2, 2, 0), v(-1, 0, 0), false),
    ];
    for (origin, direction, expected) in cases {
        let r = Ray::new(origin, direction.normalize());
        assert_eq!(expected, bb.intersects(&r));
    }
}

#[test]
fn intersecting_with_a_non_cubic_bounding_box() {
    let bb = BoundingBox::new(p(5, -2, 0), p(11, 4, 7));
    let cases = [
        (p(15, 1, 2), v(-1, 0, 0), true),
        (p(-5, -1, 4), v(1, 0, 0), true),
        (p(7, 6, 5), v(0, -1, 0), true),
        (p(9, -5, 6), v(0, 1, 0), true),
        (p(8, 2, 12), v(0, 0, -1), true),
        (p(6, 0, -5), v(0, 0, 1), true),
        (Tuple::point(8 * S, S, 3_500_000), v(0, 0, 1), true),
        (p(9, -1, -8), v(2, 4, 6), false),
        (p(8, 3, -4), v(6, 2, 4), false),
        (p(9, -1, -2), v(4, 6, 2), false),
        (p(4, 0, 9), v(0, 0, -1), false),
        (p(8, 6, -1), v(0, -1, 0), false),
        (p(12, 5, 4), v(-1, 0, 0), false),
    ];
    for (origin, direction, expected) in cases {
        let r = Ray::new(origin, direction.normalize());
        assert_eq!(expected, bb.intersects(&r));
    }
}

#[test]
fn split_perfect_cube() {
    let bb = BoundingBox::new(p(-1, -4, -5), p(9, 6, 5));
    let (left, right) = bb.split();
    assert!(p(-1, -4, -5).approx_eq(&left.min));
    assert!(p(4, 6, 5).approx_eq(&left.max));
    assert!(p(4, -4, -5).approx_eq(&right.min));
    assert!(p(9, 6, 5).approx_eq(&right.max));
}

#[test]
fn split_x_wide_box() {
    let bb = BoundingBox::new(p(-1, -2, -3), Tuple::point(9 * S, 5_500_000, 3 * S));
    let (left, right) = bb.split();
    assert!(p(-1, -2, -3).approx_eq(&left.min));
    assert!(Tuple::point(4 * S, 5_500_000, 3 * S).approx_eq(&left.max));
    assert!(p(4, -2, -3).approx_eq(&right.min));
    assert!(Tuple::point(9 * S, 5_500_000, 3 * S).approx_eq(&right.max));
}

#[test]
fn split_y_wide_box() {
    let bb = BoundingBox::new(p(-1, -2, -3), p(5, 8, 3));
    let (left, right) = bb.split();
    assert!(p(-1, -2, -3).approx_eq(&left.min));
    assert!(p(5, 3, 3).approx_eq(&left.max));
    assert!(p(-1, 3, -3).approx_eq(&right.min));
    assert!(p(5, 8, 3).approx_eq(&right.max));
}

#[test]
fn split_z_wide_box() {
    let bb = BoundingBox::new(p(-1, -2, -3), p(5, 3, 7));
    let (left, right) = bb.split();
    assert!(p(-1, -2, -3).approx_eq(&left.min));
    assert!(p(5, 3, 2).approx_eq(&left.max));
    assert!(p(-1, -2, 2).approx_eq(&right.min));
    assert!(p(5, 3, 7).approx_eq(&right.max));
}

#[test]
fn transform_box() {
    // a half turn about y maps the box onto its mirror image
    let b = BoundingBox::new(p(-1, -1, -1), p(1, 1, 1));
    let rot = Matrix::rotation_y(0, -S);
    let transformed = b.transform(&rot);
    assert!(p(-1, -1, -1).approx_eq(&transformed.min));
    assert!(p(1, 1, 1).approx_eq(&transformed.max));

    let shift = Matrix::translation(2 * S, 0, 0);
    let moved = b.transform(&shift);
    assert!(p(1, -1, -1).approx_eq(&moved.min));
    assert!(p(3, 1, 1).approx_eq(&moved.max));
}

#[test]
fn box_union_identity_and_commutativity() {
    let b = BoundingBox::new(p(-5, 2, 0), p(7, 4, 4));
    let e = BoundingBox::empty();
    let left = b.add_box(e);
    assert!(b.min.approx_eq(&left.min) && b.max.approx_eq(&left.max));
    let right = e.add_box(b);
    assert!(b.min.approx_eq(&right.min) && b.max.approx_eq(&right.max));

    let c = BoundingBox::new(p(8, -7, -2), p(14, 2, 8));
    let bc = b.add_box(c);
    let cb = c.add_box(b);
    assert!(bc.min.approx_eq(&cb.min) && bc.max.approx_eq(&cb.max));
}
