use rust_tracer::tuple::Tuple;

const S: i64 = 1_000_000;

#[test]
fn is_point() {
    let p = Tuple::new(4_300_000, -4_200_000, 3_100_000, S);
    assert_eq!(4_300_000, p.x);
    assert_eq!(-4_200_000, p.y);
    assert_eq!(3_100_000, p.z);
    assert!(p.is_point());
    assert!(!p.is_vector());
}

#[test]
fn point_ctor() {
    let p = Tuple::point(4_300_000, -4_200_000, 3_100_000);
    assert_eq!(4_300_000, p.x);
    assert_eq!(-4_200_000, p.y);
    assert_eq!(3_100_000, p.z);
    assert!(p.is_point());
    assert!(!p.is_vector());
}

#[test]
fn is_vector() {
    let v = Tuple::new(4_300_000, -4_200_000, 3_100_000, 0);
    assert_eq!(4_300_000, v.x);
    assert_eq!(-4_200_000, v.y);
    assert_eq!(3_100_000, v.z);
    assert!(!v.is_point());
    assert!(v.is_vector());
}

#[test]
fn vector_ctor() {
    let v = Tuple::vector(4_300_000, -4_200_000, 3_100_000);
    assert_eq!(4_300_000, v.x);
    assert_eq!(-4_200_000, v.y);
    assert_eq!(3_100_000, v.z);
    assert!(!v.is_point());
    assert!(v.is_vector());
}

#[test]
fn tuple_eq() {
    let p = Tuple::point(4_300_000, -4_200_000, 3_100_000);
    let p2 = Tuple::point(4_300_000, -4_200_000, 3_100_000);
    assert!(p.approx_eq(&p2));
}

#[test]
fn tuple_ne() {
    let p = Tuple::point(4_300_000, -4_200_000, 3_100_000);
    let v = Tuple::vector(4_300_000, -4_200_000, 3_100_000);
    assert!(!p.approx_eq(&v));
}

#[test]
fn tuple_add() {
    let p = Tuple::point(S, 2 * S, 3 * S);
    let v = Tuple::vector(S, 2 * S, 3 * S);
    let result = p.add(v);
    assert!(Tuple::point(2 * S, 4 * S, 6 * S).approx_eq(&result));
}

#[test]
fn tuple_sub() {
    let p = Tuple::point(S, 2 * S, 3 * S);
    let p2 = Tuple::point(S, 2 * S, 3 * S);
    let result = p.sub(p2);
    assert!(Tuple::vector(0, 0, 0).approx_eq(&result));
}

#[test]
fn neg() {
    let t = Tuple::point(S, 2 * S, 3 * S);
    let result = t.neg();
    assert!(Tuple::new(-S, -2 * S, -3 * S, -S).approx_eq(&result));
}

#[test]
fn tuple_mul() {
    let v = Tuple::vector(S, 2 * S, 3 * S);
    let result = v.mul_scalar(2 * S);
    assert!(Tuple::vector(2 * S, 4 * S, 6 * S).approx_eq(&result));
}

#[test]
fn div() {
    let v = Tuple::vector(S, 2 * S, 3 * S);
    let result = v.div_scalar(2 * S);
    assert!(Tuple::vector(500_000, S, 1_500_000).approx_eq(&result));
}

#[test]
fn magnitude() {
    let v = Tuple::vector(S, 0, 0);
    assert_eq!(S, v.magnitude());
    let v = Tuple::vector(S, 2 * S, 3 * S);
    // sqrt(14) to the resolution of one unit
    assert!(rust_tracer::approx_eq(3_741_657, v.magnitude()));
}

#[test]
fn normalize() {
    let v = Tuple::vector(4 * S, 0, 0);
    assert!(Tuple::vector(S, 0, 0).approx_eq(&v.normalize()));
    let v = Tuple::vector(S, 2 * S, 3 * S);
    assert!(Tuple::vector(267_260, 534_520, 801_780).approx_eq(&v.normalize()));
    assert!(rust_tracer::approx_eq(S, v.normalize().magnitude()));
}

#[test]
fn dot_product() {
    let v = Tuple::vector(S, 2 * S, 3 * S);
    let v2 = Tuple::vector(2 * S, 3 * S, 4 * S);
    assert_eq!(20 * S, v.dot(&v2));
}

#[test]
fn cross_product() {
    let v = Tuple::vector(S, 2 * S, 3 * S);
    let v2 = Tuple::vector(2 * S, 3 * S, 4 * S);
    assert!(Tuple::vector(-S, 2 * S, -S).approx_eq(&v.cross(&v2)));
    assert!(Tuple::vector(S, -2 * S, S).approx_eq(&v2.cross(&v)));
}

#[test]
fn reflecting_vector_approaching_at_45_deg() {
    let v = Tuple::vector(S, -S, 0);
    let n = Tuple::vector(0, S, 0);
    let r = v.reflect(n);
    assert!(Tuple::vector(S, S, 0).approx_eq(&r));
}

#[test]
fn reflecting_vector_off_slanted_surface() {
    let v = Tuple::vector(0, -S, 0);
    let sq2h = 707_107;
    let n = Tuple::vector(sq2h, sq2h, 0);
    let r = v.reflect(n);
    assert!(Tuple::vector(S, 0, 0).approx_eq(&r));
}
