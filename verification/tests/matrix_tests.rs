use rust_tracer::matrix::Matrix;
use rust_tracer::tuple::Tuple;

const S: i64 = 1_000_000;

fn m4(rows: [[i64; 4]; 4]) -> Matrix {
    Matrix::new(rows[0], rows[1], rows[2], rows[3])
}

fn scaled(rows: [[i64; 4]; 4]) -> Matrix {
    let mut out = rows;
    for r in 0..4 {
        for c in 0..4 {
            out[r][c] = rows[r][c] * S;
        }
    }
    m4(out)
}

#[test]
fn matrix_ctor() {
    let m = m4([
        [1_000_000, 2_000_000, 3_000_000, 4_000_000],
        [5_500_000, 6_500_000, 7_500_000, 8_500_000],
        [9_000_000, 10_000_000, 11_000_000, 12_000_000],
        [13_500_000, 14_500_000, 15_500_000, 16_500_000],
    ]);
    assert_eq!(1_000_000, m.at(0, 0));
    assert_eq!(4_000_000, m.at(0, 3));
    assert_eq!(5_500_000, m.at(1, 0));
    assert_eq!(7_500_000, m.at(1, 2));
    assert_eq!(11_000_000, m.at(2, 2));
    assert_eq!(13_500_000, m.at(3, 0));
    assert_eq!(15_500_000, m.at(3, 2));

    let m3 = Matrix::new3(
        [1_000_000, 2_000_000, 3_000_000],
        [5_500_000, 6_500_000, 7_500_000],
        [9_000_000, 10_000_000, 11_000_000],
    );
    assert_eq!(11_000_000, m3.at(2, 2));
}

#[test]
fn matrix_eq() {
    let rows = [
        [1_000_000, 2_000_000, 3_000_000, 4_000_000],
        [5_500_000, 6_500_000, 7_500_000, 8_500_000],
        [9_000_000, 10_000_000, 11_000_000, 12_000_000],
        [13_500_000, 14_500_000, 15_500_000, 16_500_000],
    ];
    let m = m4(rows);
    let m2 = m4(rows);
    let mut other = rows;
    other[0][0] = 0;
    let m3 = m4(other);
    assert!(m.approx_eq(&m2));
    assert!(!m.approx_eq(&m3));
}

#[test]
fn matrix_mul() {
    let m = scaled([[1, 2, 3, 4], [5, 6, 7, 8], [9, 8, 7, 6], [5, 4, 3, 2]]);
    let m2 = scaled([[-2, 1, 2, 3], [3, 2, 1, -1], [4, 3, 6, 5], [1, 2, 7, 8]]);
    let expected = scaled([
        [20, 22, 50, 48],
        [44, 54, 114, 108],
        [40, 58, 110, 102],
        [16, 26, 46, 42],
    ]);
    assert!(expected.approx_eq(&m.mul_matrix(&m2)));
}

#[test]
fn matrix_tuple_mul() {
    let m = scaled([[1, 2, 3, 4], [2, 4, 4, 2], [8, 6, 4, 1], [0, 0, 0, 1]]);
    let t = Tuple::new(S, 2 * S, 3 * S, S);
    let r = m.mul_tuple(t);
    assert!(Tuple::new(18 * S, 24 * S, 33 * S, S).approx_eq(&r));
}

#[test]
fn matrix_identity() {
    let m = scaled([[1, 2, 3, 4], [2, 4, 4, 2], [8, 6, 4, 1], [0, 0, 0, 1]]);
    assert!(m.approx_eq(&m.mul_matrix(&Matrix::identity())));
}

#[test]
fn matrix_transpose() {
    let m = scaled([[0, 9, 3, 0], [9, 8, 0, 8], [1, 8, 5, 3], [0, 0, 5, 8]]);
    let expected = scaled([[0, 9, 1, 0], [9, 8, 8, 0], [3, 0, 5, 5], [0, 8, 3, 8]]);
    assert!(expected.approx_eq(&m.transpose()));
    assert!(Matrix::identity().approx_eq(&Matrix::identity().transpose()));
}

#[test]
fn matrix_determinant_2x2() {
    let m = Matrix::new2([S, 5 * S], [-3 * S, 2 * S]);
    assert_eq!(17 * S, m.determinant());
}

#[test]
fn matrix_submatrix() {
    let m = Matrix::new3([S, 5 * S, 0], [-3 * S, 2 * S, 7 * S], [0, 6 * S, -3 * S]);
    let expected = Matrix::new2([-3 * S, 2 * S], [0, 6 * S]);
    assert!(expected.approx_eq(&m.submatrix(0, 2)));
    let m = scaled([[0, 9, 3, 0], [9, 8, 0, 8], [1, 8, 5, 3], [0, 0, 5, 8]]);
    let expected = Matrix::new3([0, 9 * S, 3 * S], [S, 8 * S, 5 * S], [0, 0, 5 * S]);
    assert!(expected.approx_eq(&m.submatrix(1, 3)));
}

#[test]
fn matrix_minor() {
    let m = Matrix::new3([3 * S, 5 * S, 0], [2 * S, -S, -7 * S], [6 * S, -S, 5 * S]);
    assert_eq!(25 * S, m.minor(1, 0));
}

#[test]
fn matrix_cofactor() {
    let m = Matrix::new3([3 * S, 5 * S, 0], [2 * S, -S, -7 * S], [6 * S, -S, 5 * S]);
    assert_eq!(-12 * S, m.minor(0, 0));
    assert_eq!(-12 * S, m.cofactor(0, 0));
    assert_eq!(25 * S, m.minor(1, 0));
    assert_eq!(-25 * S, m.cofactor(1, 0));
}

#[test]
fn matrix_determinant_3x3() {
    let m = Matrix::new3([S, 2 * S, 6 * S], [-5 * S, 8 * S, -4 * S], [2 * S, 6 * S, 4 * S]);
    assert_eq!(56 * S, m.cofactor(0, 0));
    assert_eq!(12 * S, m.cofactor(0, 1));
    assert_eq!(-46 * S, m.cofactor(0, 2));
    assert_eq!(-196 * S, m.determinant());
}

#[test]
fn matrix_determinant_4x4() {
    let m = scaled([[-2, -8, 3, 5], [-3, 1, 7, 3], [1, 2, -9, 6], [-6, 7, 7, -9]]);
    assert_eq!(690 * S, m.cofactor(0, 0));
    assert_eq!(447 * S, m.cofactor(0, 1));
    assert_eq!(210 * S, m.cofactor(0, 2));
    assert_eq!(51 * S, m.cofactor(0, 3));
    assert_eq!(-4071 * S, m.determinant());
}

#[test]
fn matrix_is_invertible() {
    let m = scaled([[6, 4, 4, 4], [5, 5, 7, 6], [4, -9, 3, -7], [9, 1, 7, -6]]);
    assert_eq!(-2120 * S, m.determinant());
    assert!(m.is_invertible());
    let m = scaled([[-4, 2, -2, -3], [9, 6, 2, 6], [0, -5, 1, -5], [0, 0, 0, 0]]);
    assert_eq!(0, m.determinant());
    assert!(!m.is_invertible());
}

#[test]
fn matrix_inverse() {
    let m = scaled([[-5, 2, 6, -8], [1, -5, 1, 8], [7, 7, -6, -7], [1, -3, 7, 4]]);

    let result = m.inverse().unwrap();

    assert_eq!(532 * S, m.determinant());
    assert_eq!(-160 * S, m.cofactor(2, 3));
    assert_eq!(105 * S, m.cofactor(3, 2));

    let expected = m4([
        [218_050, 451_130, 240_600, -45_110],
        [-808_270, -1_456_770, -443_610, 520_680],
        [-78_950, -223_680, -52_630, 197_370],
        [-522_560, -813_910, -300_750, 306_390],
    ]);
    assert!(expected.approx_eq(&result));
}

#[test]
fn inverse_round_trip() {
    // a translation inverts exactly, and twice-inverted comes back unchanged
    let m = Matrix::translation(5 * S, -3 * S, 2 * S);
    let inv = m.inverse().unwrap();
    let back = inv.inverse().unwrap();
    assert!(m.approx_eq(&back));
    assert!(Matrix::identity().approx_eq(&m.mul_matrix(&inv)));

    // a product with a well-conditioned inverse lands within the tolerance
    let m = Matrix::scaling(2 * S, 3 * S, 4 * S);
    let inv = m.inverse().unwrap();
    assert!(Matrix::identity().approx_eq(&m.mul_matrix(&inv)));
}

#[test]
fn transform_constructors() {
    let t = Matrix::translation(5 * S, -3 * S, 2 * S);
    let p = Tuple::point(-3 * S, 4 * S, 5 * S);
    assert!(Tuple::point(2 * S, S, 7 * S).approx_eq(&t.mul_tuple(p)));

    let sc = Matrix::scaling(2 * S, 3 * S, 4 * S);
    let p = Tuple::point(-4 * S, 6 * S, 8 * S);
    assert!(Tuple::point(-8 * S, 18 * S, 32 * S).approx_eq(&sc.mul_tuple(p)));

    // a quarter turn about y: sine one, cosine zero
    let rot = Matrix::rotation_y(S, 0);
    let p = Tuple::point(0, 0, S);
    assert!(Tuple::point(S, 0, 0).approx_eq(&rot.mul_tuple(p)));

    let sh = Matrix::shearing(S, 0, 0, 0, 0, 0);
    let p = Tuple::point(2 * S, 3 * S, 4 * S);
    assert!(Tuple::point(5 * S, 3 * S, 4 * S).approx_eq(&sh.mul_tuple(p)));
}
