//! Square matrices of fixed-point scalars, sized 2, 3 or 4, stored in a
//! 4x4 grid with zero padding.  The determinant is defined by cofactor
//! expansion along the first row and the inverse by the adjugate divided by
//! the determinant; the spec functions below state both exactly, and
//! `inverse` returns `None` precisely when the determinant is zero.

use vstd::prelude::*;

verus! {

use crate::fx;
use crate::fx::{spec_add, spec_sub, spec_neg, spec_mul, spec_div, SCALE};
use crate::tuple::Tuple;

#[derive(Clone, Copy, Debug)]
pub struct Matrix {
    pub data: [[i64; 4]; 4],
    pub size: usize,
}

/// The matrix as a grid of mathematical integers, `size` rows of `size` columns.
pub open spec fn mview(m: Matrix) -> Seq<Seq<int>> {
    Seq::new(m.size as nat, |r: int| Seq::new(m.size as nat, |c: int| m.data[r][c] as int))
}

/// The grid with row `omit_row` and column `omit_col` struck out.
pub open spec fn sub_grid(g: Seq<Seq<int>>, omit_row: int, omit_col: int) -> Seq<Seq<int>> {
    Seq::new(
        (g.len() - 1) as nat,
        |r: int|
            Seq::new(
                (g.len() - 1) as nat,
                |c: int|
                    g[if r < omit_row {
                        r
                    } else {
                        r + 1
                    }][if c < omit_col {
                        c
                    } else {
                        c + 1
                    }],
            ),
    )
}

/// Determinant by cofactor expansion along row 0 (base case: the 2x2 formula).
pub open spec fn spec_det(g: Seq<Seq<int>>) -> int
    decreases g.len(), 3int, 0int,
{
    if g.len() <= 1 {
        if g.len() == 1 {
            g[0][0]
        } else {
            SCALE as int
        }
    } else if g.len() == 2 {
        spec_sub(spec_mul(g[0][0], g[1][1]), spec_mul(g[0][1], g[1][0]))
    } else {
        spec_det_sum(g, g.len() as int)
    }
}

/// The first `n` terms of the expansion `sum_c g[0][c] * cofactor(g, 0, c)`.
pub open spec fn spec_det_sum(g: Seq<Seq<int>>, n: int) -> int
    decreases g.len(), 2int, n,
{
    if n <= 0 {
        0
    } else {
        spec_add(spec_det_sum(g, n - 1), spec_mul(g[0][n - 1], spec_cof(g, 0, n - 1)))
    }
}

pub open spec fn spec_minor(g: Seq<Seq<int>>, omit_row: int, omit_col: int) -> int
    decreases g.len(), 1int, 1int,
{
    if g.len() == 0 {
        0
    } else {
        spec_det(sub_grid(g, omit_row, omit_col))
    }
}

pub open spec fn spec_cof(g: Seq<Seq<int>>, omit_row: int, omit_col: int) -> int
    decreases g.len(), 1int, 2int,
{
    if (omit_row + omit_col) % 2 == 0 {
        spec_minor(g, omit_row, omit_col)
    } else {
        spec_neg(spec_minor(g, omit_row, omit_col))
    }
}

/// The first `n` terms of the product entry `sum_k a[r][k] * b[k][c]`.
pub open spec fn spec_row_col(a: Matrix, b: Matrix, r: int, c: int, n: int) -> int
    decreases n,
{
    if n <= 0 {
        0
    } else {
        spec_add(
            spec_row_col(a, b, r, c, n - 1),
            spec_mul(a.data[r][n - 1] as int, b.data[n - 1][c] as int),
        )
    }
}

/// Entrywise closeness at the comparison tolerance, on same-size matrices.
pub open spec fn spec_matrix_approx(a: Matrix, b: Matrix) -> bool {
    &&& a.size == b.size
    &&& forall|r: int, c: int|
        0 <= r < a.size && 0 <= c < a.size ==> fx::spec_approx_eq(
            a.data[r][c] as int,
            b.data[r][c] as int,
        )
}

/// The 4x4 identity of fixed-point scalars.
pub open spec fn is_identity(m: Matrix) -> bool {
    &&& m.size == 4
    &&& forall|r: int, c: int|
        0 <= r < 4 && 0 <= c < 4 ==> m.spec_at(r, c) == if r == c {
            SCALE as int
        } else {
            0
        }
}

/// `inv` holds the adjugate-over-determinant inverse of the 4x4 matrix `m`.
pub open spec fn spec_inverse4(m: Matrix, inv: Matrix) -> bool {
    &&& m.size == 4
    &&& inv.size == 4
    &&& spec_det(mview(m)) != 0
    &&& forall|r: int, c: int|
        0 <= r < 4 && 0 <= c < 4 ==> inv.spec_at(c, r) == spec_div(
            spec_cof(mview(m), r, c),
            spec_det(mview(m)),
        )
}

/// Unfolds one determinant expansion step on a 3x3 grid.
proof fn lemma_det3_unfold(g: Seq<Seq<int>>)
    requires
        g.len() == 3,
    ensures
        spec_det(g) == spec_add(
            spec_add(
                spec_add(0, spec_mul(g[0][0], spec_cof(g, 0, 0))),
                spec_mul(g[0][1], spec_cof(g, 0, 1)),
            ),
            spec_mul(g[0][2], spec_cof(g, 0, 2)),
        ),
{
    assert(spec_det(g) == spec_det_sum(g, 3));
    assert(spec_det_sum(g, 0) == 0);
    assert(spec_det_sum(g, 1) == spec_add(0, spec_mul(g[0][0], spec_cof(g, 0, 0))));
    assert(spec_det_sum(g, 2) == spec_add(spec_det_sum(g, 1), spec_mul(g[0][1], spec_cof(g, 0, 1))));
    assert(spec_det_sum(g, 3) == spec_add(spec_det_sum(g, 2), spec_mul(g[0][2], spec_cof(g, 0, 2))));
}

/// Unfolds one determinant expansion step on a 4x4 grid.
proof fn lemma_det4_unfold(g: Seq<Seq<int>>)
    requires
        g.len() == 4,
    ensures
        spec_det(g) == spec_add(
            spec_add(
                spec_add(
                    spec_add(0, spec_mul(g[0][0], spec_cof(g, 0, 0))),
                    spec_mul(g[0][1], spec_cof(g, 0, 1)),
                ),
                spec_mul(g[0][2], spec_cof(g, 0, 2)),
            ),
            spec_mul(g[0][3], spec_cof(g, 0, 3)),
        ),
{
    assert(spec_det(g) == spec_det_sum(g, 4));
    assert(spec_det_sum(g, 0) == 0);
    assert(spec_det_sum(g, 1) == spec_add(0, spec_mul(g[0][0], spec_cof(g, 0, 0))));
    assert(spec_det_sum(g, 2) == spec_add(spec_det_sum(g, 1), spec_mul(g[0][1], spec_cof(g, 0, 1))));
    assert(spec_det_sum(g, 3) == spec_add(spec_det_sum(g, 2), spec_mul(g[0][2], spec_cof(g, 0, 2))));
    assert(spec_det_sum(g, 4) == spec_add(spec_det_sum(g, 3), spec_mul(g[0][3], spec_cof(g, 0, 3))));
}

/// A 3x3 grid with an all-zero row has determinant zero.
proof fn lemma_det3_zero_row(h: Seq<Seq<int>>, z: int)
    requires
        h.len() == 3,
        0 <= z < 3,
        forall|j: int| 0 <= j < 3 ==> h[z][j] == 0,
    ensures
        spec_det(h) == 0,
{
    lemma_det3_unfold(h);
    if z == 0 {
        fx::lemma_mul_zero(spec_cof(h, 0, 0));
        fx::lemma_mul_zero(spec_cof(h, 0, 1));
        fx::lemma_mul_zero(spec_cof(h, 0, 2));
    } else {
        assert forall|j: int| 0 <= j < 3 implies spec_cof(h, 0, j) == 0 by {
            let k = sub_grid(h, 0, j);
            assert(k.len() == 2);
            assert(spec_det(k) == spec_sub(spec_mul(k[0][0], k[1][1]), spec_mul(k[0][1], k[1][0])));
            if z == 1 {
                assert(k[0][0] == 0 && k[0][1] == 0);
                fx::lemma_mul_zero(k[1][1]);
                fx::lemma_mul_zero(k[1][0]);
            } else {
                assert(k[1][0] == 0 && k[1][1] == 0);
                fx::lemma_mul_zero(k[0][0]);
                fx::lemma_mul_zero(k[0][1]);
            }
            assert(spec_det(k) == 0);
        }
        fx::lemma_mul_zero(h[0][0] as int);
        fx::lemma_mul_zero(h[0][1] as int);
        fx::lemma_mul_zero(h[0][2] as int);
    }
}

/// The determinant of `diag(x, y, z, 1)` is the chained product `x*(y*z)`.
pub proof fn lemma_diag_det(m: Matrix, x: int, y: int, z: int)
    requires
        m.size == 4,
        i64::MIN <= x <= i64::MAX,
        i64::MIN <= y <= i64::MAX,
        i64::MIN <= z <= i64::MAX,
        forall|r: int, c: int|
            0 <= r < 4 && 0 <= c < 4 ==> m.spec_at(r, c) == if r != c {
                0
            } else {
                seq![x, y, z, SCALE as int][r]
            },
    ensures
        spec_det(mview(m)) == spec_mul(x, spec_mul(y, z)),
{
    let s = SCALE as int;
    let g = mview(m);
    assert(g.len() == 4);
    assert forall|r: int, c: int| 0 <= r < 4 && 0 <= c < 4 implies g[r][c] == (if r != c {
        0
    } else {
        seq![x, y, z, s][r]
    }) by {
        assert(g[r][c] == m.spec_at(r, c));
    }
    let h = sub_grid(g, 0, 0);
    assert(h.len() == 3);
    let k = sub_grid(h, 0, 0);
    assert(k.len() == 2);
    // the 2x2 corner: diag(z, 1)
    assert(spec_det(k) == spec_sub(spec_mul(k[0][0], k[1][1]), spec_mul(k[0][1], k[1][0])));
    fx::lemma_mul_unit(z);
    fx::lemma_mul_zero(0);
    assert(spec_det(k) == z);
    assert(spec_cof(h, 0, 0) == z);
    // the 3x3 corner: diag(y, z, 1)
    lemma_det3_unfold(h);
    fx::lemma_mul_zero(spec_cof(h, 0, 1));
    fx::lemma_mul_zero(spec_cof(h, 0, 2));
    assert(spec_det(h) == spec_mul(y, z));
    assert(spec_cof(g, 0, 0) == spec_mul(y, z));
    lemma_det4_unfold(g);
    fx::lemma_mul_zero(spec_cof(g, 0, 1));
    fx::lemma_mul_zero(spec_cof(g, 0, 2));
    fx::lemma_mul_zero(spec_cof(g, 0, 3));
    assert(spec_det(g) == spec_mul(x, spec_mul(y, z)));
}

/// Multiplying a tuple by the identity gives the tuple back unchanged.
pub proof fn lemma_identity_mul_tuple(m: Matrix, t: Tuple)
    requires
        is_identity(m),
    ensures
        m.spec_mul_tuple(t) == t,
{
    assert forall|r: int, c: int| 0 <= r < 4 && 0 <= c < 4 implies #[trigger] (
    m.data[r][c] as int) == (if r == c {
        SCALE as int
    } else {
        0
    }) by {
        assert(m.data[r][c] as int == m.spec_at(r, c));
    }
    fx::lemma_mul_unit(t.x as int);
    fx::lemma_mul_unit(t.y as int);
    fx::lemma_mul_unit(t.z as int);
    fx::lemma_mul_unit(t.w as int);
    fx::lemma_mul_zero(t.x as int);
    fx::lemma_mul_zero(t.y as int);
    fx::lemma_mul_zero(t.z as int);
    fx::lemma_mul_zero(t.w as int);
    assert(m.spec_row_tuple(0, t) == t.x as int);
    assert(m.spec_row_tuple(1, t) == t.y as int);
    assert(m.spec_row_tuple(2, t) == t.z as int);
    assert(m.spec_row_tuple(3, t) == t.w as int);
}

/// Multiplying by the identity on either side changes no entry within the
/// 4x4 grid: each product entry collapses to the original one.
pub proof fn lemma_identity_mul_matrix(m: Matrix, ident: Matrix)
    requires
        is_identity(ident),
    ensures
        forall|r: int, c: int|
            0 <= r < 4 && 0 <= c < 4 ==> #[trigger] spec_row_col(m, ident, r, c, 4) == m.spec_at(
                r,
                c,
            ),
        forall|r: int, c: int|
            0 <= r < 4 && 0 <= c < 4 ==> #[trigger] spec_row_col(ident, m, r, c, 4) == m.spec_at(
                r,
                c,
            ),
{
    assert forall|r: int, c: int| 0 <= r < 4 && 0 <= c < 4 implies #[trigger] (
    ident.data[r][c] as int) == (if r == c {
        SCALE as int
    } else {
        0
    }) by {
        assert(ident.data[r][c] as int == ident.spec_at(r, c));
    }
    assert forall|r: int, c: int| 0 <= r < 4 && 0 <= c < 4 implies #[trigger] spec_row_col(
        m,
        ident,
        r,
        c,
        4,
    ) == m.spec_at(r, c) by {
        fx::lemma_mul_unit(m.data[r][c] as int);
        fx::lemma_mul_zero(m.data[r][0] as int);
        fx::lemma_mul_zero(m.data[r][1] as int);
        fx::lemma_mul_zero(m.data[r][2] as int);
        fx::lemma_mul_zero(m.data[r][3] as int);
        assert(spec_row_col(m, ident, r, c, 0) == 0);
        assert(spec_row_col(m, ident, r, c, 1) == spec_add(
            spec_row_col(m, ident, r, c, 0),
            spec_mul(m.data[r][0] as int, ident.data[0][c] as int),
        ));
        assert(spec_row_col(m, ident, r, c, 2) == spec_add(
            spec_row_col(m, ident, r, c, 1),
            spec_mul(m.data[r][1] as int, ident.data[1][c] as int),
        ));
        assert(spec_row_col(m, ident, r, c, 3) == spec_add(
            spec_row_col(m, ident, r, c, 2),
            spec_mul(m.data[r][2] as int, ident.data[2][c] as int),
        ));
        assert(spec_row_col(m, ident, r, c, 4) == spec_add(
            spec_row_col(m, ident, r, c, 3),
            spec_mul(m.data[r][3] as int, ident.data[3][c] as int),
        ));
    }
    assert forall|r: int, c: int| 0 <= r < 4 && 0 <= c < 4 implies #[trigger] spec_row_col(
        ident,
        m,
        r,
        c,
        4,
    ) == m.spec_at(r, c) by {
        fx::lemma_mul_unit(m.data[r][c] as int);
        fx::lemma_mul_zero(m.data[0][c] as int);
        fx::lemma_mul_zero(m.data[1][c] as int);
        fx::lemma_mul_zero(m.data[2][c] as int);
        fx::lemma_mul_zero(m.data[3][c] as int);
        assert(spec_row_col(ident, m, r, c, 0) == 0);
        assert(spec_row_col(ident, m, r, c, 1) == spec_add(
            spec_row_col(ident, m, r, c, 0),
            spec_mul(ident.data[r][0] as int, m.data[0][c] as int),
        ));
        assert(spec_row_col(ident, m, r, c, 2) == spec_add(
            spec_row_col(ident, m, r, c, 1),
            spec_mul(ident.data[r][1] as int, m.data[1][c] as int),
        ));
        assert(spec_row_col(ident, m, r, c, 3) == spec_add(
            spec_row_col(ident, m, r, c, 2),
            spec_mul(ident.data[r][2] as int, m.data[2][c] as int),
        ));
        assert(spec_row_col(ident, m, r, c, 4) == spec_add(
            spec_row_col(ident, m, r, c, 3),
            spec_mul(ident.data[r][3] as int, m.data[3][c] as int),
        ));
    }
}


/// The identity with an extra last column: a translation by `(tx, ty, tz)`.
pub open spec fn translation_entry(r: int, c: int, tx: int, ty: int, tz: int) -> int {
    if r == c {
        SCALE as int
    } else if c == 3 {
        seq![tx, ty, tz][r]
    } else {
        0
    }
}

pub open spec fn is_translation(m: Matrix, tx: int, ty: int, tz: int) -> bool {
    &&& m.size == 4
    &&& forall|r: int, c: int|
        0 <= r < 4 && 0 <= c < 4 ==> m.spec_at(r, c) == translation_entry(r, c, tx, ty, tz)
}

/// On a translation every fixed-point product is exact, so its determinant is
/// one and its adjugate over the determinant is exactly the opposite
/// translation.
#[verifier::rlimit(100)]
#[verifier::spinoff_prover]
pub proof fn lemma_translation_inverse(m: Matrix, tx: int, ty: int, tz: int)
    requires
        is_translation(m, tx, ty, tz),
        i64::MIN < tx <= i64::MAX,
        i64::MIN < ty <= i64::MAX,
        i64::MIN < tz <= i64::MAX,
    ensures
        spec_det(mview(m)) == SCALE as int,
        forall|r: int, c: int|
            0 <= r < 4 && 0 <= c < 4 ==> #[trigger] spec_div(
                spec_cof(mview(m), r, c),
                spec_det(mview(m)),
            ) == translation_entry(c, r, -tx, -ty, -tz),
{
    let s = SCALE as int;
    let g = mview(m);
    assert(g.len() == 4);
    assert forall|r: int, c: int| 0 <= r < 4 && 0 <= c < 4 implies #[trigger] g[r][c]
        == translation_entry(r, c, tx, ty, tz) by {
        assert(g[r][c] == m.spec_at(r, c));
    }
    fx::lemma_mul_unit(s);
    fx::lemma_mul_unit(tx);
    fx::lemma_mul_unit(ty);
    fx::lemma_mul_unit(tz);
    fx::lemma_mul_unit(-tx);
    fx::lemma_mul_unit(-ty);
    fx::lemma_mul_unit(-tz);
    fx::lemma_mul_zero(tx);
    fx::lemma_mul_zero(ty);
    fx::lemma_mul_zero(tz);
    fx::lemma_mul_zero(s);
    fx::lemma_div_unit(s);
    fx::lemma_div_unit(tx);
    fx::lemma_div_unit(ty);
    fx::lemma_div_unit(tz);
    fx::lemma_div_unit(-tx);
    fx::lemma_div_unit(-ty);
    fx::lemma_div_unit(-tz);
    fx::lemma_div_unit(0);
    assert forall|r: int, c: int| 0 <= r < 4 && 0 <= c < 4 implies #[trigger] spec_cof(g, r, c)
        == (if r == c {
        s
    } else if r == 3 && c == 0 {
        -tx
    } else if r == 3 && c == 1 {
        -ty
    } else if r == 3 && c == 2 {
        -tz
    } else {
        0
    }) by {
        let h = sub_grid(g, r, c);
        assert(h.len() == 3);
        lemma_det3_unfold(h);
        fx::lemma_mul_zero(spec_cof(h, 0, 0));
        fx::lemma_mul_zero(spec_cof(h, 0, 1));
        fx::lemma_mul_zero(spec_cof(h, 0, 2));
        let k0 = sub_grid(h, 0, 0);
        let k1 = sub_grid(h, 0, 1);
        let k2 = sub_grid(h, 0, 2);
        assert(spec_det(k0) == spec_sub(spec_mul(k0[0][0], k0[1][1]), spec_mul(k0[0][1], k0[1][0])));
        assert(spec_det(k1) == spec_sub(spec_mul(k1[0][0], k1[1][1]), spec_mul(k1[0][1], k1[1][0])));
        assert(spec_det(k2) == spec_sub(spec_mul(k2[0][0], k2[1][1]), spec_mul(k2[0][1], k2[1][0])));
        if r == 0 && c == 0 {
            assert(h[0][0] == s && h[0][1] == 0 && h[0][2] == ty && h[1][0] == 0 && h[1][1] == s && h[1][2] == tz && h[2][0] == 0 && h[2][1] == 0 && h[2][2] == s);
            assert(spec_det(k0) == s && spec_det(k1) == 0 && spec_det(k2) == 0);
            assert(spec_mul(h[0][0], spec_cof(h, 0, 0)) == s);
            assert(spec_mul(h[0][1], spec_cof(h, 0, 1)) == 0);
            assert(spec_mul(h[0][2], spec_cof(h, 0, 2)) == 0);
            assert(spec_det(h) == s);
            assert(spec_cof(g, r, c) == s);
        }
        if r == 0 && c == 1 {
            assert(h[0][0] == 0 && h[0][1] == 0 && h[0][2] == ty && h[1][0] == 0 && h[1][1] == s && h[1][2] == tz && h[2][0] == 0 && h[2][1] == 0 && h[2][2] == s);
            assert(spec_det(k0) == s && spec_det(k1) == 0 && spec_det(k2) == 0);
            assert(spec_mul(h[0][0], spec_cof(h, 0, 0)) == 0);
            assert(spec_mul(h[0][1], spec_cof(h, 0, 1)) == 0);
            assert(spec_mul(h[0][2], spec_cof(h, 0, 2)) == 0);
            assert(spec_det(h) == 0);
            assert(spec_cof(g, r, c) == 0);
        }
        if r == 0 && c == 2 {
            assert(h[0][0] == 0 && h[0][1] == s && h[0][2] == ty && h[1][0] == 0 && h[1][1] == 0 && h[1][2] == tz && h[2][0] == 0 && h[2][1] == 0 && h[2][2] == s);
            assert(spec_det(k0) == 0 && spec_det(k1) == 0 && spec_det(k2) == 0);
            assert(spec_mul(h[0][0], spec_cof(h, 0, 0)) == 0);
            assert(spec_mul(h[0][1], spec_cof(h, 0, 1)) == 0);
            assert(spec_mul(h[0][2], spec_cof(h, 0, 2)) == 0);
            assert(spec_det(h) == 0);
            assert(spec_cof(g, r, c) == 0);
        }
        if r == 0 && c == 3 {
            assert(h[0][0] == 0 && h[0][1] == s && h[0][2] == 0 && h[1][0] == 0 && h[1][1] == 0 && h[1][2] == s && h[2][0] == 0 && h[2][1] == 0 && h[2][2] == 0);
            assert(spec_det(k0) == 0 && spec_det(k1) == 0 && spec_det(k2) == 0);
            assert(spec_mul(h[0][0], spec_cof(h, 0, 0)) == 0);
            assert(spec_mul(h[0][1], spec_cof(h, 0, 1)) == 0);
            assert(spec_mul(h[0][2], spec_cof(h, 0, 2)) == 0);
            assert(spec_det(h) == 0);
            assert(spec_cof(g, r, c) == 0);
        }
        if r == 1 && c == 0 {
            assert(h[0][0] == 0 && h[0][1] == 0 && h[0][2] == tx && h[1][0] == 0 && h[1][1] == s && h[1][2] == tz && h[2][0] == 0 && h[2][1] == 0 && h[2][2] == s);
            assert(spec_det(k0) == s && spec_det(k1) == 0 && spec_det(k2) == 0);
            assert(spec_mul(h[0][0], spec_cof(h, 0, 0)) == 0);
            assert(spec_mul(h[0][1], spec_cof(h, 0, 1)) == 0);
            assert(spec_mul(h[0][2], spec_cof(h, 0, 2)) == 0);
            assert(spec_det(h) == 0);
            assert(spec_cof(g, r, c) == 0);
        }
        if r == 1 && c == 1 {
            assert(h[0][0] == s && h[0][1] == 0 && h[0][2] == tx && h[1][0] == 0 && h[1][1] == s && h[1][2] == tz && h[2][0] == 0 && h[2][1] == 0 && h[2][2] == s);
            assert(spec_det(k0) == s && spec_det(k1) == 0 && spec_det(k2) == 0);
            assert(spec_mul(h[0][0], spec_cof(h, 0, 0)) == s);
            assert(spec_mul(h[0][1], spec_cof(h, 0, 1)) == 0);
            assert(spec_mul(h[0][2], spec_cof(h, 0, 2)) == 0);
            assert(spec_det(h) == s);
            assert(spec_cof(g, r, c) == s);
        }
        if r == 1 && c == 2 {
            assert(h[0][0] == s && h[0][1] == 0 && h[0][2] == tx && h[1][0] == 0 && h[1][1] == 0 && h[1][2] == tz && h[2][0] == 0 && h[2][1] == 0 && h[2][2] == s);
            assert(spec_det(k0) == 0 && spec_det(k1) == 0 && spec_det(k2) == 0);
            assert(spec_mul(h[0][0], spec_cof(h, 0, 0)) == 0);
            assert(spec_mul(h[0][1], spec_cof(h, 0, 1)) == 0);
            assert(spec_mul(h[0][2], spec_cof(h, 0, 2)) == 0);
            assert(spec_det(h) == 0);
            assert(spec_cof(g, r, c) == 0);
        }
        if r == 1 && c == 3 {
            assert(h[0][0] == s && h[0][1] == 0 && h[0][2] == 0 && h[1][0] == 0 && h[1][1] == 0 && h[1][2] == s && h[2][0] == 0 && h[2][1] == 0 && h[2][2] == 0);
            assert(spec_det(k0) == 0 && spec_det(k1) == 0 && spec_det(k2) == 0);
            assert(spec_mul(h[0][0], spec_cof(h, 0, 0)) == 0);
            assert(spec_mul(h[0][1], spec_cof(h, 0, 1)) == 0);
            assert(spec_mul(h[0][2], spec_cof(h, 0, 2)) == 0);
            assert(spec_det(h) == 0);
            assert(spec_cof(g, r, c) == 0);
        }
        if r == 2 && c == 0 {
            assert(h[0][0] == 0 && h[0][1] == 0 && h[0][2] == tx && h[1][0] == s && h[1][1] == 0 && h[1][2] == ty && h[2][0] == 0 && h[2][1] == 0 && h[2][2] == s);
            assert(spec_det(k0) == 0 && spec_det(k1) == s && spec_det(k2) == 0);
            assert(spec_mul(h[0][0], spec_cof(h, 0, 0)) == 0);
            assert(spec_mul(h[0][1], spec_cof(h, 0, 1)) == 0);
            assert(spec_mul(h[0][2], spec_cof(h, 0, 2)) == 0);
            assert(spec_det(h) == 0);
            assert(spec_cof(g, r, c) == 0);
        }
        if r == 2 && c == 1 {
            assert(h[0][0] == s && h[0][1] == 0 && h[0][2] == tx && h[1][0] == 0 && h[1][1] == 0 && h[1][2] == ty && h[2][0] == 0 && h[2][1] == 0 && h[2][2] == s);
            assert(spec_det(k0) == 0 && spec_det(k1) == 0 && spec_det(k2) == 0);
            assert(spec_mul(h[0][0], spec_cof(h, 0, 0)) == 0);
            assert(spec_mul(h[0][1], spec_cof(h, 0, 1)) == 0);
            assert(spec_mul(h[0][2], spec_cof(h, 0, 2)) == 0);
            assert(spec_det(h) == 0);
            assert(spec_cof(g, r, c) == 0);
        }
        if r == 2 && c == 2 {
            assert(h[0][0] == s && h[0][1] == 0 && h[0][2] == tx && h[1][0] == 0 && h[1][1] == s && h[1][2] == ty && h[2][0] == 0 && h[2][1] == 0 && h[2][2] == s);
            assert(spec_det(k0) == s && spec_det(k1) == 0 && spec_det(k2) == 0);
            assert(spec_mul(h[0][0], spec_cof(h, 0, 0)) == s);
            assert(spec_mul(h[0][1], spec_cof(h, 0, 1)) == 0);
            assert(spec_mul(h[0][2], spec_cof(h, 0, 2)) == 0);
            assert(spec_det(h) == s);
            assert(spec_cof(g, r, c) == s);
        }
        if r == 2 && c == 3 {
            assert(h[0][0] == s && h[0][1] == 0 && h[0][2] == 0 && h[1][0] == 0 && h[1][1] == s && h[1][2] == 0 && h[2][0] == 0 && h[2][1] == 0 && h[2][2] == 0);
            assert(spec_det(k0) == 0 && spec_det(k1) == 0 && spec_det(k2) == 0);
            assert(spec_mul(h[0][0], spec_cof(h, 0, 0)) == 0);
            assert(spec_mul(h[0][1], spec_cof(h, 0, 1)) == 0);
            assert(spec_mul(h[0][2], spec_cof(h, 0, 2)) == 0);
            assert(spec_det(h) == 0);
            assert(spec_cof(g, r, c) == 0);
        }
        if r == 3 && c == 0 {
            assert(h[0][0] == 0 && h[0][1] == 0 && h[0][2] == tx && h[1][0] == s && h[1][1] == 0 && h[1][2] == ty && h[2][0] == 0 && h[2][1] == s && h[2][2] == tz);
            assert(spec_det(k0) == -ty && spec_det(k1) == tz && spec_det(k2) == s);
            assert(spec_mul(h[0][0], spec_cof(h, 0, 0)) == 0);
            assert(spec_mul(h[0][1], spec_cof(h, 0, 1)) == 0);
            assert(spec_mul(h[0][2], spec_cof(h, 0, 2)) == tx);
            assert(spec_det(h) == tx);
            assert(spec_cof(g, r, c) == -tx);
        }
        if r == 3 && c == 1 {
            assert(h[0][0] == s && h[0][1] == 0 && h[0][2] == tx && h[1][0] == 0 && h[1][1] == 0 && h[1][2] == ty && h[2][0] == 0 && h[2][1] == s && h[2][2] == tz);
            assert(spec_det(k0) == -ty && spec_det(k1) == 0 && spec_det(k2) == 0);
            assert(spec_mul(h[0][0], spec_cof(h, 0, 0)) == -ty);
            assert(spec_mul(h[0][1], spec_cof(h, 0, 1)) == 0);
            assert(spec_mul(h[0][2], spec_cof(h, 0, 2)) == 0);
            assert(spec_det(h) == -ty);
            assert(spec_cof(g, r, c) == -ty);
        }
        if r == 3 && c == 2 {
            assert(h[0][0] == s && h[0][1] == 0 && h[0][2] == tx && h[1][0] == 0 && h[1][1] == s && h[1][2] == ty && h[2][0] == 0 && h[2][1] == 0 && h[2][2] == tz);
            assert(spec_det(k0) == tz && spec_det(k1) == 0 && spec_det(k2) == 0);
            assert(spec_mul(h[0][0], spec_cof(h, 0, 0)) == tz);
            assert(spec_mul(h[0][1], spec_cof(h, 0, 1)) == 0);
            assert(spec_mul(h[0][2], spec_cof(h, 0, 2)) == 0);
            assert(spec_det(h) == tz);
            assert(spec_cof(g, r, c) == -tz);
        }
        if r == 3 && c == 3 {
            assert(h[0][0] == s && h[0][1] == 0 && h[0][2] == 0 && h[1][0] == 0 && h[1][1] == s && h[1][2] == 0 && h[2][0] == 0 && h[2][1] == 0 && h[2][2] == s);
            assert(spec_det(k0) == s && spec_det(k1) == 0 && spec_det(k2) == 0);
            assert(spec_mul(h[0][0], spec_cof(h, 0, 0)) == s);
            assert(spec_mul(h[0][1], spec_cof(h, 0, 1)) == 0);
            assert(spec_mul(h[0][2], spec_cof(h, 0, 2)) == 0);
            assert(spec_det(h) == s);
            assert(spec_cof(g, r, c) == s);
        }
    }
    lemma_det4_unfold(g);
    fx::lemma_mul_zero(spec_cof(g, 0, 1));
    fx::lemma_mul_zero(spec_cof(g, 0, 2));
    fx::lemma_mul_zero(spec_cof(g, 0, 3));
    assert(spec_mul(g[0][3], spec_cof(g, 0, 3)) == 0);
    assert(spec_det(g) == s);
}

/// Inverting a translation twice gives back the original matrix exactly,
/// entry for entry: the double-inversion round trip, on the matrices whose
/// fixed-point inverse is exact.
pub proof fn lemma_translation_inverse_round_trip(
    m: Matrix,
    m2: Matrix,
    m3: Matrix,
    tx: int,
    ty: int,
    tz: int,
)
    requires
        is_translation(m, tx, ty, tz),
        i64::MIN < tx <= i64::MAX,
        i64::MIN < ty <= i64::MAX,
        i64::MIN < tz <= i64::MAX,
        spec_inverse4(m, m2),
        spec_inverse4(m2, m3),
    ensures
        is_translation(m2, -tx, -ty, -tz),
        m3.size == m.size,
        forall|r: int, c: int|
            0 <= r < 4 && 0 <= c < 4 ==> #[trigger] m3.spec_at(r, c) == m.spec_at(r, c),
{
    lemma_translation_inverse(m, tx, ty, tz);
    assert forall|r: int, c: int| 0 <= r < 4 && 0 <= c < 4 implies #[trigger] m2.spec_at(r, c)
        == translation_entry(r, c, -tx, -ty, -tz) by {
        assert(m2.spec_at(r, c) == spec_div(spec_cof(mview(m), c, r), spec_det(mview(m))));
    }
    lemma_translation_inverse(m2, -tx, -ty, -tz);
    assert forall|r: int, c: int| 0 <= r < 4 && 0 <= c < 4 implies #[trigger] m3.spec_at(r, c)
        == m.spec_at(r, c) by {
        assert(m3.spec_at(r, c) == spec_div(spec_cof(mview(m2), c, r), spec_det(mview(m2))));
        assert(m3.spec_at(r, c) == translation_entry(r, c, tx, ty, tz));
    }
}

/// A translation times its inverse is exactly the identity: the
/// matrix-times-inverse law, on the matrices whose fixed-point inverse is
/// exact.
#[verifier::rlimit(100)]
#[verifier::spinoff_prover]
pub proof fn lemma_translation_mul_inverse(m: Matrix, m2: Matrix, tx: int, ty: int, tz: int)
    requires
        is_translation(m, tx, ty, tz),
        i64::MIN < tx <= i64::MAX,
        i64::MIN < ty <= i64::MAX,
        i64::MIN < tz <= i64::MAX,
        spec_inverse4(m, m2),
    ensures
        forall|r: int, c: int|
            0 <= r < 4 && 0 <= c < 4 ==> #[trigger] spec_row_col(m, m2, r, c, 4) == if r == c {
                SCALE as int
            } else {
                0
            },
{
    let s = SCALE as int;
    lemma_translation_inverse(m, tx, ty, tz);
    assert forall|r: int, c: int| 0 <= r < 4 && 0 <= c < 4 implies #[trigger] (
    m.data[r][c] as int) == translation_entry(r, c, tx, ty, tz) by {
        assert(m.data[r][c] as int == m.spec_at(r, c));
    }
    assert forall|r: int, c: int| 0 <= r < 4 && 0 <= c < 4 implies #[trigger] (
    m2.data[r][c] as int) == translation_entry(r, c, -tx, -ty, -tz) by {
        assert(m2.data[r][c] as int == m2.spec_at(r, c));
        assert(m2.spec_at(r, c) == spec_div(spec_cof(mview(m), c, r), spec_det(mview(m))));
    }
    fx::lemma_mul_unit(s);
    fx::lemma_mul_unit(tx);
    fx::lemma_mul_unit(ty);
    fx::lemma_mul_unit(tz);
    fx::lemma_mul_unit(-tx);
    fx::lemma_mul_unit(-ty);
    fx::lemma_mul_unit(-tz);
    fx::lemma_mul_zero(tx);
    fx::lemma_mul_zero(ty);
    fx::lemma_mul_zero(tz);
    fx::lemma_mul_zero(s);
    fx::lemma_mul_zero(-tx);
    fx::lemma_mul_zero(-ty);
    fx::lemma_mul_zero(-tz);
    assert forall|r: int, c: int| 0 <= r < 4 && 0 <= c < 4 implies #[trigger] spec_row_col(
        m,
        m2,
        r,
        c,
        4,
    ) == (if r == c {
        s
    } else {
        0
    }) by {
        assert(spec_row_col(m, m2, r, c, 0) == 0);
        assert(spec_row_col(m, m2, r, c, 1) == spec_add(
            spec_row_col(m, m2, r, c, 0),
            spec_mul(m.data[r][0] as int, m2.data[0][c] as int),
        ));
        assert(spec_row_col(m, m2, r, c, 2) == spec_add(
            spec_row_col(m, m2, r, c, 1),
            spec_mul(m.data[r][1] as int, m2.data[1][c] as int),
        ));
        assert(spec_row_col(m, m2, r, c, 3) == spec_add(
            spec_row_col(m, m2, r, c, 2),
            spec_mul(m.data[r][2] as int, m2.data[2][c] as int),
        ));
        assert(spec_row_col(m, m2, r, c, 4) == spec_add(
            spec_row_col(m, m2, r, c, 3),
            spec_mul(m.data[r][3] as int, m2.data[3][c] as int),
        ));
        if r == 0 && c == 0 {
            assert(spec_mul(m.data[r][0] as int, m2.data[0][c] as int) == s);
            assert(spec_mul(m.data[r][1] as int, m2.data[1][c] as int) == 0);
            assert(spec_mul(m.data[r][2] as int, m2.data[2][c] as int) == 0);
            assert(spec_mul(m.data[r][3] as int, m2.data[3][c] as int) == 0);
            assert(spec_row_col(m, m2, r, c, 4) == s);
        }
        if r == 0 && c == 1 {
            assert(spec_mul(m.data[r][0] as int, m2.data[0][c] as int) == 0);
            assert(spec_mul(m.data[r][1] as int, m2.data[1][c] as int) == 0);
            assert(spec_mul(m.data[r][2] as int, m2.data[2][c] as int) == 0);
            assert(spec_mul(m.data[r][3] as int, m2.data[3][c] as int) == 0);
            assert(spec_row_col(m, m2, r, c, 4) == 0);
        }
        if r == 0 && c == 2 {
            assert(spec_mul(m.data[r][0] as int, m2.data[0][c] as int) == 0);
            assert(spec_mul(m.data[r][1] as int, m2.data[1][c] as int) == 0);
            assert(spec_mul(m.data[r][2] as int, m2.data[2][c] as int) == 0);
            assert(spec_mul(m.data[r][3] as int, m2.data[3][c] as int) == 0);
            assert(spec_row_col(m, m2, r, c, 4) == 0);
        }
        if r == 0 && c == 3 {
            assert(spec_mul(m.data[r][0] as int, m2.data[0][c] as int) == -tx);
            assert(spec_mul(m.data[r][1] as int, m2.data[1][c] as int) == 0);
            assert(spec_mul(m.data[r][2] as int, m2.data[2][c] as int) == 0);
            assert(spec_mul(m.data[r][3] as int, m2.data[3][c] as int) == tx);
            assert(spec_row_col(m, m2, r, c, 4) == 0);
        }
        if r == 1 && c == 0 {
            assert(spec_mul(m.data[r][0] as int, m2.data[0][c] as int) == 0);
            assert(spec_mul(m.data[r][1] as int, m2.data[1][c] as int) == 0);
            assert(spec_mul(m.data[r][2] as int, m2.data[2][c] as int) == 0);
            assert(spec_mul(m.data[r][3] as int, m2.data[3][c] as int) == 0);
            assert(spec_row_col(m, m2, r, c, 4) == 0);
        }
        if r == 1 && c == 1 {
            assert(spec_mul(m.data[r][0] as int, m2.data[0][c] as int) == 0);
            assert(spec_mul(m.data[r][1] as int, m2.data[1][c] as int) == s);
            assert(spec_mul(m.data[r][2] as int, m2.data[2][c] as int) == 0);
            assert(spec_mul(m.data[r][3] as int, m2.data[3][c] as int) == 0);
            assert(spec_row_col(m, m2, r, c, 4) == s);
        }
        if r == 1 && c == 2 {
            assert(spec_mul(m.data[r][0] as int, m2.data[0][c] as int) == 0);
            assert(spec_mul(m.data[r][1] as int, m2.data[1][c] as int) == 0);
            assert(spec_mul(m.data[r][2] as int, m2.data[2][c] as int) == 0);
            assert(spec_mul(m.data[r][3] as int, m2.data[3][c] as int) == 0);
            assert(spec_row_col(m, m2, r, c, 4) == 0);
        }
        if r == 1 && c == 3 {
            assert(spec_mul(m.data[r][0] as int, m2.data[0][c] as int) == 0);
            assert(spec_mul(m.data[r][1] as int, m2.data[1][c] as int) == -ty);
            assert(spec_mul(m.data[r][2] as int, m2.data[2][c] as int) == 0);
            assert(spec_mul(m.data[r][3] as int, m2.data[3][c] as int) == ty);
            assert(spec_row_col(m, m2, r, c, 4) == 0);
        }
        if r == 2 && c == 0 {
            assert(spec_mul(m.data[r][0] as int, m2.data[0][c] as int) == 0);
            assert(spec_mul(m.data[r][1] as int, m2.data[1][c] as int) == 0);
            assert(spec_mul(m.data[r][2] as int, m2.data[2][c] as int) == 0);
            assert(spec_mul(m.data[r][3] as int, m2.data[3][c] as int) == 0);
            assert(spec_row_col(m, m2, r, c, 4) == 0);
        }
        if r == 2 && c == 1 {
            assert(spec_mul(m.data[r][0] as int, m2.data[0][c] as int) == 0);
            assert(spec_mul(m.data[r][1] as int, m2.data[1][c] as int) == 0);
            assert(spec_mul(m.data[r][2] as int, m2.data[2][c] as int) == 0);
            assert(spec_mul(m.data[r][3] as int, m2.data[3][c] as int) == 0);
            assert(spec_row_col(m, m2, r, c, 4) == 0);
        }
        if r == 2 && c == 2 {
            assert(spec_mul(m.data[r][0] as int, m2.data[0][c] as int) == 0);
            assert(spec_mul(m.data[r][1] as int, m2.data[1][c] as int) == 0);
            assert(spec_mul(m.data[r][2] as int, m2.data[2][c] as int) == s);
            assert(spec_mul(m.data[r][3] as int, m2.data[3][c] as int) == 0);
            assert(spec_row_col(m, m2, r, c, 4) == s);
        }
        if r == 2 && c == 3 {
            assert(spec_mul(m.data[r][0] as int, m2.data[0][c] as int) == 0);
            assert(spec_mul(m.data[r][1] as int, m2.data[1][c] as int) == 0);
            assert(spec_mul(m.data[r][2] as int, m2.data[2][c] as int) == -tz);
            assert(spec_mul(m.data[r][3] as int, m2.data[3][c] as int) == tz);
            assert(spec_row_col(m, m2, r, c, 4) == 0);
        }
        if r == 3 && c == 0 {
            assert(spec_mul(m.data[r][0] as int, m2.data[0][c] as int) == 0);
            assert(spec_mul(m.data[r][1] as int, m2.data[1][c] as int) == 0);
            assert(spec_mul(m.data[r][2] as int, m2.data[2][c] as int) == 0);
            assert(spec_mul(m.data[r][3] as int, m2.data[3][c] as int) == 0);
            assert(spec_row_col(m, m2, r, c, 4) == 0);
        }
        if r == 3 && c == 1 {
            assert(spec_mul(m.data[r][0] as int, m2.data[0][c] as int) == 0);
            assert(spec_mul(m.data[r][1] as int, m2.data[1][c] as int) == 0);
            assert(spec_mul(m.data[r][2] as int, m2.data[2][c] as int) == 0);
            assert(spec_mul(m.data[r][3] as int, m2.data[3][c] as int) == 0);
            assert(spec_row_col(m, m2, r, c, 4) == 0);
        }
        if r == 3 && c == 2 {
            assert(spec_mul(m.data[r][0] as int, m2.data[0][c] as int) == 0);
            assert(spec_mul(m.data[r][1] as int, m2.data[1][c] as int) == 0);
            assert(spec_mul(m.data[r][2] as int, m2.data[2][c] as int) == 0);
            assert(spec_mul(m.data[r][3] as int, m2.data[3][c] as int) == 0);
            assert(spec_row_col(m, m2, r, c, 4) == 0);
        }
        if r == 3 && c == 3 {
            assert(spec_mul(m.data[r][0] as int, m2.data[0][c] as int) == 0);
            assert(spec_mul(m.data[r][1] as int, m2.data[1][c] as int) == 0);
            assert(spec_mul(m.data[r][2] as int, m2.data[2][c] as int) == 0);
            assert(spec_mul(m.data[r][3] as int, m2.data[3][c] as int) == s);
            assert(spec_row_col(m, m2, r, c, 4) == s);
        }
    }
}

/// The identity matrix has determinant one and is its own inverse.
pub proof fn lemma_identity_inverse(m: Matrix)
    requires
        m.size == 4,
        forall|r: int, c: int|
            0 <= r < 4 && 0 <= c < 4 ==> m.spec_at(r, c) == if r == c {
                SCALE as int
            } else {
                0
            },
    ensures
        spec_det(mview(m)) == SCALE as int,
        spec_inverse4(m, m),
{
    let s = SCALE as int;
    let g = mview(m);
    assert(g.len() == 4);
    assert forall|r: int, c: int| 0 <= r < 4 && 0 <= c < 4 implies g[r][c] == (if r == c {
        s
    } else {
        0
    }) by {
        assert(g[r][c] == m.spec_at(r, c));
    }
    fx::lemma_mul_unit(s);
    assert forall|r: int, c: int| 0 <= r < 4 && 0 <= c < 4 implies spec_cof(g, r, c) == (if r == c {
        s
    } else {
        0
    }) by {
        let h = sub_grid(g, r, c);
        assert(h.len() == 3);
        if r == c {
            assert(forall|i: int, j: int|
                0 <= i < 3 && 0 <= j < 3 ==> h[i][j] == if i == j {
                    s
                } else {
                    0
                });
            lemma_det3_unfold(h);
            let k = sub_grid(h, 0, 0);
            fx::lemma_mul_zero(k[0][1] as int);
            fx::lemma_mul_zero(k[1][0] as int);
            assert(spec_det(k) == spec_sub(spec_mul(k[0][0], k[1][1]), spec_mul(k[0][1], k[1][0])));
            assert(spec_det(k) == s);
            assert(spec_cof(h, 0, 0) == s);
            fx::lemma_mul_zero(spec_cof(h, 0, 1));
            fx::lemma_mul_zero(spec_cof(h, 0, 2));
            assert(spec_det(h) == s);
        } else {
            // the row of the identity whose unit sat in the struck-out column
            // survives with nothing left in it
            let z = if c < r {
                c
            } else {
                c - 1
            };
            assert forall|j: int| 0 <= j < 3 implies h[z][j] == 0 by {}
            lemma_det3_zero_row(h, z);
        }
    }
    lemma_det4_unfold(g);
    fx::lemma_mul_zero(spec_cof(g, 0, 1));
    fx::lemma_mul_zero(spec_cof(g, 0, 2));
    fx::lemma_mul_zero(spec_cof(g, 0, 3));
    assert(spec_det(g) == s);
    fx::lemma_div_unit(s);
    assert(spec_div(s, s) == s);
    assert forall|r: int, c: int|
        0 <= r < 4 && 0 <= c < 4 implies m.spec_at(c, r) == spec_div(
        spec_cof(g, r, c),
        spec_det(g),
    ) by {
        if r != c {
            assert(spec_cof(g, r, c) == 0);
            assert(spec_div(0, s) == 0);
        }
    }
}

impl Matrix {
    pub open spec fn wf(self) -> bool {
        2 <= self.size <= 4
    }

    pub open spec fn spec_size(self) -> int {
        self.size as int
    }

    pub open spec fn spec_at(self, r: int, c: int) -> int {
        self.data[r][c] as int
    }

    pub fn size(&self) -> (n: usize)
        ensures
            n as int == self.spec_size(),
    {
        self.size
    }

    pub fn at(&self, r: usize, c: usize) -> (v: i64)
        requires
            r < 4,
            c < 4,
        ensures
            v as int == self.spec_at(r as int, c as int),
    {
        self.data[r][c]
    }

    pub fn empty(size: usize) -> (m: Matrix)
        requires
            2 <= size <= 4,
        ensures
            m.size == size,
            forall|r: int, c: int| 0 <= r < 4 && 0 <= c < 4 ==> m.spec_at(r, c) == 0,
            m.wf(),
    {
        Matrix { data: [[0i64; 4]; 4], size }
    }

    pub fn new(r0: [i64; 4], r1: [i64; 4], r2: [i64; 4], r3: [i64; 4]) -> (m: Matrix)
        ensures
            m.size == 4,
            m.wf(),
            forall|c: int| 0 <= c < 4 ==> m.spec_at(0, c) == r0[c],
            forall|c: int| 0 <= c < 4 ==> m.spec_at(1, c) == r1[c],
            forall|c: int| 0 <= c < 4 ==> m.spec_at(2, c) == r2[c],
            forall|c: int| 0 <= c < 4 ==> m.spec_at(3, c) == r3[c],
    {
        Matrix { data: [r0, r1, r2, r3], size: 4 }
    }

    pub fn new3(r0: [i64; 3], r1: [i64; 3], r2: [i64; 3]) -> (m: Matrix)
        ensures
            m.size == 3,
            m.wf(),
            forall|c: int| 0 <= c < 3 ==> m.spec_at(0, c) == r0[c],
            forall|c: int| 0 <= c < 3 ==> m.spec_at(1, c) == r1[c],
            forall|c: int| 0 <= c < 3 ==> m.spec_at(2, c) == r2[c],
    {
        Matrix {
            data: [
                [r0[0], r0[1], r0[2], 0],
                [r1[0], r1[1], r1[2], 0],
                [r2[0], r2[1], r2[2], 0],
                [0i64; 4],
            ],
            size: 3,
        }
    }

    pub fn new2(r0: [i64; 2], r1: [i64; 2]) -> (m: Matrix)
        ensures
            m.size == 2,
            m.wf(),
            forall|c: int| 0 <= c < 2 ==> m.spec_at(0, c) == r0[c],
            forall|c: int| 0 <= c < 2 ==> m.spec_at(1, c) == r1[c],
    {
        Matrix { data: [[r0[0], r0[1], 0, 0], [r1[0], r1[1], 0, 0], [0i64; 4], [0i64; 4]], size: 2 }
    }

    pub fn identity() -> (m: Matrix)
        ensures
            m.size == 4,
            m.wf(),
            forall|r: int, c: int|
                0 <= r < 4 && 0 <= c < 4 ==> m.spec_at(r, c) == if r == c {
                    SCALE as int
                } else {
                    0
                },
    {
        Matrix {
            data: [
                [SCALE, 0, 0, 0],
                [0, SCALE, 0, 0],
                [0, 0, SCALE, 0],
                [0, 0, 0, SCALE],
            ],
            size: 4,
        }
    }

    pub fn transpose(&self) -> (m: Matrix)
        ensures
            m.size == self.size,
            forall|r: int, c: int|
                0 <= r < 4 && 0 <= c < 4 ==> m.spec_at(r, c) == self.spec_at(c, r),
            forall|r: int, c: int|
                0 <= r < 4 && 0 <= c < 4 ==> #[trigger] m.data[r][c] == self.data[c][r],
    {
        let d = &self.data;
        Matrix {
            data: [
                [d[0][0], d[1][0], d[2][0], d[3][0]],
                [d[0][1], d[1][1], d[2][1], d[3][1]],
                [d[0][2], d[1][2], d[2][2], d[3][2]],
                [d[0][3], d[1][3], d[2][3], d[3][3]],
            ],
            size: self.size,
        }
    }

    fn sub_at(&self, omit_row: usize, omit_col: usize, r: usize, c: usize) -> (v: i64)
        requires
            self.wf(),
            omit_row < self.size,
            omit_col < self.size,
            r < 4,
            c < 4,
        ensures
            r < self.size - 1 && c < self.size - 1 ==> v as int == sub_grid(
                mview(*self),
                omit_row as int,
                omit_col as int,
            )[r as int][c as int],
            !(r < self.size - 1 && c < self.size - 1) ==> v == 0i64,
    {
        if r < self.size - 1 && c < self.size - 1 {
            let sr = if r < omit_row {
                r
            } else {
                r + 1
            };
            let sc = if c < omit_col {
                c
            } else {
                c + 1
            };
            self.data[sr][sc]
        } else {
            0
        }
    }

    pub fn submatrix(&self, omit_row: usize, omit_col: usize) -> (m: Matrix)
        requires
            self.wf(),
            self.size > 2,
            omit_row < self.size,
            omit_col < self.size,
        ensures
            m.wf(),
            m.size == self.size - 1,
            mview(m) == sub_grid(mview(*self), omit_row as int, omit_col as int),
    {
        let m = Matrix {
            data: [
                [
                    self.sub_at(omit_row, omit_col, 0, 0),
                    self.sub_at(omit_row, omit_col, 0, 1),
                    self.sub_at(omit_row, omit_col, 0, 2),
                    self.sub_at(omit_row, omit_col, 0, 3),
                ],
                [
                    self.sub_at(omit_row, omit_col, 1, 0),
                    self.sub_at(omit_row, omit_col, 1, 1),
                    self.sub_at(omit_row, omit_col, 1, 2),
                    self.sub_at(omit_row, omit_col, 1, 3),
                ],
                [
                    self.sub_at(omit_row, omit_col, 2, 0),
                    self.sub_at(omit_row, omit_col, 2, 1),
                    self.sub_at(omit_row, omit_col, 2, 2),
                    self.sub_at(omit_row, omit_col, 2, 3),
                ],
                [
                    self.sub_at(omit_row, omit_col, 3, 0),
                    self.sub_at(omit_row, omit_col, 3, 1),
                    self.sub_at(omit_row, omit_col, 3, 2),
                    self.sub_at(omit_row, omit_col, 3, 3),
                ],
            ],
            size: self.size - 1,
        };
        proof {
            assert(mview(m) =~~= sub_grid(mview(*self), omit_row as int, omit_col as int));
        }
        m
    }

    pub fn determinant(&self) -> (r: i64)
        requires
            self.wf(),
        ensures
            r as int == spec_det(mview(*self)),
        decreases self.size, 2int,
    {
        if self.size == 2 {
            fx::fx_sub(
                fx::fx_mul(self.data[0][0], self.data[1][1]),
                fx::fx_mul(self.data[0][1], self.data[1][0]),
            )
        } else {
            let ghost g = mview(*self);
            let mut acc: i64 = 0;
            let mut c: usize = 0;
            while c < self.size
                invariant
                    self.wf(),
                    self.size > 2,
                    c <= self.size,
                    g == mview(*self),
                    acc as int == spec_det_sum(g, c as int),
                decreases self.size - c,
            {
                let cof = self.cofactor(0, c);
                acc = fx::fx_add(acc, fx::fx_mul(self.data[0][c], cof));
                c = c + 1;
            }
            acc
        }
    }

    pub fn minor(&self, omit_row: usize, omit_col: usize) -> (r: i64)
        requires
            self.wf(),
            self.size > 2,
            omit_row < self.size,
            omit_col < self.size,
        ensures
            r as int == spec_minor(mview(*self), omit_row as int, omit_col as int),
        decreases self.size, 0int,
    {
        self.submatrix(omit_row, omit_col).determinant()
    }

    pub fn cofactor(&self, omit_row: usize, omit_col: usize) -> (r: i64)
        requires
            self.wf(),
            self.size > 2,
            omit_row < self.size,
            omit_col < self.size,
        ensures
            r as int == spec_cof(mview(*self), omit_row as int, omit_col as int),
        decreases self.size, 1int,
    {
        let minor = self.minor(omit_row, omit_col);
        if (omit_row + omit_col) % 2 == 0 {
            minor
        } else {
            fx::fx_neg(minor)
        }
    }

    pub fn is_invertible(&self) -> (r: bool)
        requires
            self.wf(),
        ensures
            r == (spec_det(mview(*self)) != 0),
    {
        self.determinant() != 0
    }

    /// `None` exactly when the determinant is zero; otherwise the adjugate
    /// divided by the determinant: entry `(c, r)` of the result is
    /// `cofactor(r, c) / det`.
    pub fn inverse(&self) -> (result: Option<Matrix>)
        requires
            self.wf(),
            self.size > 2,
        ensures
            result is None <==> spec_det(mview(*self)) == 0,
            result is Some ==> {
                let m = result->0;
                &&& m.wf()
                &&& m.size == self.size
                &&& forall|r: int, c: int|
                    0 <= r < self.size && 0 <= c < self.size ==> m.spec_at(c, r) == spec_div(
                        spec_cof(mview(*self), r, c),
                        spec_det(mview(*self)),
                    )
            },
    {
        let det = self.determinant();
        if det == 0 {
            None
        } else {
            let mut m = Matrix::empty(self.size);
            let mut r: usize = 0;
            while r < self.size
                invariant
                    self.wf(),
                    self.size > 2,
                    r <= self.size,
                    det as int == spec_det(mview(*self)),
                    m.size == self.size,
                    forall|i: int, j: int|
                        0 <= i < r && 0 <= j < self.size ==> m.spec_at(j, i) == spec_div(
                            spec_cof(mview(*self), i, j),
                            spec_det(mview(*self)),
                        ),
                decreases self.size - r,
            {
                let mut c: usize = 0;
                while c < self.size
                    invariant
                        self.wf(),
                        self.size > 2,
                        r < self.size,
                        c <= self.size,
                        det as int == spec_det(mview(*self)),
                        m.size == self.size,
                        forall|i: int, j: int|
                            0 <= i < r && 0 <= j < self.size ==> m.spec_at(j, i) == spec_div(
                                spec_cof(mview(*self), i, j),
                                spec_det(mview(*self)),
                            ),
                        forall|j: int|
                            0 <= j < c ==> m.spec_at(j, r as int) == spec_div(
                                spec_cof(mview(*self), r as int, j),
                                spec_det(mview(*self)),
                            ),
                    decreases self.size - c,
                {
                    let v = fx::fx_div(self.cofactor(r, c), det);
                    m = m.with_entry(c, r, v);
                    c = c + 1;
                }
                r = r + 1;
            }
            Some(m)
        }
    }

    /// The same matrix with one entry replaced.
    fn with_entry(self, r: usize, c: usize, v: i64) -> (m: Matrix)
        requires
            r < 4,
            c < 4,
        ensures
            m.size == self.size,
            m.spec_at(r as int, c as int) == v as int,
            forall|i: int, j: int|
                0 <= i < 4 && 0 <= j < 4 && !(i == r && j == c) ==> m.spec_at(i, j)
                    == self.spec_at(i, j),
    {
        let mut data = self.data;
        let mut row = data[r];
        row[c] = v;
        data[r] = row;
        Matrix { data, size: self.size }
    }

    fn row_col(&self, other: &Matrix, r: usize, c: usize) -> (v: i64)
        requires
            r < 4,
            c < 4,
        ensures
            v as int == spec_row_col(*self, *other, r as int, c as int, 4),
    {
        let mut acc: i64 = 0;
        let mut k: usize = 0;
        while k < 4
            invariant
                r < 4,
                c < 4,
                k <= 4,
                acc as int == spec_row_col(*self, *other, r as int, c as int, k as int),
            decreases 4 - k,
        {
            acc = fx::fx_add(acc, fx::fx_mul(self.data[r][k], other.data[k][c]));
            k = k + 1;
        }
        acc
    }

    /// The matrix product over the full 4x4 grid (the padding is zero, so the
    /// extra terms of a smaller matrix contribute nothing).
    pub fn mul_matrix(&self, other: &Matrix) -> (m: Matrix)
        ensures
            m.size == self.size,
            forall|r: int, c: int|
                0 <= r < 4 && 0 <= c < 4 ==> m.spec_at(r, c) == spec_row_col(
                    *self,
                    *other,
                    r,
                    c,
                    4,
                ),
    {
        Matrix {
            data: [
                [
                    self.row_col(other, 0, 0),
                    self.row_col(other, 0, 1),
                    self.row_col(other, 0, 2),
                    self.row_col(other, 0, 3),
                ],
                [
                    self.row_col(other, 1, 0),
                    self.row_col(other, 1, 1),
                    self.row_col(other, 1, 2),
                    self.row_col(other, 1, 3),
                ],
                [
                    self.row_col(other, 2, 0),
                    self.row_col(other, 2, 1),
                    self.row_col(other, 2, 2),
                    self.row_col(other, 2, 3),
                ],
                [
                    self.row_col(other, 3, 0),
                    self.row_col(other, 3, 1),
                    self.row_col(other, 3, 2),
                    self.row_col(other, 3, 3),
                ],
            ],
            size: self.size,
        }
    }

    /// One row of the matrix dotted with a tuple, left to right:
    /// `((m[r][0]*x + m[r][1]*y) + m[r][2]*z) + m[r][3]*w`.
    pub open spec fn spec_row_tuple(self, r: int, t: Tuple) -> int {
        spec_add(
            spec_add(
                spec_add(
                    spec_mul(self.data[r][0] as int, t.x as int),
                    spec_mul(self.data[r][1] as int, t.y as int),
                ),
                spec_mul(self.data[r][2] as int, t.z as int),
            ),
            spec_mul(self.data[r][3] as int, t.w as int),
        )
    }

    /// One column of the matrix dotted with a tuple: what a row of the
    /// transposed matrix contributes to a product.
    pub open spec fn spec_col_tuple(self, c: int, t: Tuple) -> int {
        spec_add(
            spec_add(
                spec_add(
                    spec_mul(self.data[0][c] as int, t.x as int),
                    spec_mul(self.data[1][c] as int, t.y as int),
                ),
                spec_mul(self.data[2][c] as int, t.z as int),
            ),
            spec_mul(self.data[3][c] as int, t.w as int),
        )
    }

    /// The whole matrix-tuple product, as a value.
    pub open spec fn spec_mul_tuple(self, t: Tuple) -> Tuple {
        Tuple {
            x: self.spec_row_tuple(0, t) as i64,
            y: self.spec_row_tuple(1, t) as i64,
            z: self.spec_row_tuple(2, t) as i64,
            w: self.spec_row_tuple(3, t) as i64,
        }
    }

    pub fn mul_tuple(&self, t: Tuple) -> (r: Tuple)
        ensures
            r == self.spec_mul_tuple(t),
    {
        Tuple {
            x: self.row_tuple(0, t),
            y: self.row_tuple(1, t),
            z: self.row_tuple(2, t),
            w: self.row_tuple(3, t),
        }
    }

    fn row_tuple(&self, r: usize, t: Tuple) -> (v: i64)
        requires
            r < 4,
        ensures
            v as int == self.spec_row_tuple(r as int, t),
    {
        fx::fx_add(
            fx::fx_add(
                fx::fx_add(fx::fx_mul(self.data[r][0], t.x), fx::fx_mul(self.data[r][1], t.y)),
                fx::fx_mul(self.data[r][2], t.z),
            ),
            fx::fx_mul(self.data[r][3], t.w),
        )
    }

    pub fn approx_eq(&self, other: &Matrix) -> (r: bool)
        requires
            self.wf(),
        ensures
            r == spec_matrix_approx(*self, *other),
    {
        if self.size != other.size {
            return false;
        }
        let mut r: usize = 0;
        while r < self.size
            invariant
                self.size == other.size,
                self.size <= 4,
                r <= self.size,
                forall|i: int, j: int|
                    0 <= i < r && 0 <= j < self.size ==> fx::spec_approx_eq(
                        self.data[i][j] as int,
                        other.data[i][j] as int,
                    ),
            decreases self.size - r,
        {
            let mut c: usize = 0;
            while c < self.size
                invariant
                    self.size == other.size,
                    self.size <= 4,
                    r < self.size,
                    c <= self.size,
                    forall|i: int, j: int|
                        0 <= i < r && 0 <= j < self.size ==> fx::spec_approx_eq(
                            self.data[i][j] as int,
                            other.data[i][j] as int,
                        ),
                    forall|j: int|
                        0 <= j < c ==> fx::spec_approx_eq(
                            self.data[r as int][j] as int,
                            other.data[r as int][j] as int,
                        ),
                decreases self.size - c,
            {
                if !crate::approx_eq(self.data[r][c], other.data[r][c]) {
                    return false;
                }
                c = c + 1;
            }
            r = r + 1;
        }
        true
    }
}

} // verus!
