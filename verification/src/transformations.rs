//! Constructors for the usual affine transform matrices.  Rotations take the
//! sine and cosine of the angle as fixed-point scalars, since the library's
//! arithmetic is exact integer arithmetic and evaluates no trigonometry.

use vstd::prelude::*;

verus! {

use crate::fx;
use crate::fx::SCALE;
use crate::matrix::Matrix;

impl Matrix {
    pub fn translation(x: i64, y: i64, z: i64) -> (m: Matrix)
        ensures
            m.size == 4,
            m.wf(),
            forall|r: int, c: int|
                0 <= r < 4 && 0 <= c < 4 ==> m.spec_at(r, c) == if r == c {
                    SCALE as int
                } else if c == 3 {
                    seq![x as int, y as int, z as int][r]
                } else {
                    0
                },
    {
        Matrix::new(
            [SCALE, 0, 0, x],
            [0, SCALE, 0, y],
            [0, 0, SCALE, z],
            [0, 0, 0, SCALE],
        )
    }

    pub fn scaling(x: i64, y: i64, z: i64) -> (m: Matrix)
        ensures
            m.size == 4,
            m.wf(),
            forall|r: int, c: int|
                0 <= r < 4 && 0 <= c < 4 ==> m.spec_at(r, c) == if r == c {
                    seq![x as int, y as int, z as int, SCALE as int][r]
                } else {
                    0
                },
    {
        Matrix::new([x, 0, 0, 0], [0, y, 0, 0], [0, 0, z, 0], [0, 0, 0, SCALE])
    }

    pub fn shearing(xy: i64, xz: i64, yx: i64, yz: i64, zx: i64, zy: i64) -> (m: Matrix)
        ensures
            m.size == 4,
            m.wf(),
            forall|r: int, c: int|
                0 <= r < 4 && 0 <= c < 4 ==> m.spec_at(r, c) == if r == c {
                    SCALE as int
                } else {
                    seq![
                        seq![0int, xy as int, xz as int, 0int],
                        seq![yx as int, 0int, yz as int, 0int],
                        seq![zx as int, zy as int, 0int, 0int],
                        seq![0int, 0int, 0int, 0int],
                    ][r][c]
                },
    {
        Matrix::new(
            [SCALE, xy, xz, 0],
            [yx, SCALE, yz, 0],
            [zx, zy, SCALE, 0],
            [0, 0, 0, SCALE],
        )
    }

    /// Rotation about the x axis, from the sine and cosine of the angle.
    pub fn rotation_x(sin_r: i64, cos_r: i64) -> (m: Matrix)
        ensures
            m.size == 4,
            m.wf(),
            forall|r: int, c: int|
                0 <= r < 4 && 0 <= c < 4 ==> m.spec_at(r, c) == seq![
                    seq![SCALE as int, 0int, 0int, 0int],
                    seq![0int, cos_r as int, fx::spec_neg(sin_r as int), 0int],
                    seq![0int, sin_r as int, cos_r as int, 0int],
                    seq![0int, 0int, 0int, SCALE as int],
                ][r][c],
    {
        Matrix::new(
            [SCALE, 0, 0, 0],
            [0, cos_r, fx::fx_neg(sin_r), 0],
            [0, sin_r, cos_r, 0],
            [0, 0, 0, SCALE],
        )
    }

    /// Rotation about the y axis, from the sine and cosine of the angle.
    pub fn rotation_y(sin_r: i64, cos_r: i64) -> (m: Matrix)
        ensures
            m.size == 4,
            m.wf(),
            forall|r: int, c: int|
                0 <= r < 4 && 0 <= c < 4 ==> m.spec_at(r, c) == seq![
                    seq![cos_r as int, 0int, sin_r as int, 0int],
                    seq![0int, SCALE as int, 0int, 0int],
                    seq![fx::spec_neg(sin_r as int), 0int, cos_r as int, 0int],
                    seq![0int, 0int, 0int, SCALE as int],
                ][r][c],
    {
        Matrix::new(
            [cos_r, 0, sin_r, 0],
            [0, SCALE, 0, 0],
            [fx::fx_neg(sin_r), 0, cos_r, 0],
            [0, 0, 0, SCALE],
        )
    }

    /// Rotation about the z axis, from the sine and cosine of the angle.
    pub fn rotation_z(sin_r: i64, cos_r: i64) -> (m: Matrix)
        ensures
            m.size == 4,
            m.wf(),
            forall|r: int, c: int|
                0 <= r < 4 && 0 <= c < 4 ==> m.spec_at(r, c) == seq![
                    seq![cos_r as int, fx::spec_neg(sin_r as int), 0int, 0int],
                    seq![sin_r as int, cos_r as int, 0int, 0int],
                    seq![0int, 0int, SCALE as int, 0int],
                    seq![0int, 0int, 0int, SCALE as int],
                ][r][c],
    {
        Matrix::new(
            [cos_r, fx::fx_neg(sin_r), 0, 0],
            [sin_r, cos_r, 0, 0],
            [0, 0, SCALE, 0],
            [0, 0, 0, SCALE],
        )
    }
}

} // verus!
