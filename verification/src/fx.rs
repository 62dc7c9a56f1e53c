//! Fixed-point scalar arithmetic.
//!
//! A scalar is an `i64` holding its value times `SCALE`.  Every operation
//! returns the exact mathematical result truncated toward zero at the
//! resolution of one unit, saturated to the `i64` range; division by zero
//! saturates by the sign of the dividend.  The spec functions below state
//! those results exactly over `int`, so nothing about a scalar is left open.

use vstd::prelude::*;

verus! {

use vstd::math::abs;

/// One whole unit: a scalar holds its value times this factor.
pub const SCALE: i64 = 1_000_000;

/// Saturation to the representable range.
pub open spec fn clamp(x: int) -> int {
    if x > i64::MAX as int {
        i64::MAX as int
    } else if x < i64::MIN as int {
        i64::MIN as int
    } else {
        x
    }
}

/// Quotient truncated toward zero (the sign rule of machine division).
pub open spec fn div_trunc(n: int, d: int) -> int
    recommends
        d != 0,
{
    if (n < 0) == (d < 0) {
        abs(n) as int / abs(d) as int
    } else {
        -(abs(n) as int / abs(d) as int)
    }
}

pub open spec fn spec_add(a: int, b: int) -> int {
    clamp(a + b)
}

pub open spec fn spec_sub(a: int, b: int) -> int {
    clamp(a - b)
}

pub open spec fn spec_neg(a: int) -> int {
    clamp(-a)
}

pub open spec fn spec_abs(a: int) -> int {
    clamp(abs(a) as int)
}

pub open spec fn spec_mul(a: int, b: int) -> int {
    clamp(div_trunc(a * b, SCALE as int))
}

pub open spec fn spec_div(a: int, b: int) -> int {
    if b == 0 {
        if a > 0 {
            i64::MAX as int
        } else if a < 0 {
            i64::MIN as int
        } else {
            0
        }
    } else {
        clamp(div_trunc(a * (SCALE as int), b))
    }
}

/// Largest `r` with `r * r <= n`.
pub open spec fn isqrt(n: nat) -> nat
    decreases n,
{
    if n == 0 {
        0
    } else {
        let r = isqrt((n - 1) as nat);
        if (r + 1) * (r + 1) <= n {
            r + 1
        } else {
            r
        }
    }
}

/// The square root of a scalar, as a scalar: `floor(sqrt(a * SCALE))`.
pub open spec fn spec_sqrt(a: int) -> int
    recommends
        a >= 0,
{
    isqrt((a * SCALE) as nat) as int
}

pub open spec fn spec_approx_eq(a: int, b: int) -> bool {
    -(crate::EPSILON as int) < a - b && a - b < crate::EPSILON as int
}

pub proof fn lemma_isqrt_bounds(n: nat)
    ensures
        isqrt(n) * isqrt(n) <= n,
        n < (isqrt(n) + 1) * (isqrt(n) + 1),
    decreases n,
{
    if n == 0 {
        assert(isqrt(0) == 0);
        assert(0 * 0 <= 0 && 0 < (0 + 1) * (0 + 1)) by (nonlinear_arith);
    } else {
        lemma_isqrt_bounds((n - 1) as nat);
        let r = isqrt((n - 1) as nat);
        if (r + 1) * (r + 1) <= n {
            assert(isqrt(n) == r + 1);
            assert(n < (r + 1 + 1) * (r + 1 + 1)) by (nonlinear_arith)
                requires
                    n - 1 < (r + 1) * (r + 1),
            ;
        } else {
            assert(isqrt(n) == r);
            assert(r * r <= n - 1);
        }
    }
}

/// Multiplying by one whole unit changes nothing.
pub proof fn lemma_mul_unit(x: int)
    requires
        i64::MIN <= x <= i64::MAX,
    ensures
        spec_mul(x, SCALE as int) == x,
        spec_mul(SCALE as int, x) == x,
{
    let s = SCALE as int;
    assert(x * s == s * x) by (nonlinear_arith);
    if x >= 0 {
        assert(abs(x * s) == x * s && abs(s * x) == s * x) by (nonlinear_arith)
            requires
                x >= 0,
                s > 0,
        ;
        vstd::arithmetic::div_mod::lemma_div_multiples_vanish(x, s);
        assert((s * x) / s == x);
        assert(div_trunc(x * s, s) == x);
    } else {
        assert(abs(x * s) == -(x * s) && -(x * s) == s * (-x)) by (nonlinear_arith)
            requires
                x < 0,
                s > 0,
        ;
        vstd::arithmetic::div_mod::lemma_div_multiples_vanish(-x, s);
        assert((s * (-x)) / s == -x);
        assert(div_trunc(x * s, s) == -(-x) == x);
    }
}

/// Multiplying by zero gives zero, whatever the other factor.
pub proof fn lemma_mul_zero(x: int)
    ensures
        spec_mul(x, 0) == 0,
        spec_mul(0, x) == 0,
{
    assert(x * 0 == 0 && 0 * x == 0) by (nonlinear_arith);
}

/// Dividing a scalar by one whole unit changes nothing, and zero divided by
/// anything nonzero is zero.
pub proof fn lemma_div_unit(x: int)
    requires
        i64::MIN <= x <= i64::MAX,
    ensures
        spec_div(x, SCALE as int) == x,
        x != 0 ==> spec_div(0, x) == 0,
{
    let s = SCALE as int;
    assert(x * s == s * x) by (nonlinear_arith);
    if x >= 0 {
        assert(abs(x * s) == s * x) by (nonlinear_arith)
            requires
                x >= 0,
                s > 0,
        ;
        vstd::arithmetic::div_mod::lemma_div_multiples_vanish(x, s);
    } else {
        assert(abs(x * s) == s * (-x)) by (nonlinear_arith)
            requires
                x < 0,
                s > 0,
        ;
        vstd::arithmetic::div_mod::lemma_div_multiples_vanish(-x, s);
    }
}

/// Repeated fixed-point multiplication: `base` to the `n`, starting at one.
pub open spec fn spec_powi(base: int, n: nat) -> int
    decreases n,
{
    if n == 0 {
        SCALE as int
    } else {
        spec_mul(spec_powi(base, (n - 1) as nat), base)
    }
}

pub fn fx_powi(base: i64, n: u32) -> (r: i64)
    ensures
        r as int == spec_powi(base as int, n as nat),
{
    let mut acc: i64 = SCALE;
    let mut i: u32 = 0;
    while i < n
        invariant
            i <= n,
            acc as int == spec_powi(base as int, i as nat),
        decreases n - i,
    {
        acc = fx_mul(acc, base);
        i = i + 1;
    }
    acc
}

pub proof fn lemma_square_nonneg(a: int)
    ensures
        spec_mul(a, a) >= 0,
{
    assert(a * a >= 0) by (nonlinear_arith);
}

pub proof fn lemma_isqrt_unique(n: nat, r: nat)
    requires
        r * r <= n,
        n < (r + 1) * (r + 1),
    ensures
        r == isqrt(n),
{
    lemma_isqrt_bounds(n);
    let s = isqrt(n);
    if r < s {
        assert((r + 1) * (r + 1) <= s * s) by (nonlinear_arith)
            requires
                r + 1 <= s,
        ;
    }
    if s < r {
        assert((s + 1) * (s + 1) <= r * r) by (nonlinear_arith)
            requires
                s + 1 <= r,
        ;
    }
}

fn clamp128(s: i128) -> (r: i64)
    ensures
        r as int == clamp(s as int),
{
    if s > i64::MAX as i128 {
        i64::MAX
    } else if s < i64::MIN as i128 {
        i64::MIN
    } else {
        s as i64
    }
}

/// The magnitude of a scalar, as an unsigned value (total, even at `i64::MIN`).
fn mag64(a: i64) -> (m: u64)
    ensures
        m as int == abs(a as int),
{
    if a >= 0 {
        a as u64
    } else {
        (-(a as i128)) as u64
    }
}

fn clamp_pos(q: u128) -> (r: i64)
    ensures
        r as int == clamp(q as int),
{
    if q > i64::MAX as u128 {
        i64::MAX
    } else {
        q as i64
    }
}

fn clamp_neg(q: u128) -> (r: i64)
    ensures
        r as int == clamp(-(q as int)),
{
    if q >= 9223372036854775808u128 {
        i64::MIN
    } else {
        -(q as i64)
    }
}

pub fn fx_add(a: i64, b: i64) -> (r: i64)
    ensures
        r as int == spec_add(a as int, b as int),
{
    clamp128(a as i128 + b as i128)
}

pub fn fx_sub(a: i64, b: i64) -> (r: i64)
    ensures
        r as int == spec_sub(a as int, b as int),
{
    clamp128(a as i128 - b as i128)
}

pub fn fx_neg(a: i64) -> (r: i64)
    ensures
        r as int == spec_neg(a as int),
{
    clamp128(-(a as i128))
}

pub fn fx_abs(a: i64) -> (r: i64)
    ensures
        r as int == spec_abs(a as int),
{
    if a >= 0 {
        a
    } else {
        clamp128(-(a as i128))
    }
}

pub fn fx_mul(a: i64, b: i64) -> (r: i64)
    ensures
        r as int == spec_mul(a as int, b as int),
{
    let au = mag64(a);
    let bu = mag64(b);
    assert((au as int) * (bu as int) <= 0x8000_0000_0000_0000i128 * 0x8000_0000_0000_0000i128)
        by (nonlinear_arith)
        requires
            au <= 0x8000_0000_0000_0000u128,
            bu <= 0x8000_0000_0000_0000u128,
    ;
    let p: u128 = (au as u128) * (bu as u128);
    let q: u128 = p / (SCALE as u128);
    proof {
        assert(p as int == abs((a as int) * (b as int))) by (nonlinear_arith)
            requires
                au as int == abs(a as int),
                bu as int == abs(b as int),
                p as int == (au as int) * (bu as int),
        ;
        assert((a as int) * (b as int) < 0 ==> (a < 0) != (b < 0)) by (nonlinear_arith);
        assert((a as int) * (b as int) > 0 ==> (a < 0) == (b < 0)) by (nonlinear_arith);
    }
    if (a < 0) != (b < 0) {
        clamp_neg(q)
    } else {
        clamp_pos(q)
    }
}

pub fn fx_div(a: i64, b: i64) -> (r: i64)
    ensures
        r as int == spec_div(a as int, b as int),
{
    if b == 0 {
        if a > 0 {
            i64::MAX
        } else if a < 0 {
            i64::MIN
        } else {
            0
        }
    } else {
        let au = mag64(a);
        let bu = mag64(b);
        assert((au as int) * (SCALE as int) <= 0x8000_0000_0000_0000i128 * 0x1000_0000i128)
            by (nonlinear_arith)
            requires
                au <= 0x8000_0000_0000_0000u128,
        ;
        let n: u128 = (au as u128) * (SCALE as u128);
        let q: u128 = n / (bu as u128);
        proof {
            assert(n as int == abs((a as int) * (SCALE as int))) by (nonlinear_arith)
                requires
                    au as int == abs(a as int),
                    n as int == (au as int) * (SCALE as int),
                    SCALE == 1_000_000i64,
            ;
            assert((a as int) * (SCALE as int) < 0 <==> a < 0) by (nonlinear_arith)
                requires
                    SCALE == 1_000_000i64,
            ;
        }
        if (a < 0) != (b < 0) {
            clamp_neg(q)
        } else {
            clamp_pos(q)
        }
    }
}

pub fn fx_sqrt(a: i64) -> (r: i64)
    requires
        a >= 0,
    ensures
        r as int == spec_sqrt(a as int),
        r >= 0,
        (r as int) * (r as int) <= (a as int) * (SCALE as int),
        (a as int) * (SCALE as int) < (r as int + 1) * (r as int + 1),
{
    assert(0 <= (a as int) * (SCALE as int) < 0x800_0000_0000_0000_0000_0000i128)
        by (nonlinear_arith)
        requires
            0 <= a as int <= 0x8000_0000_0000_0000i128,
            SCALE == 1_000_000i64,
    ;
    let n: u128 = (a as u128) * (SCALE as u128);
    let mut lo: u64 = 0;
    let mut hi: u64 = 0x4_0000_0000_0000u64;
    assert((hi as int) * (hi as int) > n as int) by (nonlinear_arith)
        requires
            hi == 0x4_0000_0000_0000u64,
            n < 0x800_0000_0000_0000_0000_0000u128,
    ;
    while lo + 1 < hi
        invariant
            lo < hi,
            hi <= 0x4_0000_0000_0000u64,
            (lo as int) * (lo as int) <= n as int,
            (n as int) < (hi as int) * (hi as int),
        decreases hi - lo,
    {
        let mid: u64 = lo + (hi - lo) / 2;
        assert(0 <= (mid as int) * (mid as int) < 0x1000_0000_0000_0000_0000_0000_0000i128)
            by (nonlinear_arith)
            requires
                mid <= 0x4_0000_0000_0000u64,
        ;
        let sq: u128 = (mid as u128) * (mid as u128);
        if sq <= n {
            lo = mid;
        } else {
            hi = mid;
        }
    }
    proof {
        lemma_isqrt_unique(n as nat, lo as nat);
    }
    lo as i64
}

} // verus!
