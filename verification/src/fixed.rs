//! Scaled-integer scalar arithmetic.
//!
//! A scalar holds a real value multiplied by `SCALE` and rounded toward
//! zero. Multiplication, division and square root are specified exactly by
//! the spec functions `fmul_s`, `fdiv_s` and `fsqrt_s`, so every caller's
//! contract can state the precise integer it receives.

use vstd::arithmetic::div_mod::{lemma_div_is_ordered, lemma_div_nonincreasing};
use vstd::math::abs;
use vstd::prelude::*;

verus! {

/// Raw units in 1.0: every scalar is a real value scaled by this factor.
pub const SCALE: i64 = 65536;

/// Largest raw magnitude the scalar operations accept; chosen so that a
/// product of two operands, widened to 128 bits and divided by `SCALE`,
/// still fits comfortably in an `i64`.
pub const FIT: i64 = 0x80_0000_0000;

/// Truncating (round-toward-zero) division, the behaviour of `/` on Rust's
/// signed integers. On `int`, `/` is Euclidean, which differs on negative
/// dividends, so the rounding is spelled out here once.
pub open spec fn tdiv(p: int, d: int) -> int {
    if (p >= 0) == (d >= 0) {
        abs(p) as int / abs(d) as int
    } else {
        -(abs(p) as int / abs(d) as int)
    }
}

/// The scalar product: real values multiply, so raw values multiply and
/// shed one factor of `SCALE`.
pub open spec fn fmul_s(a: int, b: int) -> int {
    tdiv(a * b, SCALE as int)
}

/// The scalar quotient: the dividend gains one factor of `SCALE`.
pub open spec fn fdiv_s(a: int, b: int) -> int {
    tdiv(a * SCALE, b)
}

/// Integer square root, rounded down.
pub open spec fn isqrt_s(x: nat) -> nat
    decreases x,
{
    if x == 0 {
        0
    } else {
        let r = isqrt_s((x - 1) as nat);
        if (r + 1) * (r + 1) <= x {
            r + 1
        } else {
            r
        }
    }
}

/// The scalar square root: the radicand gains one factor of `SCALE` so the
/// root comes back at the same scale.
pub open spec fn fsqrt_s(x: int) -> int
    recommends
        x >= 0,
{
    isqrt_s((x * SCALE) as nat) as int
}

/// `isqrt_s` is the rounded-down square root.
pub proof fn lemma_isqrt(x: nat)
    ensures
        isqrt_s(x) * isqrt_s(x) <= x,
        x < (isqrt_s(x) + 1) * (isqrt_s(x) + 1),
    decreases x,
{
    if x == 0 {
        let r = isqrt_s(x);
        assert(r == 0);
        assert(r * r <= x && x < (r + 1) * (r + 1)) by (nonlinear_arith)
            requires
                x == 0,
                r == 0,
        ;
    } else {
        let r = isqrt_s((x - 1) as nat);
        lemma_isqrt((x - 1) as nat);
        assert(r * r <= x - 1 && x - 1 < (r + 1) * (r + 1));
        if (r + 1) * (r + 1) <= x {
            assert(isqrt_s(x) == r + 1);
            assert(x < (r + 2) * (r + 2)) by (nonlinear_arith)
                requires
                    x - 1 < (r + 1) * (r + 1),
                    (r + 1) * (r + 1) <= x,
                    r >= 0,
            ;
            assert(isqrt_s(x) * isqrt_s(x) <= x);
            assert(x < (isqrt_s(x) + 1) * (isqrt_s(x) + 1));
        } else {
            assert(isqrt_s(x) == r);
            assert(isqrt_s(x) * isqrt_s(x) <= x);
            assert(x < (isqrt_s(x) + 1) * (isqrt_s(x) + 1));
        }
    }
}

/// Any integer bracketed by consecutive squares is the rounded-down root.
pub proof fn lemma_isqrt_unique(x: nat, r: nat)
    requires
        r * r <= x,
        x < (r + 1) * (r + 1),
    ensures
        r == isqrt_s(x),
{
    let s = isqrt_s(x);
    lemma_isqrt(x);
    assert(!(r < s) && !(s < r)) by (nonlinear_arith)
        requires
            r * r <= x,
            x < (r + 1) * (r + 1),
            s * s <= x,
            x < (s + 1) * (s + 1),
    ;
}

/// Truncating division negates with its dividend.
pub proof fn lemma_tdiv_neg(p: int, d: int)
    requires
        d > 0,
    ensures
        tdiv(-p, d) == -tdiv(p, d),
{
}

/// The magnitude of a truncated quotient is the quotient of magnitudes.
pub proof fn lemma_tdiv_abs(p: int, d: int)
    requires
        d > 0,
    ensures
        abs(tdiv(p, d)) == abs(p) as int / d,
        abs(tdiv(p, d)) <= abs(p),
{
    lemma_div_nonincreasing(abs(p) as int, d);
    vstd::arithmetic::div_mod::lemma_div_pos_is_pos(abs(p) as int, d);
}

/// A product of non-negative scalars is non-negative.
pub proof fn lemma_fmul_nonneg(a: int, b: int)
    requires
        0 <= a,
        0 <= b,
    ensures
        0 <= fmul_s(a, b),
{
    assert(a * b >= 0) by (nonlinear_arith)
        requires
            0 <= a && 0 <= b,
    ;
    vstd::arithmetic::div_mod::lemma_div_pos_is_pos(abs(a * b) as int, SCALE as int);
}

/// The scalar product grows with a non-negative factor's partner.
pub proof fn lemma_fmul_mono(a: int, b: int, c: int)
    requires
        0 <= a,
        0 <= b <= c,
    ensures
        0 <= fmul_s(a, b) <= fmul_s(a, c),
{
    assert(0 <= a * b <= a * c) by (nonlinear_arith)
        requires
            0 <= a && 0 <= b <= c,
    ;
    lemma_fmul_nonneg(a, b);
    lemma_fmul_nonneg(a, c);
    lemma_div_is_ordered(a * b, a * c, SCALE as int);
}

/// Multiplying by one (`SCALE` raw) is the identity, exactly.
pub proof fn lemma_fmul_one(a: int)
    ensures
        fmul_s(a, SCALE as int) == a,
        fmul_s(SCALE as int, a) == a,
        fmul_s(a, 0) == 0,
        fmul_s(0, a) == 0,
{
    assert(a * SCALE == SCALE as int * a && a * 0 == 0 && 0 * a == 0) by (nonlinear_arith);
    if a >= 0 {
        vstd::arithmetic::div_mod::lemma_div_multiples_vanish(a, SCALE as int);
    } else {
        vstd::arithmetic::div_mod::lemma_div_multiples_vanish(-a, SCALE as int);
        assert(-(a * SCALE) == SCALE as int * (-a)) by (nonlinear_arith);
    }
}

/// Bounds on the factors bound a plain integer product.
pub proof fn lemma_mul_bound(a: int, b: int, m: int, n: int)
    requires
        abs(a) <= m,
        abs(b) <= n,
    ensures
        abs(a * b) <= m * n,
{
    assert(abs(a * b) <= m * n) by (nonlinear_arith)
        requires
            abs(a) <= m,
            abs(b) <= n,
    ;
}

/// The scalar product negates with either factor.
pub proof fn lemma_fmul_neg(a: int, b: int)
    ensures
        fmul_s(a, -b) == -fmul_s(a, b),
        fmul_s(-a, -b) == fmul_s(a, b),
{
    assert(a * (-b) == -(a * b) && (-a) * (-b) == a * b) by (nonlinear_arith);
    lemma_tdiv_neg(a * b, SCALE as int);
}

/// Bounds on the operands bound the scalar product.
pub proof fn lemma_fmul_bound(a: int, b: int, m: int, n: int)
    requires
        abs(a) <= m,
        abs(b) <= n,
    ensures
        abs(fmul_s(a, b)) <= m * n / SCALE as int,
{
    assert(abs(a * b) <= m * n) by (nonlinear_arith)
        requires
            abs(a) <= m,
            abs(b) <= n,
    ;
    lemma_tdiv_abs(a * b, SCALE as int);
    lemma_div_is_ordered(abs(a * b) as int, m * n, SCALE as int);
}

/// Widening product; two signed 64-bit factors always fit in 128 bits.
pub fn mul_wide(a: i64, b: i64) -> (r: i128)
    ensures
        r == a as int * b as int,
{
    proof {
        assert(i128::MIN <= a as int * b as int <= i128::MAX) by (nonlinear_arith)
            requires
                i64::MIN <= a as int <= i64::MAX,
                i64::MIN <= b as int <= i64::MAX,
        ;
    }
    (a as i128) * (b as i128)
}

/// Truncating division on wide intermediates, via unsigned division.
pub fn tdiv_wide(p: i128, d: i128) -> (r: i128)
    requires
        d > 0,
        p > i128::MIN,
    ensures
        r == tdiv(p as int, d as int),
{
    if p >= 0 {
        proof {
            lemma_div_nonincreasing(p as int, d as int);
            vstd::arithmetic::div_mod::lemma_div_pos_is_pos(p as int, d as int);
        }
        ((p as u128) / (d as u128)) as i128
    } else {
        proof {
            lemma_div_nonincreasing(-p as int, d as int);
            vstd::arithmetic::div_mod::lemma_div_pos_is_pos(-p as int, d as int);
        }
        -(((-p) as u128 / (d as u128)) as i128)
    }
}

/// Scalar multiplication: exact per `fmul_s`.
pub fn fmul(a: i64, b: i64) -> (r: i64)
    requires
        -FIT <= a <= FIT,
        -FIT <= b <= FIT,
    ensures
        r == fmul_s(a as int, b as int),
        abs(r as int) <= abs(a as int * b as int) as int / SCALE as int,
{
    let p: i128 = mul_wide(a, b);
    proof {
        assert(abs(p as int) <= FIT as int * FIT as int) by (nonlinear_arith)
            requires
                abs(a as int) <= FIT as int,
                abs(b as int) <= FIT as int,
                p == a as int * b as int,
        ;
        lemma_tdiv_abs(p as int, SCALE as int);
        lemma_div_is_ordered(abs(p as int) as int, FIT as int * FIT as int, SCALE as int);
    }
    let q: i128 = tdiv_wide(p, SCALE as i128);
    q as i64
}

/// Scalar division: exact per `fdiv_s`. The divisor's sign is folded into
/// the dividend so the wide division sees a positive divisor.
pub fn fdiv(a: i64, b: i64) -> (r: i64)
    requires
        b != 0,
        -FIT <= a <= FIT,
    ensures
        r == fdiv_s(a as int, b as int),
        abs(r as int) <= abs(a as int) * SCALE as int,
{
    let p: i128 = mul_wide(a, SCALE);
    proof {
        assert(abs(p as int) <= FIT as int * SCALE as int) by (nonlinear_arith)
            requires
                abs(a as int) <= FIT as int,
                p == a as int * SCALE as int,
        ;
        assert(abs(p as int) == abs(a as int) * SCALE as int) by (nonlinear_arith)
            requires
                p == a as int * SCALE as int,
        ;
    }
    let r: i128 = if b > 0 {
        proof {
            lemma_tdiv_abs(p as int, b as int);
        }
        tdiv_wide(p, b as i128)
    } else {
        proof {
            lemma_tdiv_abs(p as int, -b as int);
            assert(tdiv(p as int, b as int) == -tdiv(p as int, -b as int));
        }
        -tdiv_wide(p, -(b as i128))
    };
    r as i64
}

/// Rounded-down square root of an unsigned wide integer, by bisection.
pub fn isqrt(x: u128) -> (r: u128)
    requires
        x < 0x4000_0000_0000_0000_0000_0000_0000_0000,
    ensures
        r == isqrt_s(x as nat),
        r * r <= x,
        x < (r + 1) * (r + 1),
{
    let mut lo: u128 = 0;
    let mut hi: u128 = 0x8000_0000_0000_0000;
    proof {
        assert(x < hi * hi) by (nonlinear_arith)
            requires
                x < 0x4000_0000_0000_0000_0000_0000_0000_0000,
                hi == 0x8000_0000_0000_0000,
        ;
    }
    while lo + 1 < hi
        invariant
            lo < hi <= 0x8000_0000_0000_0000,
            lo * lo <= x,
            x < hi * hi,
        decreases hi - lo,
    {
        let mid: u128 = lo + (hi - lo) / 2;
        proof {
            assert(mid * mid <= 0x8000_0000_0000_0000 * 0x8000_0000_0000_0000)
                by (nonlinear_arith)
                requires
                    0 <= mid <= 0x8000_0000_0000_0000,
            ;
        }
        if mid * mid <= x {
            lo = mid;
        } else {
            hi = mid;
        }
    }
    proof {
        lemma_isqrt_unique(x as nat, lo as nat);
    }
    lo
}

/// Scalar square root: exact per `fsqrt_s`, with the bracketing bounds
/// restated for callers.
pub fn fsqrt(x: i64) -> (r: i64)
    requires
        x >= 0,
    ensures
        r == fsqrt_s(x as int),
        r >= 0,
        r * r <= x * SCALE,
        x * SCALE < (r + 1) * (r + 1),
{
    proof {
        assert(0 <= x as int <= 0x7FFF_FFFF_FFFF_FFFF);
    }
    let w: u128 = (x as u128) * 65536;
    proof {
        assert(w == x as int * SCALE as int);
        assert(w <= 0x7FFF_FFFF_FFFF_FFFF * 0x1_0000);
    }
    let r: u128 = isqrt(w);
    proof {
        assert(r < 0x1_0000_0000_0000) by (nonlinear_arith)
            requires
                r * r <= w,
                w < 0x1_0000_0000_0000_0000_0000_0000,
        ;
    }
    r as i64
}

} // verus!
