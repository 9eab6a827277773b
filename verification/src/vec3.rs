//! Three-component fixed-point vectors.
//!
//! Each operation is specified exactly: the ensures clause names the integer
//! value of every component via the `_s` spec functions, so geometry and
//! material proofs can compute with them.

use crate::fixed::{
    fdiv, fdiv_s, fmul, fmul_s, fsqrt, fsqrt_s, lemma_fmul_bound, lemma_tdiv_abs, FIT, SCALE,
};
use crate::util::random_scalar_range;
use vstd::arithmetic::div_mod::{
    lemma_div_is_ordered, lemma_div_is_ordered_by_denominator, lemma_div_pos_is_pos,
    lemma_fundamental_div_mod, lemma_hoist_over_denominator,
};
use vstd::math::abs;
use vstd::prelude::*;

verus! {

/// Per-component magnitude cap accepted by the vector operations: three
/// products of capped components, each divided by `SCALE`, still sum inside
/// an `i64`.
pub const VFIT: i64 = 0x40_0000_0000;

/// A component below this raw count (1/256) is treated as zero when testing
/// for a degenerate scatter direction: a vector of such components has a
/// squared length that rounds to nothing.
pub const NEAR_EPS: i64 = 256;

#[derive(Clone, Copy, PartialEq, Eq, Structural, Debug)]
pub struct Vec3 {
    pub x: i64,
    pub y: i64,
    pub z: i64,
}

pub type Point3 = Vec3;

pub type Color = Vec3;

/// Every component within `m` in magnitude.
pub open spec fn bounded(v: Vec3, m: int) -> bool {
    abs(v.x as int) <= m && abs(v.y as int) <= m && abs(v.z as int) <= m
}

pub open spec fn add_s(u: Vec3, v: Vec3) -> Vec3 {
    Vec3 { x: (u.x + v.x) as i64, y: (u.y + v.y) as i64, z: (u.z + v.z) as i64 }
}

pub open spec fn sub_s(u: Vec3, v: Vec3) -> Vec3 {
    Vec3 { x: (u.x - v.x) as i64, y: (u.y - v.y) as i64, z: (u.z - v.z) as i64 }
}

pub open spec fn neg_s(v: Vec3) -> Vec3 {
    Vec3 { x: (-v.x) as i64, y: (-v.y) as i64, z: (-v.z) as i64 }
}

pub open spec fn scale_s(t: int, v: Vec3) -> Vec3 {
    Vec3 {
        x: fmul_s(t, v.x as int) as i64,
        y: fmul_s(t, v.y as int) as i64,
        z: fmul_s(t, v.z as int) as i64,
    }
}

pub open spec fn comp_mul_s(u: Vec3, v: Vec3) -> Vec3 {
    Vec3 {
        x: fmul_s(u.x as int, v.x as int) as i64,
        y: fmul_s(u.y as int, v.y as int) as i64,
        z: fmul_s(u.z as int, v.z as int) as i64,
    }
}

pub open spec fn dot_s(u: Vec3, v: Vec3) -> int {
    fmul_s(u.x as int, v.x as int) + fmul_s(u.y as int, v.y as int) + fmul_s(
        u.z as int,
        v.z as int,
    )
}

pub open spec fn cross_s(u: Vec3, v: Vec3) -> Vec3 {
    Vec3 {
        x: (fmul_s(u.y as int, v.z as int) - fmul_s(u.z as int, v.y as int)) as i64,
        y: (fmul_s(u.z as int, v.x as int) - fmul_s(u.x as int, v.z as int)) as i64,
        z: (fmul_s(u.x as int, v.y as int) - fmul_s(u.y as int, v.x as int)) as i64,
    }
}

pub open spec fn len_sq_s(v: Vec3) -> int {
    dot_s(v, v)
}

pub open spec fn len_s(v: Vec3) -> int {
    fsqrt_s(len_sq_s(v))
}

pub open spec fn unit_s(v: Vec3) -> Vec3 {
    Vec3 {
        x: fdiv_s(v.x as int, len_s(v)) as i64,
        y: fdiv_s(v.y as int, len_s(v)) as i64,
        z: fdiv_s(v.z as int, len_s(v)) as i64,
    }
}

pub open spec fn near_zero_s(v: Vec3) -> bool {
    abs(v.x as int) < NEAR_EPS && abs(v.y as int) < NEAR_EPS && abs(v.z as int) < NEAR_EPS
}

/// Scalar division as the original's `Div` does it: scale by `1 / t`.
pub open spec fn div_scalar_s(v: Vec3, t: int) -> Vec3 {
    scale_s(fdiv_s(SCALE as int, t), v)
}

/// Component-wise scalar division, the original's `DivAssign`.
pub open spec fn comp_div_s(v: Vec3, t: int) -> Vec3 {
    Vec3 {
        x: fdiv_s(v.x as int, t) as i64,
        y: fdiv_s(v.y as int, t) as i64,
        z: fdiv_s(v.z as int, t) as i64,
    }
}

/// The mirror direction: `v - 2*dot(v,n)*n`.
pub open spec fn reflect_s(v: Vec3, n: Vec3) -> Vec3 {
    sub_s(v, scale_s(2 * dot_s(v, n), n))
}

/// A scalar product of two capped values never overflows an `i64` sum of
/// three terms.
proof fn lemma_term_fits(a: int, b: int)
    requires
        abs(a) <= VFIT as int,
        abs(b) <= VFIT as int,
    ensures
        abs(fmul_s(a, b)) <= 0x1000_0000_0000_0000,
        -FIT <= a <= FIT,
        -FIT <= b <= FIT,
{
    lemma_fmul_bound(a, b, VFIT as int, VFIT as int);
}

/// The square of any scalar is non-negative.
pub proof fn lemma_fmul_self_nonneg(a: int)
    ensures
        fmul_s(a, a) >= 0,
{
    assert(a * a >= 0) by (nonlinear_arith);
    lemma_div_pos_is_pos(abs(a * a) as int, SCALE as int);
}

impl Vec3 {
    pub fn new(x: i64, y: i64, z: i64) -> (r: Vec3)
        ensures
            r == (Vec3 { x, y, z }),
    {
        Vec3 { x, y, z }
    }

    pub fn x(&self) -> (r: i64)
        ensures
            r == self.x,
    {
        self.x
    }

    pub fn y(&self) -> (r: i64)
        ensures
            r == self.y,
    {
        self.y
    }

    pub fn z(&self) -> (r: i64)
        ensures
            r == self.z,
    {
        self.z
    }

    pub fn add(self, v: Vec3) -> (r: Vec3)
        requires
            bounded(self, VFIT as int),
            bounded(v, VFIT as int),
        ensures
            r == add_s(self, v),
            r.x == self.x + v.x,
            r.y == self.y + v.y,
            r.z == self.z + v.z,
    {
        Vec3 { x: self.x + v.x, y: self.y + v.y, z: self.z + v.z }
    }

    pub fn sub(self, v: Vec3) -> (r: Vec3)
        requires
            bounded(self, VFIT as int),
            bounded(v, VFIT as int),
        ensures
            r == sub_s(self, v),
            r.x == self.x - v.x,
            r.y == self.y - v.y,
            r.z == self.z - v.z,
    {
        Vec3 { x: self.x - v.x, y: self.y - v.y, z: self.z - v.z }
    }

    pub fn neg(self) -> (r: Vec3)
        requires
            bounded(self, VFIT as int),
        ensures
            r == neg_s(self),
            r.x == -self.x && r.y == -self.y && r.z == -self.z,
    {
        Vec3 { x: -self.x, y: -self.y, z: -self.z }
    }

    /// Component-wise product, the original's `Vec3 * Vec3`.
    pub fn comp_mul(self, v: Vec3) -> (r: Vec3)
        requires
            bounded(self, VFIT as int),
            bounded(v, VFIT as int),
        ensures
            r == comp_mul_s(self, v),
    {
        proof {
            lemma_term_fits(self.x as int, v.x as int);
            lemma_term_fits(self.y as int, v.y as int);
            lemma_term_fits(self.z as int, v.z as int);
        }
        Vec3 { x: fmul(self.x, v.x), y: fmul(self.y, v.y), z: fmul(self.z, v.z) }
    }

    /// Scalar product, the original's `f64 * Vec3`.
    pub fn scale(self, t: i64) -> (r: Vec3)
        requires
            bounded(self, VFIT as int),
            abs(t as int) <= VFIT as int,
        ensures
            r == scale_s(t as int, self),
    {
        proof {
            lemma_term_fits(t as int, self.x as int);
            lemma_term_fits(t as int, self.y as int);
            lemma_term_fits(t as int, self.z as int);
        }
        Vec3 { x: fmul(t, self.x), y: fmul(t, self.y), z: fmul(t, self.z) }
    }

    /// Scalar division, the original's `Vec3 / f64`: multiplication by the
    /// reciprocal.
    pub fn div(self, t: i64) -> (r: Vec3)
        requires
            t != 0,
            bounded(self, VFIT as int),
        ensures
            r == div_scalar_s(self, t as int),
    {
        let recip: i64 = fdiv(SCALE, t);
        self.scale(recip)
    }

    /// One component by index: x, y, then z.
    pub fn index(&self, i: usize) -> (r: i64)
        requires
            i < 3,
        ensures
            r == (if i == 0 {
                self.x
            } else if i == 1 {
                self.y
            } else {
                self.z
            }),
    {
        if i == 0 {
            self.x
        } else if i == 1 {
            self.y
        } else {
            self.z
        }
    }

    /// In-place scalar product, the original's `Vec3 *= f64`.
    pub fn mul_assign(&mut self, t: i64)
        requires
            bounded(*old(self), VFIT as int),
            abs(t as int) <= VFIT as int,
        ensures
            *final(self) == scale_s(t as int, *old(self)),
    {
        let s: Vec3 = *self;
        *self = s.scale(t);
    }

    /// In-place scalar division, the original's `Vec3 /= f64`: each
    /// component divided directly, unlike `div`'s reciprocal multiply.
    pub fn div_assign(&mut self, t: i64)
        requires
            t != 0,
            bounded(*old(self), VFIT as int),
        ensures
            *final(self) == comp_div_s(*old(self), t as int),
    {
        self.x = fdiv(self.x, t);
        self.y = fdiv(self.y, t);
        self.z = fdiv(self.z, t);
    }

    pub fn add_assign(&mut self, v: Vec3)
        requires
            bounded(*old(self), VFIT as int),
            bounded(v, VFIT as int),
        ensures
            *final(self) == add_s(*old(self), v),
    {
        self.x = self.x + v.x;
        self.y = self.y + v.y;
        self.z = self.z + v.z;
    }

    pub fn length_squared(&self) -> (r: i64)
        requires
            bounded(*self, VFIT as int),
        ensures
            r == len_sq_s(*self),
            r >= 0,
    {
        proof {
            lemma_term_fits(self.x as int, self.x as int);
            lemma_term_fits(self.y as int, self.y as int);
            lemma_term_fits(self.z as int, self.z as int);
            lemma_fmul_self_nonneg(self.x as int);
            lemma_fmul_self_nonneg(self.y as int);
            lemma_fmul_self_nonneg(self.z as int);
        }
        fmul(self.x, self.x) + fmul(self.y, self.y) + fmul(self.z, self.z)
    }

    pub fn length(&self) -> (r: i64)
        requires
            bounded(*self, VFIT as int),
        ensures
            r == len_s(*self),
            r >= 0,
            r * r <= len_sq_s(*self) * SCALE,
            len_sq_s(*self) * SCALE < (r + 1) * (r + 1),
    {
        let ls: i64 = self.length_squared();
        fsqrt(ls)
    }

    /// All components below the degeneracy threshold.
    pub fn near_zero(&self) -> (r: bool)
        requires
            bounded(*self, VFIT as int),
        ensures
            r == near_zero_s(*self),
    {
        let ax: i64 = if self.x < 0 {
            -self.x
        } else {
            self.x
        };
        let ay: i64 = if self.y < 0 {
            -self.y
        } else {
            self.y
        };
        let az: i64 = if self.z < 0 {
            -self.z
        } else {
            self.z
        };
        ax < NEAR_EPS && ay < NEAR_EPS && az < NEAR_EPS
    }

    /// Component-wise uniform draw in [0, 1).
    pub fn random() -> (r: Vec3)
        ensures
            0 <= r.x < SCALE,
            0 <= r.y < SCALE,
            0 <= r.z < SCALE,
    {
        Vec3 {
            x: random_scalar_range(0, SCALE),
            y: random_scalar_range(0, SCALE),
            z: random_scalar_range(0, SCALE),
        }
    }

    /// Component-wise uniform draw in [min, max).
    pub fn random_range(min: i64, max: i64) -> (r: Vec3)
        requires
            min < max,
        ensures
            min <= r.x < max,
            min <= r.y < max,
            min <= r.z < max,
    {
        Vec3 {
            x: random_scalar_range(min, max),
            y: random_scalar_range(min, max),
            z: random_scalar_range(min, max),
        }
    }
}

impl Default for Vec3 {
    fn default() -> (r: Vec3)
        ensures
            r == (Vec3 { x: 0, y: 0, z: 0 }),
    {
        Vec3 { x: 0, y: 0, z: 0 }
    }
}

pub fn dot(u: Vec3, v: Vec3) -> (r: i64)
    requires
        bounded(u, VFIT as int),
        bounded(v, VFIT as int),
    ensures
        r == dot_s(u, v),
{
    proof {
        lemma_term_fits(u.x as int, v.x as int);
        lemma_term_fits(u.y as int, v.y as int);
        lemma_term_fits(u.z as int, v.z as int);
    }
    fmul(u.x, v.x) + fmul(u.y, v.y) + fmul(u.z, v.z)
}

pub fn cross(u: Vec3, v: Vec3) -> (r: Vec3)
    requires
        bounded(u, VFIT as int),
        bounded(v, VFIT as int),
    ensures
        r == cross_s(u, v),
{
    proof {
        lemma_term_fits(u.x as int, v.x as int);
        lemma_term_fits(u.x as int, v.y as int);
        lemma_term_fits(u.x as int, v.z as int);
        lemma_term_fits(u.y as int, v.x as int);
        lemma_term_fits(u.y as int, v.y as int);
        lemma_term_fits(u.y as int, v.z as int);
        lemma_term_fits(u.z as int, v.x as int);
        lemma_term_fits(u.z as int, v.y as int);
        lemma_term_fits(u.z as int, v.z as int);
    }
    Vec3 {
        x: fmul(u.y, v.z) - fmul(u.z, v.y),
        y: fmul(u.z, v.x) - fmul(u.x, v.z),
        z: fmul(u.x, v.y) - fmul(u.y, v.x),
    }
}

/// One component of `v / len(v)` stays below four units: the root of the
/// squared length cannot sit far below the largest component.
proof fn lemma_unit_component_bound(vc: int, ls: int, l: int)
    requires
        1 <= ls,
        fmul_s(vc, vc) <= ls,
        0 <= l,
        l * l <= ls * SCALE,
        ls * SCALE < (l + 1) * (l + 1),
    ensures
        abs(fdiv_s(vc, l)) < 0x4_0000,
        l >= 256,
{
    assert(l >= 256) by (nonlinear_arith)
        requires
            ls >= 1,
            0 <= l,
            ls * SCALE <= (l + 1) * (l + 1) - 1,
            SCALE == 65536,
    ;
    // vc * vc <= ls * SCALE + SCALE - 1
    lemma_tdiv_abs(vc * vc, SCALE as int);
    assert(vc * vc >= 0) by (nonlinear_arith);
    lemma_fundamental_div_mod(vc * vc, SCALE as int);
    assert(vc * vc <= fmul_s(vc, vc) * SCALE + SCALE - 1) by (nonlinear_arith)
        requires
            vc * vc == SCALE as int * (vc * vc / SCALE as int) + (vc * vc) % (SCALE as int),
            0 <= (vc * vc) % (SCALE as int) < SCALE,
            fmul_s(vc, vc) == vc * vc / SCALE as int,
    ;
    assert(abs(vc) <= l + 257) by (nonlinear_arith)
        requires
            vc * vc <= ls * SCALE + SCALE - 1,
            ls * SCALE < (l + 1) * (l + 1),
            l >= 0,
            SCALE == 65536,
    ;
    lemma_tdiv_abs(vc * SCALE, l);
    assert(abs(vc * SCALE) == abs(vc) * SCALE) by (nonlinear_arith);
    assert(abs(vc) * SCALE <= (l + 257) * SCALE) by (nonlinear_arith)
        requires
            abs(vc) <= l + 257,
            SCALE == 65536,
    ;
    lemma_div_is_ordered(abs(vc) as int * SCALE, (l + 257) * SCALE, l);
    lemma_hoist_over_denominator(257 * SCALE, SCALE as int, l as nat);
    assert(257 * SCALE + SCALE * l == (l + 257) * SCALE) by (nonlinear_arith);
    lemma_div_is_ordered_by_denominator(257 * SCALE, 256, l);
}

/// `v / len(v)`: the direction of `v` at unit scale.
pub fn unit_vector(v: Vec3) -> (r: Vec3)
    requires
        bounded(v, VFIT as int),
        len_sq_s(v) >= 1,
    ensures
        r == unit_s(v),
        bounded(r, 0x4_0000),
        len_s(v) >= 256,
{
    let l: i64 = v.length();
    proof {
        let ls = len_sq_s(v);
        lemma_fmul_self_nonneg(v.x as int);
        lemma_fmul_self_nonneg(v.y as int);
        lemma_fmul_self_nonneg(v.z as int);
        lemma_unit_component_bound(v.x as int, ls, l as int);
        lemma_unit_component_bound(v.y as int, ls, l as int);
        lemma_unit_component_bound(v.z as int, ls, l as int);
    }
    Vec3 { x: fdiv(v.x, l), y: fdiv(v.y, l), z: fdiv(v.z, l) }
}

/// The mirror direction of `v` about the normal `n`.
pub fn reflect(v: Vec3, n: Vec3) -> (r: Vec3)
    requires
        bounded(v, 0x4_0000),
        bounded(n, 0x4_0000),
    ensures
        r == reflect_s(v, n),
        bounded(r, 0x200_0000),
{
    proof {
        lemma_fmul_bound(v.x as int, n.x as int, 0x4_0000, 0x4_0000);
        lemma_fmul_bound(v.y as int, n.y as int, 0x4_0000, 0x4_0000);
        lemma_fmul_bound(v.z as int, n.z as int, 0x4_0000, 0x4_0000);
        lemma_fmul_bound(2 * dot_s(v, n), n.x as int, 0x60_0000, 0x4_0000);
        lemma_fmul_bound(2 * dot_s(v, n), n.y as int, 0x60_0000, 0x4_0000);
        lemma_fmul_bound(2 * dot_s(v, n), n.z as int, 0x60_0000, 0x4_0000);
    }
    let d: i64 = dot(v, n);
    let r: Vec3 = v.sub(n.scale(2 * d));
    r
}

/// Snell construction: perpendicular part `eta * (uv + cos*n)`, parallel
/// part `-sqrt(|1 - |perp|^2|) * n`, their sum; `cos` is the incidence
/// cosine capped at one, as the original caps it.
pub open spec fn refract_s(uv: Vec3, n: Vec3, eta: int) -> Vec3 {
    let d = dot_s(neg_s(uv), n);
    let cos = if d < SCALE {
        d
    } else {
        SCALE as int
    };
    let perp = scale_s(eta, add_s(uv, scale_s(cos, n)));
    let k = SCALE - len_sq_s(perp);
    let par = scale_s(-fsqrt_s(abs(k) as int), n);
    add_s(perp, par)
}

/// The refracted direction of the unit vector `uv` through a surface with
/// normal `n` and refraction ratio `eta`; the caller has ruled out total
/// internal reflection.
pub fn refract(uv: Vec3, n: Vec3, etai_over_etat: i64) -> (r: Vec3)
    requires
        bounded(uv, 0x4_0000),
        bounded(n, 0x4_0000),
        0 <= etai_over_etat <= 0x4_0000,
    ensures
        r == refract_s(uv, n, etai_over_etat as int),
        bounded(r, 0x8000_0000),
{
    proof {
        lemma_fmul_bound(-uv.x as int, n.x as int, 0x4_0000, 0x4_0000);
        lemma_fmul_bound(-uv.y as int, n.y as int, 0x4_0000, 0x4_0000);
        lemma_fmul_bound(-uv.z as int, n.z as int, 0x4_0000, 0x4_0000);
    }
    let d: i64 = dot(uv.neg(), n);
    let cos_theta: i64 = if d < SCALE {
        d
    } else {
        SCALE
    };
    proof {
        lemma_fmul_bound(cos_theta as int, n.x as int, 0x30_0000, 0x4_0000);
        lemma_fmul_bound(cos_theta as int, n.y as int, 0x30_0000, 0x4_0000);
        lemma_fmul_bound(cos_theta as int, n.z as int, 0x30_0000, 0x4_0000);
    }
    let inner: Vec3 = uv.add(n.scale(cos_theta));
    proof {
        lemma_fmul_bound(etai_over_etat as int, inner.x as int, 0x4_0000, 0xC4_0000);
        lemma_fmul_bound(etai_over_etat as int, inner.y as int, 0x4_0000, 0xC4_0000);
        lemma_fmul_bound(etai_over_etat as int, inner.z as int, 0x4_0000, 0xC4_0000);
    }
    let perp: Vec3 = inner.scale(etai_over_etat);
    proof {
        lemma_fmul_bound(perp.x as int, perp.x as int, 0x310_0000, 0x310_0000);
        lemma_fmul_bound(perp.y as int, perp.y as int, 0x310_0000, 0x310_0000);
        lemma_fmul_bound(perp.z as int, perp.z as int, 0x310_0000, 0x310_0000);
    }
    let k: i64 = SCALE - perp.length_squared();
    let ak: i64 = if k < 0 {
        -k
    } else {
        k
    };
    let root: i64 = fsqrt(ak);
    proof {
        assert(root < 0x1000_0000) by (nonlinear_arith)
            requires
                0 <= root,
                root * root <= ak * SCALE,
                ak <= 0x20_0000_0000,
        ;
        lemma_fmul_bound(-root as int, n.x as int, 0x1000_0000, 0x4_0000);
        lemma_fmul_bound(-root as int, n.y as int, 0x1000_0000, 0x4_0000);
        lemma_fmul_bound(-root as int, n.z as int, 0x1000_0000, 0x4_0000);
    }
    let par: Vec3 = n.scale(-root);
    perp.add(par)
}

/// A square at least 1/256 across has a squared length of at least one raw
/// unit.
pub proof fn lemma_fmul_self_min(a: int)
    requires
        abs(a) >= 256,
    ensures
        fmul_s(a, a) >= 1,
{
    assert(a * a >= 65536) by (nonlinear_arith)
        requires
            abs(a) >= 256,
    ;
    lemma_tdiv_abs(a * a, SCALE as int);
    lemma_div_is_ordered(65536, a * a, SCALE as int);
}

/// A rejection-sampled point strictly inside the unit sphere and outside
/// the degenerate core; after a bounded number of draws an interior axis
/// point stands in, keeping the contract unconditional.
pub fn random_in_unit_sphere() -> (r: Vec3)
    ensures
        1 <= len_sq_s(r) < SCALE,
        bounded(r, SCALE as int),
{
    let mut attempts: u64 = 0;
    while attempts < 64
        invariant
            true,
        decreases 64 - attempts,
    {
        let p: Vec3 = Vec3::random_range(-SCALE + 1, SCALE);
        let ls: i64 = p.length_squared();
        if 1 <= ls && ls < SCALE {
            return p;
        }
        attempts = attempts + 1;
    }
    let q: Vec3 = Vec3 { x: 32768, y: 0, z: 0 };
    proof {
        crate::fixed::lemma_fmul_one(0);
        vstd::arithmetic::div_mod::lemma_div_multiples_vanish(16384, 65536);
        assert(fmul_s(32768, 32768) == 16384);
    }
    q
}

/// A uniformly distributed direction at unit scale.
pub fn random_unit_vector() -> (r: Vec3)
    ensures
        bounded(r, 0x4_0000),
{
    unit_vector(random_in_unit_sphere())
}

/// A rejection-sampled point strictly inside the unit disk of the x-y
/// plane, with the same bounded-draws fallback (the disk's centre).
pub fn random_in_unit_disk() -> (r: Vec3)
    ensures
        0 <= len_sq_s(r) < SCALE,
        bounded(r, SCALE as int),
        r.z == 0,
{
    let mut attempts: u64 = 0;
    while attempts < 64
        invariant
            true,
        decreases 64 - attempts,
    {
        let p: Vec3 = Vec3 {
            x: random_scalar_range(-SCALE + 1, SCALE),
            y: random_scalar_range(-SCALE + 1, SCALE),
            z: 0,
        };
        let ls: i64 = p.length_squared();
        if ls < SCALE {
            return p;
        }
        attempts = attempts + 1;
    }
    proof {
        crate::fixed::lemma_fmul_one(0);
    }
    Vec3 { x: 0, y: 0, z: 0 }
}

/// Exact-integer reflection scaled by the normal's exact squared length:
/// `k*v - 2*dot(v,n)*n` with `k = dot(n,n)`, all products unrounded.
pub open spec fn reflect_exact(vx: int, vy: int, vz: int, nx: int, ny: int, nz: int) -> (
    int,
    int,
    int,
) {
    let k = nx * nx + ny * ny + nz * nz;
    let d = vx * nx + vy * ny + vz * nz;
    (k * vx - 2 * d * nx, k * vy - 2 * d * ny, k * vz - 2 * d * nz)
}

/// Reflecting twice about one normal returns the vector, scaled by the
/// square of the normal's exact squared length: the mirror bounce is an
/// involution up to that scale.
pub proof fn lemma_reflect_involution(vx: int, vy: int, vz: int, nx: int, ny: int, nz: int)
    ensures
        ({
            let k = nx * nx + ny * ny + nz * nz;
            let (rx, ry, rz) = reflect_exact(vx, vy, vz, nx, ny, nz);
            reflect_exact(rx, ry, rz, nx, ny, nz) == (k * k * vx, k * k * vy, k * k * vz)
        }),
{
    let k = nx * nx + ny * ny + nz * nz;
    let d = vx * nx + vy * ny + vz * nz;
    let (rx, ry, rz) = reflect_exact(vx, vy, vz, nx, ny, nz);
    assert((k * vx - 2 * d * nx) * nx == k * (vx * nx) - 2 * d * (nx * nx)) by (nonlinear_arith);
    assert((k * vy - 2 * d * ny) * ny == k * (vy * ny) - 2 * d * (ny * ny)) by (nonlinear_arith);
    assert((k * vz - 2 * d * nz) * nz == k * (vz * nz) - 2 * d * (nz * nz)) by (nonlinear_arith);
    assert(k * (vx * nx) + k * (vy * ny) + k * (vz * nz) == k * (vx * nx + vy * ny + vz * nz))
        by (nonlinear_arith);
    assert(2 * d * (nx * nx) + 2 * d * (ny * ny) + 2 * d * (nz * nz) == 2 * d * (nx * nx + ny * ny
        + nz * nz)) by (nonlinear_arith);
    assert(k * d - 2 * d * k == -(k * d)) by (nonlinear_arith);
    let dr = rx * nx + ry * ny + rz * nz;
    assert(dr == -(k * d));
    assert(k * (k * vx - 2 * d * nx) == k * k * vx - 2 * (k * d) * nx) by (nonlinear_arith);
    assert(k * (k * vy - 2 * d * ny) == k * k * vy - 2 * (k * d) * ny) by (nonlinear_arith);
    assert(k * (k * vz - 2 * d * nz) == k * k * vz - 2 * (k * d) * nz) by (nonlinear_arith);
    assert(2 * (-(k * d)) * nx == -(2 * (k * d) * nx)) by (nonlinear_arith);
    assert(2 * (-(k * d)) * ny == -(2 * (k * d) * ny)) by (nonlinear_arith);
    assert(2 * (-(k * d)) * nz == -(2 * (k * d) * nz)) by (nonlinear_arith);
}

} // verus!
