//! Ray-sphere intersection.
//!
//! The quadratic `a*t^2 + 2*hb*t + c = 0` is evaluated exactly in wide
//! integers: no rounding touches the discriminant, so "missed" and "hit"
//! are decided precisely. Only the root itself is rounded, once, into
//! fixed-point; a hit whose point or normal falls outside the representable
//! window is reported as a miss.

use crate::fixed::{
    fdiv, fdiv_s, fmul, fmul_s, fsqrt, isqrt, isqrt_s, lemma_fmul_bound, lemma_mul_bound,
    lemma_tdiv_abs, mul_wide, tdiv, tdiv_wide, SCALE,
};
use crate::hittable::{hit_record_wf, HitRecord, CMAX, DIRB, NB, NLS_MAX, NLS_MIN, ORIB, T_LIMIT};
use crate::material::Material;
use crate::ray::{at_s, Ray};
use crate::vec3::{bounded, dot_s, len_sq_s, neg_s, Point3, Vec3};
use vstd::arithmetic::div_mod::lemma_div_is_ordered;
use vstd::math::abs;
use vstd::prelude::*;

verus! {

#[derive(Clone, Copy, PartialEq, Eq, Structural, Debug)]
pub struct Sphere {
    pub center: Point3,
    pub radius: i64,
}

/// A negative radius is admitted: it flips the outward normal and models a
/// hollow shell. Only zero is excluded.
pub open spec fn sphere_wf(s: Sphere) -> bool {
    bounded(s.center, CMAX as int) && s.radius != 0 && abs(s.radius as int) <= CMAX as int
}

/// `dot(dir, dir)`, exact (raw-squared units, no rounding).
pub open spec fn a2_s(r: Ray) -> int {
    r.dir.x * r.dir.x + r.dir.y * r.dir.y + r.dir.z * r.dir.z
}

/// `dot(origin - center, dir)`, exact.
pub open spec fn hb_s(s: Sphere, r: Ray) -> int {
    (r.orig.x - s.center.x) * r.dir.x + (r.orig.y - s.center.y) * r.dir.y + (r.orig.z
        - s.center.z) * r.dir.z
}

/// `dot(origin - center, origin - center) - radius^2`, exact.
pub open spec fn c2_s(s: Sphere, r: Ray) -> int {
    (r.orig.x - s.center.x) * (r.orig.x - s.center.x) + (r.orig.y - s.center.y) * (r.orig.y
        - s.center.y) + (r.orig.z - s.center.z) * (r.orig.z - s.center.z) - s.radius * s.radius
}

/// The discriminant of the half-b quadratic, exact: negative exactly when
/// the ray's line misses the sphere.
pub open spec fn disc_s(s: Sphere, r: Ray) -> int {
    hb_s(s, r) * hb_s(s, r) - a2_s(r) * c2_s(s, r)
}

/// Rounded-down square root of the discriminant.
pub open spec fn sqrt_disc_s(s: Sphere, r: Ray) -> int {
    isqrt_s(abs(disc_s(s, r))) as int
}

/// The smaller root, in fixed-point raw units, rounded toward zero.
pub open spec fn root_near_s(s: Sphere, r: Ray) -> int {
    tdiv((-hb_s(s, r) - sqrt_disc_s(s, r)) * SCALE, a2_s(r))
}

/// The larger root.
pub open spec fn root_far_s(s: Sphere, r: Ray) -> int {
    tdiv((-hb_s(s, r) + sqrt_disc_s(s, r)) * SCALE, a2_s(r))
}

/// Which root, if any, the intersection reports: the nearer root when it
/// lies within `[t_min, t_max]`, else the farther, else none. A degenerate
/// direction (`a == 0`) never hits.
pub open spec fn chosen_root_s(s: Sphere, r: Ray, t_min: int, t_max: int) -> Option<int> {
    if a2_s(r) <= 0 || disc_s(s, r) < 0 {
        Option::None
    } else if t_min <= root_near_s(s, r) && root_near_s(s, r) <= t_max {
        Option::Some(root_near_s(s, r))
    } else if t_min <= root_far_s(s, r) && root_far_s(s, r) <= t_max {
        Option::Some(root_far_s(s, r))
    } else {
        Option::None
    }
}

/// The geometric outward normal at parameter `t`: `(p - center) / radius`;
/// a negative radius flips it, giving the hollow-shell behaviour.
pub open spec fn outward_normal_s(s: Sphere, r: Ray, t: int) -> Vec3 {
    let p = at_s(r, t);
    Vec3 {
        x: fdiv_s(p.x - s.center.x, s.radius as int) as i64,
        y: fdiv_s(p.y - s.center.y, s.radius as int) as i64,
        z: fdiv_s(p.z - s.center.z, s.radius as int) as i64,
    }
}

/// The record a hit at parameter `t` produces: point, oriented normal,
/// front-face flag, and the caller's material.
pub open spec fn sphere_rec_s(s: Sphere, r: Ray, t: int, m: Material) -> HitRecord {
    let p = at_s(r, t);
    let out = outward_normal_s(s, r, t);
    let front = dot_s(r.dir, out) < 0;
    HitRecord {
        p,
        normal: if front {
            out
        } else {
            neg_s(out)
        },
        t: t as i64,
        front_face: front,
        material: m,
    }
}

/// The full intersection result: the chosen root's record, unless its point
/// or normal falls outside the representable window.
pub open spec fn sphere_hit_s(s: Sphere, r: Ray, t_min: int, t_max: int, m: Material) -> Option<
    HitRecord,
> {
    match chosen_root_s(s, r, t_min, t_max) {
        Option::None => Option::None,
        Option::Some(t) => {
            let p = at_s(r, t);
            let out = outward_normal_s(s, r, t);
            if bounded(p, ORIB as int) && bounded(out, NB as int) && NLS_MIN <= len_sq_s(out)
                && len_sq_s(out) <= NLS_MAX {
                Option::Some(sphere_rec_s(s, r, t, m))
            } else {
                Option::None
            }
        },
    }
}

impl Sphere {
    pub fn new(center: Point3, radius: i64) -> (r: Sphere)
        ensures
            r == (Sphere { center, radius }),
    {
        Sphere { center, radius }
    }

    /// Wraps the sphere in the shape capability.
    pub fn into_shape(self) -> (sh: crate::hittable::Shape)
        ensures
            sh == crate::hittable::Shape::Sphere(self),
    {
        crate::hittable::Shape::Sphere(self)
    }

    /// The closest intersection with `r` in `[t_min, t_max]`, if any.
    pub fn hit(&self, r: Ray, t_min: i64, t_max: i64, material: Material) -> (res: Option<
        HitRecord,
    >)
        requires
            sphere_wf(*self),
            bounded(r.orig, ORIB as int),
            bounded(r.dir, DIRB as int),
            0 <= t_min,
            t_max <= T_LIMIT,
        ensures
            res == sphere_hit_s(*self, r, t_min as int, t_max as int, material),
            res matches Some(h) ==> hit_record_wf(h) && h.material == material && t_min <= h.t
                <= t_max && dot_s(r.dir, h.normal) <= 0,
    {
        proof {
            lemma_mul_bound(r.dir.x as int, r.dir.x as int, DIRB as int, DIRB as int);
            lemma_mul_bound(r.dir.y as int, r.dir.y as int, DIRB as int, DIRB as int);
            lemma_mul_bound(r.dir.z as int, r.dir.z as int, DIRB as int, DIRB as int);
            assert(r.dir.x as int * r.dir.x as int >= 0) by (nonlinear_arith);
            assert(r.dir.y as int * r.dir.y as int >= 0) by (nonlinear_arith);
            assert(r.dir.z as int * r.dir.z as int >= 0) by (nonlinear_arith);
        }
        let a2: i128 = mul_wide(r.dir.x, r.dir.x) + mul_wide(r.dir.y, r.dir.y) + mul_wide(
            r.dir.z,
            r.dir.z,
        );
        if a2 <= 0 {
            return None;
        }
        let ocx: i64 = r.orig.x - self.center.x;
        let ocy: i64 = r.orig.y - self.center.y;
        let ocz: i64 = r.orig.z - self.center.z;
        proof {
            lemma_mul_bound(ocx as int, r.dir.x as int, 0x3000_0000, DIRB as int);
            lemma_mul_bound(ocy as int, r.dir.y as int, 0x3000_0000, DIRB as int);
            lemma_mul_bound(ocz as int, r.dir.z as int, 0x3000_0000, DIRB as int);
            lemma_mul_bound(ocx as int, ocx as int, 0x3000_0000, 0x3000_0000);
            lemma_mul_bound(ocy as int, ocy as int, 0x3000_0000, 0x3000_0000);
            lemma_mul_bound(ocz as int, ocz as int, 0x3000_0000, 0x3000_0000);
            lemma_mul_bound(self.radius as int, self.radius as int, CMAX as int, CMAX as int);
        }
        let hb: i128 = mul_wide(ocx, r.dir.x) + mul_wide(ocy, r.dir.y) + mul_wide(ocz, r.dir.z);
        let c2: i128 = mul_wide(ocx, ocx) + mul_wide(ocy, ocy) + mul_wide(ocz, ocz) - mul_wide(
            self.radius,
            self.radius,
        );
        proof {
            lemma_mul_bound(hb as int, hb as int, 0x4800_0000_0000_0000, 0x4800_0000_0000_0000);
            lemma_mul_bound(a2 as int, c2 as int, 0xC000_0000_0000_0000, 0x1C00_0000_0000_0000);
        }
        let disc: i128 = hb * hb - a2 * c2;
        if disc < 0 {
            return None;
        }
        let sq_u: u128 = isqrt(disc as u128);
        proof {
            assert(sq_u < 0x8000_0000_0000_0000) by (nonlinear_arith)
                requires
                    sq_u * sq_u <= (disc as u128),
                    (disc as u128) < 0x3000_0000_0000_0000_0000_0000_0000_0000,
            ;
        }
        let sq: i128 = sq_u as i128;
        let t1: i128 = tdiv_wide((-hb - sq) * 65536, a2);
        let t2: i128 = tdiv_wide((-hb + sq) * 65536, a2);
        let root: i128 = if t_min as i128 <= t1 && t1 <= t_max as i128 {
            t1
        } else if t_min as i128 <= t2 && t2 <= t_max as i128 {
            t2
        } else {
            return None;
        };
        proof {
            assert(chosen_root_s(*self, r, t_min as int, t_max as int) == Option::Some(
                root as int,
            ));
        }
        let t: i64 = root as i64;
        let px: i64 = r.orig.x + self.p_step(t, r.dir.x);
        let py: i64 = r.orig.y + self.p_step(t, r.dir.y);
        let pz: i64 = r.orig.z + self.p_step(t, r.dir.z);
        proof {
            assert(px as int == at_s(r, t as int).x && py as int == at_s(r, t as int).y && pz
                as int == at_s(r, t as int).z);
        }
        if px < -ORIB || px > ORIB || py < -ORIB || py > ORIB || pz < -ORIB || pz > ORIB {
            return None;
        }
        let nx: i64 = fdiv(px - self.center.x, self.radius);
        let ny: i64 = fdiv(py - self.center.y, self.radius);
        let nz: i64 = fdiv(pz - self.center.z, self.radius);
        if nx < -NB || nx > NB || ny < -NB || ny > NB || nz < -NB || nz > NB {
            return None;
        }
        let out: Vec3 = Vec3 { x: nx, y: ny, z: nz };
        let nls: i64 = out.length_squared();
        if nls < NLS_MIN || nls > NLS_MAX {
            return None;
        }
        let mut rec: HitRecord = HitRecord {
            p: Vec3 { x: px, y: py, z: pz },
            normal: out,
            t,
            front_face: false,
            material,
        };
        rec.set_face_normal(r, out);
        Some(rec)
    }

    /// One component of `t * dir`, brought back to raw scale.
    fn p_step(&self, t: i64, d: i64) -> (r: i64)
        requires
            abs(t as int) <= T_LIMIT as int,
            abs(d as int) <= DIRB as int,
        ensures
            r == fmul_s(t as int, d as int),
            abs(r as int) <= 0x2_0000_0000_0000,
    {
        let w: i128 = mul_wide(t, d);
        proof {
            lemma_mul_bound(t as int, d as int, T_LIMIT as int, DIRB as int);
            lemma_tdiv_abs(w as int, SCALE as int);
            lemma_div_is_ordered(
                abs(w as int) as int,
                0x2_0000_0000_0000_0000,
                SCALE as int,
            );
        }
        tdiv_wide(w, 65536) as i64
    }
}


/// The early single-sphere probe: the nearer root of the quadratic, or -1
/// when the discriminant is negative, computed at fixed-point scale
/// throughout.
pub open spec fn hit_sphere_s(center: Point3, radius: int, r: Ray) -> int {
    let oc = crate::vec3::sub_s(r.orig, center);
    let a = dot_s(r.dir, r.dir);
    let half_b = dot_s(oc, r.dir);
    let c = dot_s(oc, oc) - fmul_s(radius, radius);
    let disc = fmul_s(half_b, half_b) - fmul_s(a, c);
    if disc < 0 {
        -1
    } else {
        fdiv_s(-half_b - crate::fixed::fsqrt_s(disc), a)
    }
}

/// Probes one sphere and returns the nearer intersection parameter, or -1
/// on a miss.
pub fn hit_sphere(center: Point3, radius: i64, r: Ray) -> (t: i64)
    requires
        bounded(center, 0x100_0000),
        bounded(r.orig, 0x100_0000),
        bounded(r.dir, 0x100_0000),
        abs(radius as int) <= 0x100_0000,
        len_sq_s(r.dir) >= 1,
    ensures
        t == hit_sphere_s(center, radius as int, r),
{
    proof {
        lemma_fmul_bound(r.dir.x as int, r.dir.x as int, 0x100_0000, 0x100_0000);
        lemma_fmul_bound(r.dir.y as int, r.dir.y as int, 0x100_0000, 0x100_0000);
        lemma_fmul_bound(r.dir.z as int, r.dir.z as int, 0x100_0000, 0x100_0000);
    }
    let oc: Vec3 = r.origin().sub(center);
    proof {
        lemma_fmul_bound(oc.x as int, r.dir.x as int, 0x200_0000, 0x100_0000);
        lemma_fmul_bound(oc.y as int, r.dir.y as int, 0x200_0000, 0x100_0000);
        lemma_fmul_bound(oc.z as int, r.dir.z as int, 0x200_0000, 0x100_0000);
        lemma_fmul_bound(oc.x as int, oc.x as int, 0x200_0000, 0x200_0000);
        lemma_fmul_bound(oc.y as int, oc.y as int, 0x200_0000, 0x200_0000);
        lemma_fmul_bound(oc.z as int, oc.z as int, 0x200_0000, 0x200_0000);
        lemma_fmul_bound(radius as int, radius as int, 0x100_0000, 0x100_0000);
    }
    let a: i64 = crate::vec3::dot(r.direction(), r.direction());
    let half_b: i64 = crate::vec3::dot(oc, r.direction());
    let c: i64 = crate::vec3::dot(oc, oc) - fmul(radius, radius);
    proof {
        lemma_fmul_bound(half_b as int, half_b as int, 0x6_0000_0000, 0x6_0000_0000);
        lemma_fmul_bound(a as int, c as int, 0x3_0000_0000, 0xD_0000_0000);
    }
    let disc: i64 = fmul(half_b, half_b) - fmul(a, c);
    if disc < 0 {
        -1
    } else {
        let root: i64 = fsqrt(disc);
        proof {
            assert(root < 0x10_0000_0000) by (nonlinear_arith)
                requires
                    0 <= root,
                    root * root <= disc as int * SCALE,
                    disc <= 0x4B_0000_0000_0000,
            ;
        }
        fdiv(-half_b - root, a)
    }
}
} // verus!
