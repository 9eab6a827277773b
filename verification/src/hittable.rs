//! Hit records, the shape capability, and the shape-material pairing.

use crate::fixed::{lemma_fmul_neg, SCALE};
use crate::material::Material;
use crate::ray::Ray;
use crate::sphere::{sphere_hit_s, sphere_wf, Sphere};
use crate::vec3::{bounded, dot, dot_s, len_sq_s, neg_s, Point3, Vec3};
use vstd::prelude::*;

verus! {

/// Magnitude cap on a ray origin and on a reported hit point.
pub const ORIB: i64 = 0x2000_0000;

/// Magnitude cap on a ray direction; every scatter direction stays inside.
pub const DIRB: i64 = 0x8000_0000;

/// Magnitude cap on sphere centers and radii.
pub const CMAX: i64 = 0x1000_0000;

/// The far bound a scene query starts from: the representable horizon.
pub const T_LIMIT: i64 = 0x4_0000_0000;

/// Per-component cap a reported surface normal respects.
pub const NB: i64 = 0x1_1000;

/// Window the squared length of a reported outward normal lies in; a normal
/// further from unit length than rounding allows is rejected as degenerate.
pub const NLS_MIN: i64 = 0x8000;

pub const NLS_MAX: i64 = 0x2_0000;

#[derive(Clone, Copy, PartialEq, Eq, Structural, Debug)]
pub struct HitRecord {
    pub p: Point3,
    pub normal: Vec3,
    pub t: i64,
    pub front_face: bool,
    pub material: Material,
}

/// What every hit record handed out by a scene query satisfies.
pub open spec fn hit_record_wf(h: HitRecord) -> bool {
    &&& bounded(h.p, ORIB as int)
    &&& bounded(h.normal, NB as int)
    &&& NLS_MIN <= len_sq_s(h.normal) <= NLS_MAX
    &&& 0 <= h.t
}

impl HitRecord {
    /// Orients the normal against the incoming ray and records whether the
    /// geometric outward normal already opposed it.
    pub fn set_face_normal(&mut self, r: Ray, outward_normal: Vec3)
        requires
            bounded(r.dir, DIRB as int),
            bounded(outward_normal, NB as int),
        ensures
            final(self).front_face == (dot_s(r.dir, outward_normal) < 0),
            final(self).normal == (if dot_s(r.dir, outward_normal) < 0 {
                outward_normal
            } else {
                neg_s(outward_normal)
            }),
            final(self).p == old(self).p,
            final(self).t == old(self).t,
            final(self).material == old(self).material,
            dot_s(r.dir, final(self).normal) <= 0,
            len_sq_s(final(self).normal) == len_sq_s(outward_normal),
            bounded(final(self).normal, NB as int),
    {
        proof {
            lemma_fmul_neg(r.dir.x as int, outward_normal.x as int);
            lemma_fmul_neg(r.dir.y as int, outward_normal.y as int);
            lemma_fmul_neg(r.dir.z as int, outward_normal.z as int);
            lemma_fmul_neg(outward_normal.x as int, outward_normal.x as int);
            lemma_fmul_neg(outward_normal.y as int, outward_normal.y as int);
            lemma_fmul_neg(outward_normal.z as int, outward_normal.z as int);
        }
        self.front_face = dot(r.direction(), outward_normal) < 0;
        self.normal = if self.front_face {
            outward_normal
        } else {
            outward_normal.neg()
        };
    }
}

/// The shape capability: a closed sum, since the sphere is the one surface
/// implemented.
#[derive(Clone, Copy, PartialEq, Eq, Structural, Debug)]
pub enum Shape {
    Sphere(Sphere),
}

pub open spec fn shape_wf(sh: Shape) -> bool {
    match sh {
        Shape::Sphere(s) => sphere_wf(s),
    }
}

/// The closest intersection a shape reports for `r` within `[t_min, t_max]`,
/// carrying the material the caller pairs with it.
pub open spec fn shape_hit_s(sh: Shape, r: Ray, t_min: int, t_max: int, m: Material) -> Option<
    HitRecord,
> {
    match sh {
        Shape::Sphere(s) => sphere_hit_s(s, r, t_min, t_max, m),
    }
}

impl Shape {
    pub fn hit(&self, r: Ray, t_min: i64, t_max: i64, material: Material) -> (res: Option<
        HitRecord,
    >)
        requires
            shape_wf(*self),
            bounded(r.orig, ORIB as int),
            bounded(r.dir, DIRB as int),
            0 <= t_min,
            t_max <= T_LIMIT,
        ensures
            res == shape_hit_s(*self, r, t_min as int, t_max as int, material),
            res matches Some(h) ==> hit_record_wf(h) && h.material == material && t_min <= h.t
                <= t_max && dot_s(r.dir, h.normal) <= 0,
    {
        match self {
            Shape::Sphere(s) => s.hit(r, t_min, t_max, material),
        }
    }
}

/// One scene entry: a surface and the material light meets there.
#[derive(Clone, Copy, PartialEq, Eq, Structural, Debug)]
pub struct Hittable {
    pub shape: Shape,
    pub material: Material,
}

impl Hittable {
    pub fn new(shape: Shape, material: Material) -> (r: Hittable)
        ensures
            r == (Hittable { shape, material }),
    {
        Hittable { shape, material }
    }
}

} // verus!
