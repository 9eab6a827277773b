//! Laws of the sphere intersection, proved over the exact integer
//! quadratic.

use crate::material::Material;
use crate::ray::Ray;
use crate::sphere::{a2_s, c2_s, disc_s, hb_s, sphere_hit_s, Sphere};
use vstd::prelude::*;

verus! {

/// A ray whose line passes clear of the sphere reports no hit, whatever
/// the interval and material. "Clear" is the exact discriminant test: the
/// leading and constant coefficients of the quadratic outweigh the squared
/// half-slope, which holds precisely when the center sits farther from the
/// ray's line than the radius.
pub proof fn lemma_miss_when_far(s: Sphere, r: Ray, t_min: int, t_max: int, m: Material)
    requires
        a2_s(r) * c2_s(s, r) > hb_s(s, r) * hb_s(s, r),
    ensures
        disc_s(s, r) < 0,
        sphere_hit_s(s, r, t_min, t_max, m) is None,
{
}

/// A ray aimed straight at the center (`center - origin == k * dir`): the
/// half-slope is `-k` times the leading coefficient, and at the exact
/// nearer root the offset from the center, scaled by `a`, is `-sq * dir`
/// for the root's square-root term `sq` — the geometric outward normal is
/// anti-parallel to the ray's direction.
pub proof fn lemma_aimed_at_center(s: Sphere, r: Ray, k: int, sq: int)
    requires
        s.center.x - r.orig.x == k * r.dir.x,
        s.center.y - r.orig.y == k * r.dir.y,
        s.center.z - r.orig.z == k * r.dir.z,
    ensures
        hb_s(s, r) == -(k * a2_s(r)),
        a2_s(r) * (r.orig.x - s.center.x) + (-hb_s(s, r) - sq) * r.dir.x == -(sq * r.dir.x),
        a2_s(r) * (r.orig.y - s.center.y) + (-hb_s(s, r) - sq) * r.dir.y == -(sq * r.dir.y),
        a2_s(r) * (r.orig.z - s.center.z) + (-hb_s(s, r) - sq) * r.dir.z == -(sq * r.dir.z),
{
    let ox = r.orig.x - s.center.x;
    let oy = r.orig.y - s.center.y;
    let oz = r.orig.z - s.center.z;
    let dx = r.dir.x as int;
    let dy = r.dir.y as int;
    let dz = r.dir.z as int;
    let a2 = dx * dx + dy * dy + dz * dz;
    let hb = ox * dx + oy * dy + oz * dz;
    assert(hb == -(k * a2)) by (nonlinear_arith)
        requires
            ox == -(k * dx),
            oy == -(k * dy),
            oz == -(k * dz),
            a2 == dx * dx + dy * dy + dz * dz,
            hb == ox * dx + oy * dy + oz * dz,
    ;
    assert(a2 * ox + (k * a2 - sq) * dx == -(sq * dx)) by (nonlinear_arith)
        requires
            ox == -(k * dx),
    ;
    assert(a2 * oy + (k * a2 - sq) * dy == -(sq * dy)) by (nonlinear_arith)
        requires
            oy == -(k * dy),
    ;
    assert(a2 * oz + (k * a2 - sq) * dz == -(sq * dz)) by (nonlinear_arith)
        requires
            oz == -(k * dz),
    ;
    assert(hb_s(s, r) == hb);
    assert(a2_s(r) == a2);
}

} // verus!
