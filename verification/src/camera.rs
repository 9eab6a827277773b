//! The thin-lens camera: an orthonormal frame and a focal-plane viewport
//! derived once, then rays with a jittered lens origin for depth of field.

use crate::fixed::{fdiv, fdiv_s, fmul, fmul_s, lemma_fmul_bound, lemma_fmul_one, SCALE};
use crate::hittable::{CMAX, DIRB, ORIB};
use crate::ray::Ray;
use crate::vec3::{
    add_s, bounded, cross, cross_s, len_sq_s, random_in_unit_disk, scale_s, sub_s, unit_s,
    unit_vector, Point3, Vec3,
};
use vstd::math::abs;
use vstd::prelude::*;

verus! {

#[derive(Clone, Copy, PartialEq, Eq, Structural, Debug)]
pub struct Camera {
    pub origin: Point3,
    pub lower_left_corner: Point3,
    pub horizontal: Vec3,
    pub vertical: Vec3,
    pub u: Vec3,
    pub v: Vec3,
    pub w: Vec3,
    pub lens_radius: i64,
}

/// The view direction at unit scale.
pub open spec fn cam_w_s(lookfrom: Point3, lookat: Point3) -> Vec3 {
    unit_s(sub_s(lookfrom, lookat))
}

/// The viewport's horizontal unit direction.
pub open spec fn cam_u_s(lookfrom: Point3, lookat: Point3, vup: Vec3) -> Vec3 {
    unit_s(cross_s(vup, cam_w_s(lookfrom, lookat)))
}

/// The viewport's vertical unit direction.
pub open spec fn cam_v_s(lookfrom: Point3, lookat: Point3, vup: Vec3) -> Vec3 {
    cross_s(cam_w_s(lookfrom, lookat), cam_u_s(lookfrom, lookat, vup))
}

/// The whole construction, mirrored: viewport height `2*tan(vfov/2)` and
/// width `aspect * height`, both scaled by the focus distance along the
/// frame; the lens radius is half the aperture.
pub open spec fn camera_s(
    lookfrom: Point3,
    lookat: Point3,
    vup: Vec3,
    tan_half_vfov: int,
    aspect_ratio: int,
    aperture: int,
    focus_dist: int,
) -> Camera {
    let w = cam_w_s(lookfrom, lookat);
    let u = cam_u_s(lookfrom, lookat, vup);
    let v = cam_v_s(lookfrom, lookat, vup);
    let vh = 2 * tan_half_vfov;
    let vw = fmul_s(aspect_ratio, vh);
    let horizontal = scale_s(fmul_s(focus_dist, vw), u);
    let vertical = scale_s(fmul_s(focus_dist, vh), v);
    let half = fdiv_s(SCALE as int, 2 * SCALE);
    let lower_left_corner = sub_s(
        sub_s(sub_s(lookfrom, scale_s(half, horizontal)), scale_s(half, vertical)),
        scale_s(focus_dist, w),
    );
    Camera {
        origin: lookfrom,
        lower_left_corner,
        horizontal,
        vertical,
        u,
        v,
        w,
        lens_radius: fdiv_s(aperture, 2 * SCALE) as i64,
    }
}

/// The bounds `get_ray`'s arithmetic needs, established at construction.
pub open spec fn camera_wf(c: Camera) -> bool {
    &&& bounded(c.origin, CMAX as int)
    &&& bounded(c.horizontal, 0x1000_0000)
    &&& bounded(c.vertical, 0x1000_0000)
    &&& bounded(c.lower_left_corner, 0x2200_0000)
    &&& bounded(c.u, 0x4_0000)
    &&& bounded(c.v, 0x4_0000)
    &&& 0 <= c.lens_radius <= 0x8_0000
}

/// The ray aimed at viewport coordinates `(s, t)` from a lens point `rd`
/// (a unit-disk sample before scaling by the lens radius).
pub open spec fn lens_ray_s(c: Camera, s: int, t: int, rd: Vec3) -> Ray {
    let scaled = scale_s(c.lens_radius as int, rd);
    let offset = add_s(scale_s(scaled.x as int, c.u), scale_s(scaled.y as int, c.v));
    Ray {
        orig: add_s(c.origin, offset),
        dir: sub_s(
            sub_s(
                add_s(
                    add_s(c.lower_left_corner, scale_s(s, c.horizontal)),
                    scale_s(t, c.vertical),
                ),
                c.origin,
            ),
            offset,
        ),
    }
}

/// The pinhole ray: what `get_ray` returns whenever the aperture is zero.
pub open spec fn primary_ray_s(c: Camera, s: int, t: int) -> Ray {
    lens_ray_s(c, s, t, Vec3 { x: 0, y: 0, z: 0 })
}

impl Camera {
    /// Derives the frame and viewport. The tangent of half the vertical
    /// field of view arrives precomputed, since trigonometry has no exact
    /// fixed-point form; the caller converts its angle before calling.
    #[verifier::rlimit(100)]
    pub fn new(
        lookfrom: Point3,
        lookat: Point3,
        vup: Vec3,
        tan_half_vfov: i64,
        aspect_ratio: i64,
        aperture: i64,
        focus_dist: i64,
    ) -> (c: Camera)
        requires
            bounded(lookfrom, CMAX as int),
            bounded(lookat, CMAX as int),
            bounded(vup, CMAX as int),
            0 < tan_half_vfov <= 0x10_0000,
            0 < aspect_ratio <= 0x10_0000,
            0 <= aperture <= 0x10_0000,
            0 < focus_dist <= 0x80_0000,
            len_sq_s(sub_s(lookfrom, lookat)) >= 1,
            len_sq_s(cross_s(vup, cam_w_s(lookfrom, lookat))) >= 1,
            bounded(cam_v_s(lookfrom, lookat, vup), 0x4_0000),
            abs(
                fmul_s(
                    focus_dist as int,
                    fmul_s(aspect_ratio as int, 2 * tan_half_vfov as int),
                ),
            ) <= 0x400_0000,
            abs(fmul_s(focus_dist as int, 2 * tan_half_vfov as int)) <= 0x400_0000,
        ensures
            c == camera_s(
                lookfrom,
                lookat,
                vup,
                tan_half_vfov as int,
                aspect_ratio as int,
                aperture as int,
                focus_dist as int,
            ),
            camera_wf(c),
    {
        let w: Vec3 = unit_vector(lookfrom.sub(lookat));
        proof {
            lemma_fmul_bound(vup.x as int, w.x as int, CMAX as int, 0x4_0000);
            lemma_fmul_bound(vup.x as int, w.y as int, CMAX as int, 0x4_0000);
            lemma_fmul_bound(vup.x as int, w.z as int, CMAX as int, 0x4_0000);
            lemma_fmul_bound(vup.y as int, w.x as int, CMAX as int, 0x4_0000);
            lemma_fmul_bound(vup.y as int, w.y as int, CMAX as int, 0x4_0000);
            lemma_fmul_bound(vup.y as int, w.z as int, CMAX as int, 0x4_0000);
            lemma_fmul_bound(vup.z as int, w.x as int, CMAX as int, 0x4_0000);
            lemma_fmul_bound(vup.z as int, w.y as int, CMAX as int, 0x4_0000);
            lemma_fmul_bound(vup.z as int, w.z as int, CMAX as int, 0x4_0000);
        }
        let u: Vec3 = unit_vector(cross(vup, w));
        let v: Vec3 = cross(w, u);
        let vh: i64 = 2 * tan_half_vfov;
        proof {
            lemma_fmul_bound(aspect_ratio as int, vh as int, 0x10_0000, 0x20_0000);
        }
        let vw: i64 = fmul(aspect_ratio, vh);
        let fw: i64 = fmul(focus_dist, vw);
        let fh: i64 = fmul(focus_dist, vh);
        proof {
            lemma_fmul_bound(fw as int, u.x as int, 0x400_0000, 0x4_0000);
            lemma_fmul_bound(fw as int, u.y as int, 0x400_0000, 0x4_0000);
            lemma_fmul_bound(fw as int, u.z as int, 0x400_0000, 0x4_0000);
            lemma_fmul_bound(fh as int, v.x as int, 0x400_0000, 0x4_0000);
            lemma_fmul_bound(fh as int, v.y as int, 0x400_0000, 0x4_0000);
            lemma_fmul_bound(fh as int, v.z as int, 0x400_0000, 0x4_0000);
        }
        let horizontal: Vec3 = u.scale(fw);
        let vertical: Vec3 = v.scale(fh);
        proof {
            vstd::arithmetic::div_mod::lemma_div_multiples_vanish(32768, 2 * SCALE as int);
            assert(fdiv_s(SCALE as int, 2 * SCALE as int) == 32768);
            lemma_fmul_bound(32768, horizontal.x as int, 32768, 0x1000_0000);
            lemma_fmul_bound(32768, horizontal.y as int, 32768, 0x1000_0000);
            lemma_fmul_bound(32768, horizontal.z as int, 32768, 0x1000_0000);
            lemma_fmul_bound(32768, vertical.x as int, 32768, 0x1000_0000);
            lemma_fmul_bound(32768, vertical.y as int, 32768, 0x1000_0000);
            lemma_fmul_bound(32768, vertical.z as int, 32768, 0x1000_0000);
            lemma_fmul_bound(focus_dist as int, w.x as int, 0x80_0000, 0x4_0000);
            lemma_fmul_bound(focus_dist as int, w.y as int, 0x80_0000, 0x4_0000);
            lemma_fmul_bound(focus_dist as int, w.z as int, 0x80_0000, 0x4_0000);
        }
        let half: i64 = fdiv(SCALE, 2 * SCALE);
        let lower_left_corner: Vec3 = lookfrom.sub(horizontal.scale(half)).sub(
            vertical.scale(half),
        ).sub(w.scale(focus_dist));
        proof {
            crate::fixed::lemma_tdiv_abs(aperture as int * SCALE, 2 * SCALE as int);
            vstd::arithmetic::div_mod::lemma_div_pos_is_pos(
                aperture as int * SCALE,
                2 * SCALE as int,
            );
            vstd::arithmetic::div_mod::lemma_div_is_ordered(
                abs(aperture as int * SCALE) as int,
                0x10_0000int * 0x1_0000,
                2 * SCALE as int,
            );
            assert(aperture as int * SCALE >= 0) by (nonlinear_arith)
                requires
                    aperture >= 0,
                    SCALE == 65536,
            ;
        }
        let lens_radius: i64 = fdiv(aperture, 2 * SCALE);
        Camera { origin: lookfrom, lower_left_corner, horizontal, vertical, u, v, w, lens_radius }
    }

    /// The world-space ray through normalized viewport coordinates
    /// `(s, t)`, its origin jittered on the lens disk; with a zero
    /// aperture the pinhole ray, exactly.
    #[verifier::rlimit(100)]
    pub fn get_ray(&self, s: i64, t: i64) -> (r: Ray)
        requires
            camera_wf(*self),
            0 <= s <= 2 * SCALE,
            0 <= t <= 2 * SCALE,
        ensures
            bounded(r.orig, ORIB as int),
            bounded(r.dir, DIRB as int),
            self.lens_radius == 0 ==> r == primary_ray_s(*self, s as int, t as int),
            exists|rd: Vec3|
                0 <= len_sq_s(rd) < SCALE && rd.z == 0 && r == #[trigger] lens_ray_s(
                    *self,
                    s as int,
                    t as int,
                    rd,
                ),
    {
        let rd: Vec3 = random_in_unit_disk();
        proof {
            lemma_fmul_bound(self.lens_radius as int, rd.x as int, 0x8_0000, SCALE as int);
            lemma_fmul_bound(self.lens_radius as int, rd.y as int, 0x8_0000, SCALE as int);
            lemma_fmul_bound(self.lens_radius as int, rd.z as int, 0x8_0000, SCALE as int);
        }
        let scaled: Vec3 = rd.scale(self.lens_radius);
        proof {
            lemma_fmul_bound(scaled.x as int, self.u.x as int, 0x8_0000, 0x4_0000);
            lemma_fmul_bound(scaled.x as int, self.u.y as int, 0x8_0000, 0x4_0000);
            lemma_fmul_bound(scaled.x as int, self.u.z as int, 0x8_0000, 0x4_0000);
            lemma_fmul_bound(scaled.y as int, self.v.x as int, 0x8_0000, 0x4_0000);
            lemma_fmul_bound(scaled.y as int, self.v.y as int, 0x8_0000, 0x4_0000);
            lemma_fmul_bound(scaled.y as int, self.v.z as int, 0x8_0000, 0x4_0000);
            lemma_fmul_bound(s as int, self.horizontal.x as int, 2 * SCALE as int, 0x1000_0000);
            lemma_fmul_bound(s as int, self.horizontal.y as int, 2 * SCALE as int, 0x1000_0000);
            lemma_fmul_bound(s as int, self.horizontal.z as int, 2 * SCALE as int, 0x1000_0000);
            lemma_fmul_bound(t as int, self.vertical.x as int, 2 * SCALE as int, 0x1000_0000);
            lemma_fmul_bound(t as int, self.vertical.y as int, 2 * SCALE as int, 0x1000_0000);
            lemma_fmul_bound(t as int, self.vertical.z as int, 2 * SCALE as int, 0x1000_0000);
            if self.lens_radius == 0 {
                lemma_fmul_one(rd.x as int);
                lemma_fmul_one(rd.y as int);
                lemma_fmul_one(rd.z as int);
                lemma_fmul_one(self.u.x as int);
                lemma_fmul_one(self.u.y as int);
                lemma_fmul_one(self.u.z as int);
                lemma_fmul_one(self.v.x as int);
                lemma_fmul_one(self.v.y as int);
                lemma_fmul_one(self.v.z as int);
            }
        }
        let offset: Vec3 = self.u.scale(scaled.x).add(self.v.scale(scaled.y));
        let orig: Point3 = self.origin.add(offset);
        let dir: Vec3 = self.lower_left_corner.add(self.horizontal.scale(s)).add(
            self.vertical.scale(t),
        ).sub(self.origin).sub(offset);
        let r: Ray = Ray { orig, dir };
        proof {
            assert(r == lens_ray_s(*self, s as int, t as int, rd));
        }
        r
    }
}

/// Whether every component sits within `m` in magnitude.
fn comp_bounded(v: Vec3, m: i64) -> (r: bool)
    requires
        m >= 0,
    ensures
        r == bounded(v, m as int),
{
    -m <= v.x && v.x <= m && -m <= v.y && v.y <= m && -m <= v.z && v.z <= m
}

/// Checks, executably, the full set of bounds `Camera::new` asks for, so
/// an unverified caller can test a configuration and fail cleanly instead
/// of constructing outside the representable ranges.
pub fn camera_config_ok(
    lookfrom: Point3,
    lookat: Point3,
    vup: Vec3,
    tan_half_vfov: i64,
    aspect_ratio: i64,
    aperture: i64,
    focus_dist: i64,
) -> (ok: bool)
    ensures
        ok == (bounded(lookfrom, CMAX as int) && bounded(lookat, CMAX as int) && bounded(
            vup,
            CMAX as int,
        ) && 0 < tan_half_vfov <= 0x10_0000 && 0 < aspect_ratio <= 0x10_0000 && 0 <= aperture
            <= 0x10_0000 && 0 < focus_dist <= 0x80_0000 && len_sq_s(sub_s(lookfrom, lookat)) >= 1
            && len_sq_s(cross_s(vup, cam_w_s(lookfrom, lookat))) >= 1 && bounded(
            cam_v_s(lookfrom, lookat, vup),
            0x4_0000,
        ) && abs(
            fmul_s(focus_dist as int, fmul_s(aspect_ratio as int, 2 * tan_half_vfov as int)),
        ) <= 0x400_0000 && abs(fmul_s(focus_dist as int, 2 * tan_half_vfov as int))
            <= 0x400_0000),
{
    if !(comp_bounded(lookfrom, CMAX) && comp_bounded(lookat, CMAX) && comp_bounded(vup, CMAX)) {
        return false;
    }
    if !(0 < tan_half_vfov && tan_half_vfov <= 0x10_0000) {
        return false;
    }
    if !(0 < aspect_ratio && aspect_ratio <= 0x10_0000) {
        return false;
    }
    if !(0 <= aperture && aperture <= 0x10_0000) {
        return false;
    }
    if !(0 < focus_dist && focus_dist <= 0x80_0000) {
        return false;
    }
    let diff: Vec3 = lookfrom.sub(lookat);
    if diff.length_squared() < 1 {
        return false;
    }
    let w: Vec3 = unit_vector(diff);
    proof {
        lemma_fmul_bound(vup.x as int, w.x as int, CMAX as int, 0x4_0000);
        lemma_fmul_bound(vup.x as int, w.y as int, CMAX as int, 0x4_0000);
        lemma_fmul_bound(vup.x as int, w.z as int, CMAX as int, 0x4_0000);
        lemma_fmul_bound(vup.y as int, w.x as int, CMAX as int, 0x4_0000);
        lemma_fmul_bound(vup.y as int, w.y as int, CMAX as int, 0x4_0000);
        lemma_fmul_bound(vup.y as int, w.z as int, CMAX as int, 0x4_0000);
        lemma_fmul_bound(vup.z as int, w.x as int, CMAX as int, 0x4_0000);
        lemma_fmul_bound(vup.z as int, w.y as int, CMAX as int, 0x4_0000);
        lemma_fmul_bound(vup.z as int, w.z as int, CMAX as int, 0x4_0000);
    }
    let cuw: Vec3 = cross(vup, w);
    if cuw.length_squared() < 1 {
        return false;
    }
    let u: Vec3 = unit_vector(cuw);
    let v: Vec3 = cross(w, u);
    if !comp_bounded(v, 0x4_0000) {
        return false;
    }
    let vh: i64 = 2 * tan_half_vfov;
    proof {
        lemma_fmul_bound(aspect_ratio as int, vh as int, 0x10_0000, 0x20_0000);
    }
    let vw: i64 = fmul(aspect_ratio, vh);
    let fw: i64 = fmul(focus_dist, vw);
    let fh: i64 = fmul(focus_dist, vh);
    -0x400_0000 <= fw && fw <= 0x400_0000 && -0x400_0000 <= fh && fh <= 0x400_0000
}

} // verus!
