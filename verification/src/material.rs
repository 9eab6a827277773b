//! The three optical materials: their data, bounds, and scattering rules.

use crate::fixed::{
    fdiv, fdiv_s, fmul, fmul_s, fsqrt, lemma_fmul_bound, lemma_fmul_one, lemma_tdiv_abs, SCALE,
};
use crate::hittable::{hit_record_wf, HitRecord, DIRB, NB};
use crate::ray::Ray;
use crate::vec3::{
    add_s, bounded, dot, dot_s, len_sq_s, lemma_fmul_self_min, lemma_fmul_self_nonneg,
    near_zero_s, neg_s, random_in_unit_sphere, random_unit_vector, reflect, reflect_s, refract,
    refract_s, scale_s, unit_s, unit_vector, Color, Vec3,
};
use vstd::arithmetic::div_mod::{lemma_div_is_ordered, lemma_div_is_ordered_by_denominator};
use vstd::math::abs;
use vstd::prelude::*;

verus! {

/// Smallest admitted refractive index, one quarter.
pub const IR_MIN: i64 = 0x4000;

/// Largest admitted refractive index, four.
pub const IR_MAX: i64 = 0x4_0000;

/// A closed sum of the scattering behaviours; instances are plain immutable
/// data, freely copied wherever the original shared them by reference.
#[derive(Clone, Copy, PartialEq, Eq, Structural, Debug)]
pub enum Material {
    Lambertian { albedo: Color },
    Metal { albedo: Color, fuzz: i64 },
    Dielectric { refractive_index: i64 },
}

/// An albedo is a colour with components in [0, 1].
pub open spec fn albedo_wf(c: Color) -> bool {
    0 <= c.x <= SCALE && 0 <= c.y <= SCALE && 0 <= c.z <= SCALE
}

/// The bounds every material is built under: albedo in [0, 1] per
/// component, fuzz in [0, 1], refractive index in [1/4, 4].
pub open spec fn material_wf(m: Material) -> bool {
    match m {
        Material::Lambertian { albedo } => albedo_wf(albedo),
        Material::Metal { albedo, fuzz } => albedo_wf(albedo) && 0 <= fuzz <= SCALE,
        Material::Dielectric { refractive_index } => IR_MIN <= refractive_index <= IR_MAX,
    }
}

/// What a scatter produces: the attenuation and the outgoing ray.
#[derive(Clone, Copy, PartialEq, Eq, Structural, Debug)]
pub struct Scatter {
    pub attenuation: Color,
    pub scattered: Ray,
}

/// The refraction ratio a dielectric uses: inverted on a front face.
pub open spec fn dielectric_ratio_s(front_face: bool, refractive_index: int) -> int {
    if front_face {
        fdiv_s(SCALE as int, refractive_index)
    } else {
        refractive_index
    }
}

/// The incidence cosine a dielectric computes, capped at one as the
/// original caps it.
pub open spec fn dielectric_cos_s(uv: Vec3, n: Vec3) -> int {
    let d = dot_s(neg_s(uv), n);
    if d < SCALE {
        d
    } else {
        SCALE as int
    }
}

/// The incidence sine from that cosine, floored at zero against grid slop
/// in the unit length.
pub open spec fn dielectric_sin_s(uv: Vec3, n: Vec3) -> int {
    let cq = fmul_s(dielectric_cos_s(uv, n), dielectric_cos_s(uv, n));
    crate::fixed::fsqrt_s(
        if cq <= SCALE {
            SCALE - cq
        } else {
            0
        },
    )
}

/// Snell's law admits no refracted solution: the scaled sine exceeds one.
pub open spec fn total_internal_reflection_s(uv: Vec3, n: Vec3, ratio: int) -> bool {
    fmul_s(ratio, dielectric_sin_s(uv, n)) > SCALE
}

/// The Schlick reflectance: `r0 + (1 - r0) * (1 - cos)^5` with
/// `r0 = ((1 - n) / (1 + n))^2`.
pub open spec fn reflectance_s(cosine: int, ref_idx: int) -> int {
    let r0 = fdiv_s(SCALE - ref_idx, SCALE + ref_idx);
    let r0sq = fmul_s(r0, r0);
    let omc = SCALE - cosine;
    let p5 = fmul_s(fmul_s(fmul_s(fmul_s(omc, omc), omc), omc), omc);
    r0sq + fmul_s(SCALE - r0sq, p5)
}

/// Schlick's closed-form estimate of a dielectric's reflectance.
pub fn reflectance(cosine: i64, ref_idx: i64) -> (r: i64)
    requires
        0 < ref_idx <= IR_MAX,
        -0x10_0000 <= cosine <= SCALE,
    ensures
        r == reflectance_s(cosine as int, ref_idx as int),
{
    proof {
        lemma_tdiv_abs((SCALE - ref_idx) as int * SCALE, (SCALE + ref_idx) as int);
        lemma_div_is_ordered(
            abs((SCALE - ref_idx) as int * SCALE) as int,
            0x5_0000int * 0x1_0000,
            (SCALE + ref_idx) as int,
        );
        lemma_div_is_ordered_by_denominator(0x5_0000int * 0x1_0000, SCALE as int, (SCALE
            + ref_idx) as int);
    }
    let r0: i64 = fdiv(SCALE - ref_idx, SCALE + ref_idx);
    proof {
        lemma_fmul_bound(r0 as int, r0 as int, 0x5_0000, 0x5_0000);
    }
    let r0sq: i64 = fmul(r0, r0);
    let omc: i64 = SCALE - cosine;
    proof {
        lemma_fmul_bound(omc as int, omc as int, 0x11_0000, 0x11_0000);
        lemma_fmul_bound(fmul_s(omc as int, omc as int), omc as int, 0x121_0000, 0x11_0000);
        lemma_fmul_bound(
            fmul_s(fmul_s(omc as int, omc as int), omc as int),
            omc as int,
            0x1331_0000,
            0x11_0000,
        );
        lemma_fmul_bound(
            fmul_s(fmul_s(fmul_s(omc as int, omc as int), omc as int), omc as int),
            omc as int,
            0x1_4641_0000,
            0x11_0000,
        );
    }
    let p5: i64 = fmul(fmul(fmul(fmul(omc, omc), omc), omc), omc);
    proof {
        lemma_fmul_self_nonneg(r0 as int);
        lemma_fmul_bound((SCALE - r0sq) as int, p5 as int, 0x1A_0000, 0x15_AA51_0000);
    }
    r0sq + fmul(SCALE - r0sq, p5)
}

impl Material {
    /// Decides whether light continues past a hit, and with what
    /// attenuation and direction.
    ///
    /// Lambertian: the normal plus a random unit vector, falling back to
    /// the bare normal when that sum degenerates; always scatters. Metal:
    /// the mirror direction fuzzed by a random interior point, absorbed if
    /// the result leaves the surface's upper half-space or degenerates on
    /// the fixed-point grid. Dielectric: reflects on total internal
    /// reflection or a Schlick draw, else refracts; never absorbs.
    pub fn scatter(&self, r_in: Ray, rec: &HitRecord) -> (res: Option<Scatter>)
        requires
            material_wf(*self),
            hit_record_wf(*rec),
            bounded(r_in.dir, DIRB as int),
            len_sq_s(r_in.dir) >= 1,
        ensures
            res matches Some(sc) ==> sc.scattered.orig == rec.p && bounded(
                sc.scattered.dir,
                DIRB as int,
            ) && len_sq_s(sc.scattered.dir) >= 1 && albedo_wf(sc.attenuation),
            self matches Material::Lambertian { albedo } ==> (res matches Some(sc)
                && sc.attenuation == albedo),
            self matches Material::Metal { albedo, fuzz } ==> (res matches Some(sc)
                ==> sc.attenuation == albedo && dot_s(sc.scattered.dir, rec.normal) > 0),
            (self matches Material::Metal { albedo, fuzz } && fuzz == 0 && res matches Some(sc))
                ==> res->Some_0.scattered.dir == reflect_s(unit_s(r_in.dir), rec.normal),
            (self matches Material::Metal { albedo, fuzz } && fuzz == 0) ==> (res is Some <==> (
            dot_s(reflect_s(unit_s(r_in.dir), rec.normal), rec.normal) > 0 && len_sq_s(
                reflect_s(unit_s(r_in.dir), rec.normal),
            ) >= 1)),
            self matches Material::Dielectric { refractive_index } ==> (res matches Some(sc) && (
            sc.scattered.dir == reflect_s(unit_s(r_in.dir), rec.normal) || sc.scattered.dir
                == refract_s(
                unit_s(r_in.dir),
                rec.normal,
                dielectric_ratio_s(rec.front_face, refractive_index as int),
            ) || sc.scattered.dir == rec.normal)),
            (self matches Material::Dielectric { refractive_index }
                && total_internal_reflection_s(
                unit_s(r_in.dir),
                rec.normal,
                dielectric_ratio_s(rec.front_face, refractive_index as int),
            )) ==> (res->Some_0.scattered.dir == reflect_s(unit_s(r_in.dir), rec.normal)
                || res->Some_0.scattered.dir == rec.normal),
            self is Dielectric ==> (res matches Some(sc) && sc.attenuation == (Color {
                x: SCALE,
                y: SCALE,
                z: SCALE,
            })),
    {
        match *self {
            Material::Lambertian { albedo } => {
                let ru: Vec3 = random_unit_vector();
                let mut dir: Vec3 = rec.normal.add(ru);
                if dir.near_zero() {
                    dir = rec.normal;
                    proof {
                        assert(len_sq_s(dir) >= 1);
                    }
                } else {
                    proof {
                        lemma_scatter_dir_nonzero(dir);
                    }
                }
                Some(
                    Scatter {
                        attenuation: albedo,
                        scattered: Ray { orig: rec.p, dir },
                    },
                )
            },
            Material::Metal { albedo, fuzz } => {
                let unit_in: Vec3 = unit_vector(r_in.dir);
                let reflected: Vec3 = reflect(unit_in, rec.normal);
                let sp: Vec3 = random_in_unit_sphere();
                proof {
                    lemma_fmul_bound(fuzz as int, sp.x as int, SCALE as int, SCALE as int);
                    lemma_fmul_bound(fuzz as int, sp.y as int, SCALE as int, SCALE as int);
                    lemma_fmul_bound(fuzz as int, sp.z as int, SCALE as int, SCALE as int);
                    if fuzz == 0 {
                        lemma_fmul_one(sp.x as int);
                        lemma_fmul_one(sp.y as int);
                        lemma_fmul_one(sp.z as int);
                    }
                }
                let dir: Vec3 = reflected.add(sp.scale(fuzz));
                let ls: i64 = dir.length_squared();
                if dot(dir, rec.normal) > 0 && ls >= 1 {
                    Some(
                        Scatter {
                            attenuation: albedo,
                            scattered: Ray { orig: rec.p, dir },
                        },
                    )
                } else {
                    None
                }
            },
            Material::Dielectric { refractive_index } => {
                let refraction_ratio: i64 = if rec.front_face {
                    proof {
                        lemma_tdiv_abs(SCALE as int * SCALE, refractive_index as int);
                        lemma_div_is_ordered_by_denominator(
                            SCALE as int * SCALE,
                            IR_MIN as int,
                            refractive_index as int,
                        );
                        lemma_div_is_ordered_by_denominator(
                            SCALE as int * SCALE,
                            refractive_index as int,
                            IR_MAX as int,
                        );
                        vstd::arithmetic::div_mod::lemma_div_pos_is_pos(
                            SCALE as int * SCALE,
                            refractive_index as int,
                        );
                    }
                    fdiv(SCALE, refractive_index)
                } else {
                    refractive_index
                };
                let unit_direction: Vec3 = unit_vector(r_in.dir);
                proof {
                    lemma_fmul_bound(-unit_direction.x as int, rec.normal.x as int, 0x4_0000, NB as int);
                    lemma_fmul_bound(-unit_direction.y as int, rec.normal.y as int, 0x4_0000, NB as int);
                    lemma_fmul_bound(-unit_direction.z as int, rec.normal.z as int, 0x4_0000, NB as int);
                }
                let cos_d: i64 = dot(unit_direction.neg(), rec.normal);
                let cos_theta: i64 = if cos_d < SCALE {
                    cos_d
                } else {
                    SCALE
                };
                proof {
                    lemma_fmul_bound(cos_theta as int, cos_theta as int, 0x11_0000, 0x11_0000);
                    lemma_fmul_self_nonneg(cos_theta as int);
                }
                let cos_sq: i64 = fmul(cos_theta, cos_theta);
                let sin_sq: i64 = if cos_sq <= SCALE {
                    SCALE - cos_sq
                } else {
                    0
                };
                let sin_theta: i64 = fsqrt(sin_sq);
                proof {
                    assert(sin_theta <= SCALE) by (nonlinear_arith)
                        requires
                            0 <= sin_theta,
                            sin_theta * sin_theta <= sin_sq * SCALE,
                            sin_sq <= SCALE,
                            SCALE == 65536,
                    ;
                    lemma_fmul_bound(refraction_ratio as int, sin_theta as int, IR_MAX as int, SCALE as int);
                }
                let cannot_refract: bool = fmul(refraction_ratio, sin_theta) > SCALE;
                let dir0: Vec3 = if cannot_refract || reflectance(cos_theta, refraction_ratio)
                    > crate::util::random_scalar() {
                    reflect(unit_direction, rec.normal)
                } else {
                    refract(unit_direction, rec.normal, refraction_ratio)
                };
                let ls0: i64 = dir0.length_squared();
                let dir: Vec3 = if ls0 >= 1 {
                    dir0
                } else {
                    rec.normal
                };
                Some(
                    Scatter {
                        attenuation: Color { x: SCALE, y: SCALE, z: SCALE },
                        scattered: Ray { orig: rec.p, dir },
                    },
                )
            },
        }
    }
}

/// A direction that escapes the near-zero test has a component of at least
/// 1/256, so its squared length registers on the grid.
proof fn lemma_scatter_dir_nonzero(v: Vec3)
    requires
        !near_zero_s(v),
        bounded(v, crate::vec3::VFIT as int),
    ensures
        len_sq_s(v) >= 1,
{
    lemma_fmul_self_nonneg(v.x as int);
    lemma_fmul_self_nonneg(v.y as int);
    lemma_fmul_self_nonneg(v.z as int);
    if abs(v.x as int) >= 256 {
        lemma_fmul_self_min(v.x as int);
    } else if abs(v.y as int) >= 256 {
        lemma_fmul_self_min(v.y as int);
    } else {
        lemma_fmul_self_min(v.z as int);
    }
}

} // verus!
