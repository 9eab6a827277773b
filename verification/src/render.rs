//! The radiance integrator and the sampling loop.

use crate::camera::{camera_wf, primary_ray_s, Camera};
use crate::color::{channel_s, write_color, SAMPLES_MAX};
use crate::fixed::{
    fdiv, fdiv_s, fmul, fmul_s, lemma_fmul_mono, lemma_fmul_nonneg, lemma_fmul_one,
    lemma_isqrt_unique, lemma_tdiv_abs, SCALE,
};
use crate::hittable::{HitRecord, Hittable, DIRB, ORIB, T_LIMIT};
use crate::material::{Material, Scatter};
use crate::ray::Ray;
use crate::scene::{hit_world, world_hit_s, world_wf};
use crate::util::{clamp, clamp_s, random_scalar};
use crate::vec3::{
    add_s, bounded, len_sq_s, scale_s, sub_s, unit_s, unit_vector, Color, Vec3, VFIT,
};
use vstd::arithmetic::div_mod::{lemma_div_is_ordered, lemma_div_multiples_vanish};
use vstd::math::abs;
use vstd::prelude::*;

verus! {

/// The self-intersection guard (about 0.001): scene queries start just
/// above zero so a bounced ray cannot re-hit its own exit point.
pub const T_EPS: i64 = 66;

/// The sky gradient on a miss: blend white and sky blue by the height of
/// the unit direction, `t = (y + 1) / 2` clamped into [0, 1] against
/// fixed-point slop in the unit length.
pub open spec fn background_s(dir: Vec3) -> Color {
    let ud = unit_s(dir);
    let t = clamp_s(fmul_s(32768, ud.y + SCALE), 0, SCALE as int);
    add_s(
        scale_s(SCALE - t, Vec3 { x: SCALE, y: SCALE, z: SCALE }),
        scale_s(t, Vec3 { x: 32768, y: 45875, z: SCALE }),
    )
}

/// The gradient's endpoints: straight up yields the pure sky-blue colour,
/// straight down pure white.
pub proof fn lemma_background_endpoints()
    ensures
        background_s(Vec3 { x: 0, y: SCALE, z: 0 }) == (Vec3 { x: 32768, y: 45875, z: SCALE }),
        background_s(Vec3 { x: 0, y: -65536i64, z: 0 }) == (Vec3 { x: SCALE, y: SCALE, z: SCALE }),
{
    lemma_fmul_one(0);
    lemma_fmul_one(SCALE as int);
    lemma_fmul_one(32768);
    lemma_fmul_one(45875);
    lemma_fmul_one(-65536);
    assert(65536nat * 65536nat == 4294967296nat) by (nonlinear_arith);
    assert((65536nat + 1) * (65536nat + 1) == 4295098369nat) by (nonlinear_arith);
    lemma_isqrt_unique(4294967296, 65536);
    lemma_div_multiples_vanish(65536, 65536);
    let up = Vec3 { x: 0, y: SCALE, z: 0 };
    assert(len_sq_s(up) == SCALE);
    assert(fsqrt_up() == 65536) by {
        assert((SCALE as int * SCALE) as nat == 4294967296nat);
    }
    assert(unit_s(up) == up);
    let down = Vec3 { x: 0, y: -65536i64, z: 0 };
    assert(fmul_s(-65536, -65536) == 65536) by {
        crate::fixed::lemma_fmul_neg(-65536, 65536);
    }
    assert(len_sq_s(down) == SCALE);
    assert(unit_s(down) == down);
    assert(fmul_s(32768, 131072) == 65536) by {
        lemma_div_multiples_vanish(65536, 65536);
        assert(32768 * 131072 == 65536 * 65536);
    }
    assert(fmul_s(32768, 0) == 0) by {
        lemma_fmul_one(32768);
    }
}

/// Helper naming the root of one squared unit length, to keep the endpoint
/// proof readable.
spec fn fsqrt_up() -> int {
    crate::fixed::fsqrt_s(SCALE as int)
}

/// The background radiance for a ray of direction `dir`.
pub fn background_color(dir: Vec3) -> (c: Color)
    requires
        bounded(dir, DIRB as int),
        len_sq_s(dir) >= 1,
    ensures
        c == background_s(dir),
        0 <= c.x <= SCALE && 0 <= c.y <= SCALE && 0 <= c.z <= SCALE,
{
    let ud: Vec3 = unit_vector(dir);
    let t: i64 = clamp(fmul(32768, ud.y + SCALE), 0, SCALE);
    proof {
        lemma_fmul_one((SCALE - t) as int);
        lemma_fmul_mono(t as int, 32768, SCALE as int);
        lemma_fmul_mono(t as int, 45875, SCALE as int);
        lemma_fmul_one(t as int);
        lemma_fmul_nonneg(t as int, 32768);
        lemma_fmul_nonneg(t as int, 45875);
    }
    let white: Color = Vec3::new(SCALE, SCALE, SCALE);
    let blue: Color = Vec3::new(32768, 45875, SCALE);
    white.scale(SCALE - t).add(blue.scale(t))
}

/// The recursive radiance estimate for one ray.
///
/// A depth of zero is black: the energy budget is spent. A miss is exactly
/// the background gradient. A hit asks the surface's material to scatter:
/// absorption is black, and a scatter recurses with one less bounce,
/// attenuating component-wise. Every component of the result lies in
/// [0, 1], and a matte hit is capped by its own albedo: Lambertian never
/// absorbs, and the attenuation product cannot exceed it.
pub fn ray_color(r: Ray, world: &Vec<Hittable>, depth: i64) -> (c: Color)
    requires
        world_wf(world@),
        bounded(r.orig, ORIB as int),
        bounded(r.dir, DIRB as int),
        len_sq_s(r.dir) >= 1,
    ensures
        0 <= c.x <= SCALE && 0 <= c.y <= SCALE && 0 <= c.z <= SCALE,
        depth <= 0 ==> c == (Vec3 { x: 0, y: 0, z: 0 }),
        depth > 0 && world_hit_s(world@, r, T_EPS as int, T_LIMIT as int) is None ==> c
            == background_s(r.dir),
        depth > 0 ==> (world_hit_s(world@, r, T_EPS as int, T_LIMIT as int) matches Some(h) ==> (
        h.material matches Material::Lambertian { albedo } ==> c.x <= albedo.x && c.y <= albedo.y
            && c.z <= albedo.z)),
    decreases depth,
{
    if depth <= 0 {
        return Vec3::new(0, 0, 0);
    }
    let hit: Option<HitRecord> = hit_world(world, r, T_EPS, T_LIMIT);
    match hit {
        Some(rec) => {
            match rec.material.scatter(r, &rec) {
                Some(sc) => {
                    let child: Color = ray_color(sc.scattered, world, depth - 1);
                    proof {
                        lemma_fmul_mono(sc.attenuation.x as int, child.x as int, SCALE as int);
                        lemma_fmul_mono(sc.attenuation.y as int, child.y as int, SCALE as int);
                        lemma_fmul_mono(sc.attenuation.z as int, child.z as int, SCALE as int);
                        lemma_fmul_mono(child.x as int, sc.attenuation.x as int, SCALE as int);
                        lemma_fmul_one(sc.attenuation.x as int);
                        lemma_fmul_one(sc.attenuation.y as int);
                        lemma_fmul_one(sc.attenuation.z as int);
                    }
                    sc.attenuation.comp_mul(child)
                },
                None => Vec3::new(0, 0, 0),
            }
        },
        None => background_color(r.direction()),
    }
}

/// The normalized viewport coordinate of pixel `i` of `n`, jittered inside
/// the pixel: `(i + jitter) / (n - 1)`.
pub open spec fn ndc_s(i: int, jitter: int, n: int) -> int {
    fdiv_s(i * SCALE + jitter, (n - 1) * SCALE)
}

/// One jittered viewport coordinate; lands in [0, 2].
fn ndc(i: i64, jitter: i64, n: i64) -> (u: i64)
    requires
        2 <= n <= 4096,
        0 <= i < n,
        0 <= jitter < SCALE,
    ensures
        u == ndc_s(i as int, jitter as int, n as int),
        0 <= u <= 2 * SCALE,
{
    let num: i64 = i * SCALE + jitter;
    let den: i64 = (n - 1) * SCALE;
    proof {
        lemma_tdiv_abs(num as int * SCALE, den as int);
        vstd::arithmetic::div_mod::lemma_div_pos_is_pos(num as int * SCALE, den as int);
        assert(num as int * SCALE <= den as int * (2 * SCALE)) by (nonlinear_arith)
            requires
                num <= 2 * (n - 1) as int * SCALE,
                den == (n - 1) as int * SCALE,
                n >= 2,
                SCALE == 65536,
        ;
        lemma_div_is_ordered(num as int * SCALE, den as int * (2 * SCALE), den as int);
        lemma_div_multiples_vanish(2 * SCALE as int, den as int);
        assert(den as int * (2 * SCALE) == (den as int) * (2 * SCALE)) by (nonlinear_arith);
    }
    fdiv(num, den)
}

/// One camera sample of one pixel: the jittered primary ray's radiance
/// with the full depth budget. With a pinhole camera (zero aperture) and a
/// scene the primary ray misses, the sample is exactly the background.
pub fn sample_pixel(
    cam: &Camera,
    world: &Vec<Hittable>,
    i: i64,
    j: i64,
    width: i64,
    height: i64,
    jx: i64,
    jy: i64,
    depth: i64,
) -> (c: Color)
    requires
        camera_wf(*cam),
        world_wf(world@),
        2 <= width <= 4096,
        2 <= height <= 4096,
        0 <= i < width,
        0 <= j < height,
        0 <= jx < SCALE,
        0 <= jy < SCALE,
    ensures
        0 <= c.x <= SCALE && 0 <= c.y <= SCALE && 0 <= c.z <= SCALE,
        depth <= 0 ==> c == (Vec3 { x: 0, y: 0, z: 0 }),
        ({
            let pr = primary_ray_s(
                *cam,
                ndc_s(i as int, jx as int, width as int),
                ndc_s(j as int, jy as int, height as int),
            );
            cam.lens_radius == 0 && depth > 0 && len_sq_s(pr.dir) >= 1 && world_hit_s(
                world@,
                pr,
                T_EPS as int,
                T_LIMIT as int,
            ) is None ==> c == background_s(pr.dir)
        }),
{
    let u: i64 = ndc(i, jx, width);
    let v: i64 = ndc(j, jy, height);
    let r: Ray = cam.get_ray(u, v);
    let ls: i64 = r.dir.length_squared();
    if ls >= 1 {
        ray_color(r, world, depth)
    } else {
        Vec3::new(0, 0, 0)
    }
}

/// One pixel: `samples` independent jittered estimates, averaged and
/// gamma-corrected into a byte triple. With the depth budget exhausted the
/// pixel is exactly quantized black.
pub fn render_pixel(
    cam: &Camera,
    world: &Vec<Hittable>,
    i: i64,
    j: i64,
    width: i64,
    height: i64,
    samples: i64,
    depth: i64,
) -> (rgb: (u8, u8, u8))
    requires
        camera_wf(*cam),
        world_wf(world@),
        2 <= width <= 4096,
        2 <= height <= 4096,
        0 <= i < width,
        0 <= j < height,
        1 <= samples <= SAMPLES_MAX,
    ensures
        depth <= 0 ==> rgb.0 == channel_s(0, samples as int) && rgb.1 == channel_s(
            0,
            samples as int,
        ) && rgb.2 == channel_s(0, samples as int),
{
    let mut pixel_color: Color = Vec3::new(0, 0, 0);
    let mut s: i64 = 0;
    while s < samples
        invariant
            camera_wf(*cam),
            world_wf(world@),
            2 <= width <= 4096,
            2 <= height <= 4096,
            0 <= i < width,
            0 <= j < height,
            1 <= samples <= SAMPLES_MAX,
            0 <= s <= samples,
            0 <= pixel_color.x <= s * SCALE,
            0 <= pixel_color.y <= s * SCALE,
            0 <= pixel_color.z <= s * SCALE,
            depth <= 0 ==> pixel_color == (Vec3 { x: 0, y: 0, z: 0 }),
        decreases samples - s,
    {
        let jx: i64 = random_scalar();
        let jy: i64 = random_scalar();
        let sample: Color = sample_pixel(cam, world, i, j, width, height, jx, jy, depth);
        proof {
            assert((s + 1) * SCALE == s * SCALE + SCALE) by (nonlinear_arith);
        }
        pixel_color.add_assign(sample);
        s = s + 1;
    }
    write_color(pixel_color, samples)
}

/// The full image: pixels in row-major order starting from the top row,
/// each the average of `samples` jittered estimates.
pub fn render(
    cam: &Camera,
    world: &Vec<Hittable>,
    width: i64,
    height: i64,
    samples: i64,
    depth: i64,
) -> (pixels: Vec<(u8, u8, u8)>)
    requires
        camera_wf(*cam),
        world_wf(world@),
        2 <= width <= 4096,
        2 <= height <= 4096,
        1 <= samples <= SAMPLES_MAX,
    ensures
        pixels.len() == width * height,
{
    let mut pixels: Vec<(u8, u8, u8)> = Vec::new();
    let mut j: i64 = height;
    while j > 0
        invariant
            camera_wf(*cam),
            world_wf(world@),
            2 <= width <= 4096,
            2 <= height <= 4096,
            1 <= samples <= SAMPLES_MAX,
            0 <= j <= height,
            pixels.len() == (height - j) * width,
        decreases j,
    {
        j = j - 1;
        let mut i: i64 = 0;
        while i < width
            invariant
                camera_wf(*cam),
                world_wf(world@),
                2 <= width <= 4096,
                2 <= height <= 4096,
                1 <= samples <= SAMPLES_MAX,
                0 <= j < height,
                0 <= i <= width,
                pixels.len() == (height - 1 - j) * width + i,
            decreases width - i,
        {
            let rgb: (u8, u8, u8) = render_pixel(cam, world, i, j, width, height, samples, depth);
            pixels.push(rgb);
            i = i + 1;
        }
        proof {
            assert((height - 1 - j) * width + width == (height - j) * width) by (nonlinear_arith);
        }
    }
    proof {
        assert((height - 0) * width == height * width) by (nonlinear_arith);
    }
    pixels
}

} // verus!
