//! Turning an accumulated pixel sum into one 8-bit RGB triple.

use crate::fixed::{
    fdiv, fdiv_s, fmul, fmul_s, fsqrt, fsqrt_s, lemma_fmul_nonneg, lemma_tdiv_abs, SCALE,
};
use crate::util::{clamp, clamp_s};
use crate::vec3::Color;
use vstd::math::abs;
use vstd::prelude::*;

verus! {

/// Largest admitted sample count per pixel.
pub const SAMPLES_MAX: i64 = 65536;

/// One channel of `write_color`: average over the samples, gamma-2 correct
/// with a square root, clamp to [0, 0.999], scale by 256.
pub open spec fn channel_s(c: int, samples: int) -> int {
    let scale = fdiv_s(SCALE as int, samples * SCALE);
    let v = fmul_s(scale, c);
    let g = fsqrt_s(v);
    let cl = clamp_s(g, 0, 65470);
    256 * cl / SCALE as int
}

/// One gamma-corrected, clamped, quantized channel.
fn channel(c: i64, samples: i64) -> (b: u8)
    requires
        1 <= samples <= SAMPLES_MAX,
        0 <= c <= samples * SCALE,
    ensures
        b == channel_s(c as int, samples as int),
{
    proof {
        lemma_tdiv_abs(SCALE as int * SCALE, samples as int * SCALE);
        vstd::arithmetic::div_mod::lemma_div_pos_is_pos(
            SCALE as int * SCALE,
            samples as int * SCALE,
        );
        assert(0 < samples as int * SCALE <= 0x1_0000_0000) by (nonlinear_arith)
            requires
                1 <= samples <= 65536,
                SCALE == 65536,
        ;
    }
    let div: i64 = samples * SCALE;
    let scale: i64 = fdiv(SCALE, div);
    proof {
        lemma_fmul_nonneg(scale as int, c as int);
        crate::fixed::lemma_fmul_bound(scale as int, c as int, 0x1_0000_0000, 0x1_0000_0000);
    }
    let v: i64 = fmul(scale, c);
    let g: i64 = fsqrt(v);
    let cl: i64 = clamp(g, 0, 65470);
    let wide: u64 = (256 * cl) as u64;
    proof {
        assert(wide / 65536 == 256 * cl as int / SCALE as int);
        assert(wide / 65536 <= 255);
    }
    (wide / 65536) as u8
}

/// The RGB triple a pixel's accumulated colour quantizes to, averaged over
/// its sample count and gamma-corrected; each channel lands in 0..=255.
pub fn write_color(pixel_color: Color, samples_per_pixel: i64) -> (rgb: (u8, u8, u8))
    requires
        1 <= samples_per_pixel <= SAMPLES_MAX,
        0 <= pixel_color.x <= samples_per_pixel * SCALE,
        0 <= pixel_color.y <= samples_per_pixel * SCALE,
        0 <= pixel_color.z <= samples_per_pixel * SCALE,
    ensures
        rgb.0 == channel_s(pixel_color.x as int, samples_per_pixel as int),
        rgb.1 == channel_s(pixel_color.y as int, samples_per_pixel as int),
        rgb.2 == channel_s(pixel_color.z as int, samples_per_pixel as int),
{
    (
        channel(pixel_color.x, samples_per_pixel),
        channel(pixel_color.y, samples_per_pixel),
        channel(pixel_color.z, samples_per_pixel),
    )
}

} // verus!
