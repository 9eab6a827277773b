//! Scalar helpers: clamping and the uniform random draws.
//!
//! The two random functions are the only places the library touches an
//! outside crate; everything downstream of a draw is verified for every
//! value the stated range admits.

use crate::fixed::SCALE;
use vstd::prelude::*;

verus! {

/// The value of `clamp`.
pub open spec fn clamp_s(x: int, min: int, max: int) -> int {
    if x < min {
        min
    } else if x > max {
        max
    } else {
        x
    }
}

/// Clamps `x` into `[min, max]`.
pub fn clamp(x: i64, min: i64, max: i64) -> (r: i64)
    requires
        min <= max,
    ensures
        r == clamp_s(x as int, min as int, max as int),
        min <= r <= max,
{
    if x < min {
        return min;
    }
    if x > max {
        return max;
    }
    x
}

/// Relies on rand::distributions::Uniform::from(min..max) sampled with
/// rand::thread_rng: the draw is uniform over the half-open range
/// [min, max); `Uniform::from` panics on an empty range, hence the bound.
#[verifier::external_body]
pub fn random_scalar_range(min: i64, max: i64) -> (r: i64)
    requires
        min < max,
    ensures
        min <= r < max,
{
    let mut rng = rand::thread_rng();
    let uniform = rand::distributions::Uniform::from(min..max);
    rand::distributions::Distribution::sample(&uniform, &mut rng)
}

/// A uniform draw in [0, 1): in raw units, [0, SCALE).
pub fn random_scalar() -> (r: i64)
    ensures
        0 <= r < SCALE,
{
    random_scalar_range(0, SCALE)
}

} // verus!
