//! Shared numeric helpers and the renderer's source of randomness.

use crate::fx::{fx_add, fx_add_s, fx_div, fx_div_s, fx_mul, fx_mul_s, fx_sub, fx_sub_s, FX_MAX,
    FX_SCALE};
use rand::Rng;
use vstd::prelude::*;

verus! {

/// The renderer's stand-in for an unbounded ray parameter.
pub const INFINITY: i64 = FX_MAX;

/// Pi, in fixed point.
pub const PI: i64 = 205887;

/// 180 degrees, in fixed point.
pub const DEG_HALF_TURN: i64 = 11796480;

/// Relies on `rand::thread_rng` and `rand::Rng::gen`: a uniformly
/// distributed `u16`.
#[verifier::external_body]
fn random_u16() -> (r: u16) {
    rand::thread_rng().gen()
}

/// A uniformly random fixed-point value in `[0, 1)`.
pub fn random_double() -> (r: i64)
    ensures
        0 <= r < FX_SCALE,
{
    random_u16() as i64
}

/// A uniformly random fixed-point value in `[min, max)`: `min` plus a random
/// fraction of the width.
pub fn random_range_double(min: i64, max: i64) -> (r: i64)
    ensures
        exists|q: int|
            0 <= q < FX_SCALE as int && r == fx_add_s(
                min as int,
                fx_mul_s(fx_sub_s(max as int, min as int), q),
            ),
{
    let q = random_double();
    let r = fx_add(min, fx_mul(fx_sub(max, min), q));
    proof {
        assert(0 <= (q as int) && (q as int) < FX_SCALE as int && r == fx_add_s(
            min as int,
            fx_mul_s(fx_sub_s(max as int, min as int), q as int),
        ));
    }
    r
}

pub open spec fn clamp_s(x: int, min: int, max: int) -> int {
    if x < min {
        min
    } else if x > max {
        max
    } else {
        x
    }
}

/// `x` forced into `[min, max]`.
pub fn clamp(x: i64, min: i64, max: i64) -> (r: i64)
    ensures
        r == clamp_s(x as int, min as int, max as int),
{
    if x < min {
        min
    } else if x > max {
        max
    } else {
        x
    }
}

pub open spec fn deg_to_rad_s(degrees: int) -> int {
    fx_div_s(fx_mul_s(degrees, PI as int), DEG_HALF_TURN as int)
}

/// Degrees to radians: `degrees * pi / 180`.
pub fn deg_to_rad(degrees: i64) -> (r: i64)
    ensures
        r == deg_to_rad_s(degrees as int),
{
    fx_div(fx_mul(degrees, PI), DEG_HALF_TURN)
}

} // verus!
