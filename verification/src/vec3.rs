//! Three-component fixed-point vectors, used as points, directions and
//! RGB colors.

use crate::fx::{fx_add, fx_add_s, fx_div, fx_div_s, fx_from_u32, fx_mul, fx_mul_s, fx_neg,
    fx_neg_s, fx_sqrt, fx_sqrt_s, fx_sub, fx_sub_s, is_sqrt, lemma_sqrt_unique, lemma_tdiv_mono,
    lemma_tdiv_nonneg, sat, tdiv, FX_MAX, FX_SCALE};
use crate::utils::{clamp, clamp_s, random_double};
use vstd::prelude::*;

verus! {

/// `255.999` in fixed point: the 8-bit output scaling of a color channel.
pub const FX_255_999: i64 = 16777149;

#[derive(Clone, Copy, Debug, PartialEq, Eq, Structural)]
pub struct Vec3 {
    pub x: i64,
    pub y: i64,
    pub z: i64,
}

pub open spec fn v_add_s(a: Vec3, b: Vec3) -> Vec3 {
    Vec3 {
        x: fx_add_s(a.x as int, b.x as int) as i64,
        y: fx_add_s(a.y as int, b.y as int) as i64,
        z: fx_add_s(a.z as int, b.z as int) as i64,
    }
}

pub open spec fn v_sub_s(a: Vec3, b: Vec3) -> Vec3 {
    Vec3 {
        x: fx_sub_s(a.x as int, b.x as int) as i64,
        y: fx_sub_s(a.y as int, b.y as int) as i64,
        z: fx_sub_s(a.z as int, b.z as int) as i64,
    }
}

pub open spec fn v_neg_s(a: Vec3) -> Vec3 {
    Vec3 {
        x: fx_neg_s(a.x as int) as i64,
        y: fx_neg_s(a.y as int) as i64,
        z: fx_neg_s(a.z as int) as i64,
    }
}

/// Component-wise product, the color attenuation operation.
pub open spec fn v_mul_s(a: Vec3, b: Vec3) -> Vec3 {
    Vec3 {
        x: fx_mul_s(a.x as int, b.x as int) as i64,
        y: fx_mul_s(a.y as int, b.y as int) as i64,
        z: fx_mul_s(a.z as int, b.z as int) as i64,
    }
}

pub open spec fn v_scale_s(a: Vec3, k: int) -> Vec3 {
    Vec3 {
        x: fx_mul_s(a.x as int, k) as i64,
        y: fx_mul_s(a.y as int, k) as i64,
        z: fx_mul_s(a.z as int, k) as i64,
    }
}

pub open spec fn v_div_s(a: Vec3, k: int) -> Vec3 {
    Vec3 {
        x: fx_div_s(a.x as int, k) as i64,
        y: fx_div_s(a.y as int, k) as i64,
        z: fx_div_s(a.z as int, k) as i64,
    }
}

pub open spec fn dot_s(a: Vec3, b: Vec3) -> int {
    fx_add_s(
        fx_add_s(fx_mul_s(a.x as int, b.x as int), fx_mul_s(a.y as int, b.y as int)),
        fx_mul_s(a.z as int, b.z as int),
    )
}

pub open spec fn ls_s(a: Vec3) -> int {
    dot_s(a, a)
}

pub open spec fn len_s(a: Vec3) -> int {
    fx_sqrt_s(ls_s(a))
}

pub open spec fn normalize_s(a: Vec3) -> Vec3 {
    v_div_s(a, len_s(a))
}

pub open spec fn cross_s(a: Vec3, b: Vec3) -> Vec3 {
    Vec3 {
        x: fx_sub_s(fx_mul_s(a.y as int, b.z as int), fx_mul_s(a.z as int, b.y as int)) as i64,
        y: fx_sub_s(fx_mul_s(a.z as int, b.x as int), fx_mul_s(a.x as int, b.z as int)) as i64,
        z: fx_sub_s(fx_mul_s(a.x as int, b.y as int), fx_mul_s(a.y as int, b.x as int)) as i64,
    }
}

/// Mirror reflection: `v - 2 * dot(v, n) * n`.
pub open spec fn reflect_s(v: Vec3, n: Vec3) -> Vec3 {
    v_sub_s(v, v_scale_s(n, fx_mul_s(131072, dot_s(v, n))))
}

/// Snell refraction of `v` at a surface of unit normal `n`, for the index
/// ratio `eta`: the sum of `eta * (v + cos_theta * n)` and its matching
/// parallel component.
pub open spec fn refract_s(v: Vec3, n: Vec3, eta: int) -> Vec3 {
    let cos_theta = dot_s(v_neg_s(v), n);
    let r_out_perp = v_scale_s(v_add_s(v, v_scale_s(n, cos_theta)), eta);
    let r_out_parallel = v_scale_s(
        n,
        fx_neg_s(fx_sqrt_s(fx_sub_s(FX_SCALE as int, ls_s(r_out_perp)))),
    );
    v_add_s(r_out_perp, r_out_parallel)
}

/// Smallest squared length of an accepted unit-ball draw (one sixteenth of
/// one): it keeps the subsequent normalization away from a length that
/// truncates to zero.
pub const BALL_FLOOR: i64 = 4096;

/// `w` is a normalized non-degenerate point of the open unit ball: the shape
/// of the random unit vectors the diffuse scatter draws.
pub open spec fn is_unit_sample(w: Vec3) -> bool {
    exists|u: Vec3| BALL_FLOOR <= ls_s(u) < FX_SCALE && w == normalize_s(u)
}

pub open spec fn channel_s(c: int, samples_fx: int) -> int {
    let avg = fx_div_s(c, samples_fx);
    let cl = clamp_s(avg, 0, FX_SCALE as int);
    tdiv(fx_mul_s(cl, 16777149), 65536)
}

impl Vec3 {
    pub fn new(x: i64, y: i64, z: i64) -> (v: Vec3)
        ensures
            v == (Vec3 { x, y, z }),
    {
        Vec3 { x, y, z }
    }

    pub fn x(&self) -> (r: i64)
        ensures
            r == self.x,
    {
        self.x
    }

    pub fn y(&self) -> (r: i64)
        ensures
            r == self.y,
    {
        self.y
    }

    pub fn z(&self) -> (r: i64)
        ensures
            r == self.z,
    {
        self.z
    }

    pub fn add(&self, rhs: Vec3) -> (r: Vec3)
        ensures
            r == v_add_s(*self, rhs),
    {
        Vec3 { x: fx_add(self.x, rhs.x), y: fx_add(self.y, rhs.y), z: fx_add(self.z, rhs.z) }
    }

    pub fn sub(&self, rhs: Vec3) -> (r: Vec3)
        ensures
            r == v_sub_s(*self, rhs),
    {
        Vec3 { x: fx_sub(self.x, rhs.x), y: fx_sub(self.y, rhs.y), z: fx_sub(self.z, rhs.z) }
    }

    pub fn neg(&self) -> (r: Vec3)
        ensures
            r == v_neg_s(*self),
    {
        Vec3 { x: fx_neg(self.x), y: fx_neg(self.y), z: fx_neg(self.z) }
    }

    /// Component-wise product.
    pub fn mul(&self, rhs: Vec3) -> (r: Vec3)
        ensures
            r == v_mul_s(*self, rhs),
    {
        Vec3 { x: fx_mul(self.x, rhs.x), y: fx_mul(self.y, rhs.y), z: fx_mul(self.z, rhs.z) }
    }

    pub fn scale(&self, k: i64) -> (r: Vec3)
        ensures
            r == v_scale_s(*self, k as int),
    {
        Vec3 { x: fx_mul(self.x, k), y: fx_mul(self.y, k), z: fx_mul(self.z, k) }
    }

    pub fn div(&self, k: i64) -> (r: Vec3)
        ensures
            r == v_div_s(*self, k as int),
    {
        Vec3 { x: fx_div(self.x, k), y: fx_div(self.y, k), z: fx_div(self.z, k) }
    }

    pub fn dot(&self, v: Vec3) -> (r: i64)
        ensures
            r == dot_s(*self, v),
    {
        fx_add(fx_add(fx_mul(self.x, v.x), fx_mul(self.y, v.y)), fx_mul(self.z, v.z))
    }

    pub fn cross(&self, v: Vec3) -> (r: Vec3)
        ensures
            r == cross_s(*self, v),
    {
        Vec3 {
            x: fx_sub(fx_mul(self.y, v.z), fx_mul(self.z, v.y)),
            y: fx_sub(fx_mul(self.z, v.x), fx_mul(self.x, v.z)),
            z: fx_sub(fx_mul(self.x, v.y), fx_mul(self.y, v.x)),
        }
    }

    pub fn length_squared(&self) -> (r: i64)
        ensures
            r == ls_s(*self),
    {
        self.dot(*self)
    }

    pub fn length(&self) -> (r: i64)
        ensures
            r == len_s(*self),
    {
        fx_sqrt(self.length_squared())
    }

    pub fn normalize(&self) -> (r: Vec3)
        ensures
            r == normalize_s(*self),
    {
        let len = self.length();
        self.div(len)
    }

    pub fn reflect(&self, n: Vec3) -> (r: Vec3)
        ensures
            r == reflect_s(*self, n),
    {
        self.sub(n.scale(fx_mul(131072, self.dot(n))))
    }

    pub fn refract(&self, n: Vec3, eta: i64) -> (r: Vec3)
        ensures
            r == refract_s(*self, n, eta as int),
    {
        let cos_theta = self.neg().dot(n);
        let r_out_perp = self.add(n.scale(cos_theta)).scale(eta);
        let r_out_parallel = n.scale(fx_neg(fx_sqrt(fx_sub(FX_SCALE, r_out_perp.length_squared()))));
        r_out_perp.add(r_out_parallel)
    }

    /// A color taken to one 8-bit pixel: each channel averaged over the
    /// sample count, forced into `[0, 1]` and scaled to `[0, 255]`.
    pub fn to_rgb(&self, samples_per_pixel: u32) -> (rgb: (u8, u8, u8))
        ensures
            rgb.0 == channel_s(self.x as int, sat((samples_per_pixel as int) * 65536)),
            rgb.1 == channel_s(self.y as int, sat((samples_per_pixel as int) * 65536)),
            rgb.2 == channel_s(self.z as int, sat((samples_per_pixel as int) * 65536)),
    {
        let n = fx_from_u32(samples_per_pixel);
        (channel(self.x, n), channel(self.y, n), channel(self.z, n))
    }

    /// A vector of three uniformly random channels in `[0, 1)`.
    pub fn random() -> (v: Vec3)
        ensures
            0 <= v.x < FX_SCALE,
            0 <= v.y < FX_SCALE,
            0 <= v.z < FX_SCALE,
    {
        Vec3 { x: random_double(), y: random_double(), z: random_double() }
    }

    /// A vector of three uniformly random channels in `[min, max]`.
    pub fn random_range(min: i64, max: i64) -> (v: Vec3)
        ensures
            -FX_MAX <= min <= max <= FX_MAX ==> {
                &&& min <= v.x <= max
                &&& min <= v.y <= max
                &&& min <= v.z <= max
            },
    {
        Vec3 {
            x: random_component(min, max),
            y: random_component(min, max),
            z: random_component(min, max),
        }
    }

    /// Rejection sampling of a point strictly inside the unit ball; after
    /// too many rejected draws an interior fallback point is used.  Draws
    /// whose squared length truncates below `BALL_FLOOR` are rejected too,
    /// so that normalizing an accepted point never divides by a degenerate
    /// length.
    pub fn random_in_unit_sphere() -> (v: Vec3)
        ensures
            BALL_FLOOR <= ls_s(v) < FX_SCALE,
    {
        let mut i: u32 = 0;
        while i < 64
            decreases 64 - i,
        {
            let p = Vec3::random_range(-FX_SCALE, FX_SCALE);
            let q = p.length_squared();
            if BALL_FLOOR <= q && q < FX_SCALE {
                return p;
            }
            i = i + 1;
        }
        proof {
            assert(tdiv(32768int * 32768int, 65536int) == 16384);
            assert(ls_s(Vec3 { x: 32768, y: 0, z: 0 }) == 16384);
        }
        Vec3 { x: 32768, y: 0, z: 0 }
    }

    /// A point inside the unit ball, normalized onto (approximately) the
    /// unit sphere surface.
    pub fn random_unit_vector() -> (v: Vec3)
        ensures
            is_unit_sample(v),
    {
        let u = Vec3::random_in_unit_sphere();
        let v = u.normalize();
        proof {
            assert(BALL_FLOOR <= ls_s(u) < FX_SCALE && v == normalize_s(u));
        }
        v
    }

    /// Rejection sampling of a point strictly inside the unit disk of the
    /// xy plane; after too many rejected draws a fallback point is used.
    pub fn random_in_unit_disk() -> (v: Vec3)
        ensures
            ls_s(v) < FX_SCALE,
            v.z == 0,
    {
        let mut i: u32 = 0;
        while i < 64
            decreases 64 - i,
        {
            let p = Vec3 {
                x: random_component(-FX_SCALE, FX_SCALE),
                y: random_component(-FX_SCALE, FX_SCALE),
                z: 0,
            };
            if p.length_squared() < FX_SCALE {
                return p;
            }
            i = i + 1;
        }
        proof {
            assert(tdiv(32768int * 32768int, 65536int) == 16384);
            assert(ls_s(Vec3 { x: 32768, y: 0, z: 0 }) == 16384);
        }
        Vec3 { x: 32768, y: 0, z: 0 }
    }
}

/// One random channel: `min` plus a random fraction of the width.
fn random_component(min: i64, max: i64) -> (r: i64)
    ensures
        -FX_MAX <= min <= max <= FX_MAX ==> min <= r <= max,
{
    let q = random_double();
    let d = fx_sub(max, min);
    let m = fx_mul(d, q);
    proof {
        if -FX_MAX <= min <= max <= FX_MAX {
            lemma_scaled_fraction_bound(d as int, q as int);
        }
    }
    fx_add(min, m)
}

/// A nonnegative value scaled by a fixed-point factor below one stays
/// inside `[0, value]`.
pub proof fn lemma_scaled_fraction_bound(d: int, q: int)
    requires
        0 <= d,
        0 <= q < 65536,
    ensures
        0 <= tdiv(d * q, 65536) <= d,
{
    assert(0 <= d * q <= d * 65536) by (nonlinear_arith)
        requires
            0 <= d,
            0 <= q < 65536,
    ;
    assert((d * q) / 65536 <= (d * 65536) / 65536) by (nonlinear_arith)
        requires
            0 <= d * q <= d * 65536,
    ;
    assert((d * 65536) / 65536 == d) by (nonlinear_arith);
    assert((d * q) / 65536 >= 0) by (nonlinear_arith)
        requires
            d * q >= 0,
    ;
}

/// One channel of `to_rgb`.
fn channel(c: i64, samples_fx: i64) -> (r: u8)
    ensures
        r == channel_s(c as int, samples_fx as int),
{
    let avg = fx_div(c, samples_fx);
    let cl = clamp(avg, 0, FX_SCALE);
    let b = fx_mul(cl, FX_255_999);
    proof {
        lemma_tdiv_nonneg(cl as int * 16777149, 65536);
        lemma_tdiv_mono(cl as int * 16777149, 65536int * 16777149int, 65536);
        vstd::arithmetic::div_mod::lemma_div_is_ordered(b as int, 16777149, 65536);
        vstd::arithmetic::div_mod::lemma_div_pos_is_pos(b as int, 65536);
    }
    ((b as u64) / 65536u64) as u8
}

/// A dielectric interface whose refractive index matches the surroundings
/// bends nothing: at perpendicular incidence onto an exactly-unit normal the
/// refracted direction is exactly the incoming one.  (Away from
/// perpendicular incidence the equality holds only up to the fixed-point
/// rounding of the intermediate square root.)
pub proof fn lemma_refract_matched_head_on(n: Vec3)
    requires
        -FX_MAX <= n.x <= FX_MAX,
        -FX_MAX <= n.y <= FX_MAX,
        -FX_MAX <= n.z <= FX_MAX,
        ls_s(n) == FX_SCALE,
    ensures
        refract_s(v_neg_s(n), n, FX_SCALE as int) == v_neg_s(n),
{
    let v = v_neg_s(n);
    assert(v.x == -n.x && v.y == -n.y && v.z == -n.z);
    assert(v_neg_s(v) == n);
    assert(dot_s(v_neg_s(v), n) == ls_s(n));
    crate::fx::lemma_tdiv_scale_cancel(n.x as int);
    crate::fx::lemma_tdiv_scale_cancel(n.y as int);
    crate::fx::lemma_tdiv_scale_cancel(n.z as int);
    assert(v_scale_s(n, FX_SCALE as int) == n);
    let zero = Vec3 { x: 0i64, y: 0i64, z: 0i64 };
    assert(v_add_s(v, n) == zero);
    assert(v_scale_s(zero, FX_SCALE as int) == zero);
    assert(ls_s(zero) == 0);
    assert(fx_sub_s(FX_SCALE as int, 0) == FX_SCALE as int);
    assert(is_sqrt(4294967296, 65536)) by {
        assert(65536int * 65536int == 4294967296int);
        assert(65537int * 65537int == 4295098369int);
    }
    lemma_sqrt_unique(4294967296, 65536);
    assert(fx_sqrt_s(FX_SCALE as int) == FX_SCALE as int);
    assert(fx_neg_s(FX_SCALE as int) == -65536);
    crate::fx::lemma_fx_mul_neg_one(n.x as int);
    crate::fx::lemma_fx_mul_neg_one(n.y as int);
    crate::fx::lemma_fx_mul_neg_one(n.z as int);
    assert(v_scale_s(n, -65536) == v);
    assert(v_add_s(zero, v) == v);
}

/// A squared length is never negative.
pub proof fn lemma_ls_nonneg(v: Vec3)
    ensures
        ls_s(v) >= 0,
{
    assert((v.x as int) * (v.x as int) >= 0) by (nonlinear_arith);
    assert((v.y as int) * (v.y as int) >= 0) by (nonlinear_arith);
    assert((v.z as int) * (v.z as int) >= 0) by (nonlinear_arith);
    lemma_tdiv_nonneg((v.x as int) * (v.x as int), 65536);
    lemma_tdiv_nonneg((v.y as int) * (v.y as int), 65536);
    lemma_tdiv_nonneg((v.z as int) * (v.z as int), 65536);
}

/// Reflecting about the unit y-axis normal flips the y component exactly;
/// the perpendicular components pass through unchanged.
pub proof fn lemma_reflect_y_axis(v: Vec3)
    requires
        -FX_MAX <= v.x <= FX_MAX,
        -FX_MAX <= 2 * (v.y as int) <= FX_MAX,
        -FX_MAX <= v.z <= FX_MAX,
    ensures
        reflect_s(v, Vec3 { x: 0, y: FX_SCALE, z: 0 }) == (Vec3 {
            x: v.x,
            y: (-(v.y as int)) as i64,
            z: v.z,
        }),
{
    let n = Vec3 { x: 0, y: FX_SCALE, z: 0 };
    assert(tdiv((v.y as int) * 65536, 65536) == v.y as int) by (nonlinear_arith);
    assert(dot_s(v, n) == v.y as int);
    assert(tdiv(131072 * (v.y as int), 65536) == 2 * (v.y as int)) by (nonlinear_arith);
    let k = fx_mul_s(131072, dot_s(v, n));
    assert(k == 2 * (v.y as int));
    assert(tdiv(65536 * k, 65536) == k) by (nonlinear_arith);
    assert(v_scale_s(n, k) == (Vec3 { x: 0, y: k as i64, z: 0 }));
}

} // verus!
