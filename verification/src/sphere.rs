//! Spheres and ray/sphere intersection.
//!
//! A hit query solves the quadratic `|origin + t*dir - center|^2 = radius^2`
//! and accepts the nearer root inside the open interval `(t_min, t_max)`,
//! falling back to the farther one.  The discriminant and its square root
//! are taken on the exact products of the fixed-point coefficients.

use crate::fx::{fx_mul, fx_mul_s, fx_sub, fx_sub_s, is_sqrt, isqrt, lemma_fx_mul_neg_one,
    lemma_sqrt_unique, lemma_tdiv_scale_cancel, sat, sqrt_s, tdiv};
use crate::material::Material;
use crate::ray::{ray_at_s, Ray};
use crate::vec3::{dot_s, ls_s, v_div_s, v_neg_s, v_sub_s, Vec3};
use vstd::prelude::*;

verus! {

/// The surface data of a successful intersection.  The stored normal always
/// opposes the incoming ray; `front_face` tells whether that is the
/// geometric outward normal.
#[derive(Clone, Copy, Debug, PartialEq, Eq, Structural)]
pub struct HitRecord {
    pub p: Vec3,
    pub normal: Vec3,
    pub t: i64,
    pub front_face: bool,
    pub mat: Material,
}

#[derive(Clone, Copy, Debug, PartialEq, Eq, Structural)]
pub struct Sphere {
    pub center: Vec3,
    pub radius: i64,
    pub mat: Material,
}

/// Offset of the ray origin from the sphere center.
pub open spec fn sp_oc(s: Sphere, r: Ray) -> Vec3 {
    v_sub_s(r.orig, s.center)
}

/// Leading quadratic coefficient: the squared length of the direction.
pub open spec fn sp_a(s: Sphere, r: Ray) -> int {
    ls_s(r.dir)
}

/// Half the linear quadratic coefficient.
pub open spec fn sp_half_b(s: Sphere, r: Ray) -> int {
    dot_s(sp_oc(s, r), r.dir)
}

/// Constant quadratic coefficient.
pub open spec fn sp_c(s: Sphere, r: Ray) -> int {
    fx_sub_s(ls_s(sp_oc(s, r)), fx_mul_s(s.radius as int, s.radius as int))
}

/// Quadratic discriminant, on the exact products of the coefficients.
pub open spec fn sp_disc(s: Sphere, r: Ray) -> int {
    sp_half_b(s, r) * sp_half_b(s, r) - sp_a(s, r) * sp_c(s, r)
}

/// The nearer intersection parameter, `(-half_b - sqrt(disc)) / a`.
pub open spec fn sp_root_near(s: Sphere, r: Ray) -> int {
    sat(tdiv((-sp_half_b(s, r) - sqrt_s(sp_disc(s, r))) * 65536, sp_a(s, r)))
}

/// The farther intersection parameter, `(-half_b + sqrt(disc)) / a`.
pub open spec fn sp_root_far(s: Sphere, r: Ray) -> int {
    sat(tdiv((-sp_half_b(s, r) + sqrt_s(sp_disc(s, r))) * 65536, sp_a(s, r)))
}

/// The record a hit at parameter `t` produces.
pub open spec fn sphere_record_s(s: Sphere, r: Ray, t: int) -> HitRecord {
    let p = ray_at_s(r, t);
    let outward = v_div_s(v_sub_s(p, s.center), s.radius as int);
    let front_face = dot_s(r.dir, outward) < 0;
    HitRecord {
        p,
        normal: if front_face {
            outward
        } else {
            v_neg_s(outward)
        },
        t: t as i64,
        front_face,
        mat: s.mat,
    }
}

/// What a sphere hit query returns: nothing on a degenerate direction or a
/// negative discriminant, else the first of the two roots that lies strictly
/// inside `(t_min, t_max)`.
pub open spec fn sphere_hit_s(s: Sphere, r: Ray, t_min: int, t_max: int) -> Option<HitRecord> {
    if sp_a(s, r) == 0 || sp_disc(s, r) < 0 {
        None
    } else if t_min < sp_root_near(s, r) && sp_root_near(s, r) < t_max {
        Some(sphere_record_s(s, r, sp_root_near(s, r)))
    } else if t_min < sp_root_far(s, r) && sp_root_far(s, r) < t_max {
        Some(sphere_record_s(s, r, sp_root_far(s, r)))
    } else {
        None
    }
}

proof fn lemma_mul_fx_fits(a: int, b: int)
    by (nonlinear_arith)
    requires
        -0x7fff_ffff_ffff <= a <= 0x7fff_ffff_ffff,
        -0x7fff_ffff_ffff <= b <= 0x7fff_ffff_ffff,
    ensures
        -0x4000_0000_0000_0000_0000_0000 <= a * b <= 0x4000_0000_0000_0000_0000_0000,
{
}

/// A ray fired straight at a sphere's center hits at the distance to the
/// center minus the radius, through the nearer root.  Stated along the z
/// axis for integer-valued distance `big_m` and radius `big_r`, where the
/// fixed-point arithmetic is exact; at fractional values the parameter can
/// be off by the rounding of the intermediate squares.
pub proof fn lemma_head_on_hit(big_m: int, big_r: int, mat: Material, t_min: int, t_max: int)
    requires
        0 < big_r <= big_m,
        big_m <= 4096,
        t_min < 65536 * (big_m - big_r) < t_max,
    ensures
        ({
            let s = Sphere {
                center: Vec3 { x: 0, y: 0, z: (-65536 * big_m) as i64 },
                radius: (65536 * big_r) as i64,
                mat,
            };
            let r = Ray { orig: Vec3 { x: 0, y: 0, z: 0 }, dir: Vec3 { x: 0, y: 0, z: -65536i64 } };
            sphere_hit_s(s, r, t_min, t_max) matches Some(rec) && rec.t as int == 65536 * (big_m
                - big_r)
        }),
{
    let m = 65536 * big_m;
    let rad = 65536 * big_r;
    let s = Sphere {
        center: Vec3 { x: 0, y: 0, z: (-m) as i64 },
        radius: rad as i64,
        mat,
    };
    let r = Ray { orig: Vec3 { x: 0, y: 0, z: 0 }, dir: Vec3 { x: 0, y: 0, z: -65536i64 } };

    assert(sp_oc(s, r) == (Vec3 { x: 0i64, y: 0i64, z: m as i64 }));
    assert(sp_a(s, r) == 65536);

    lemma_fx_mul_neg_one(m);
    assert(sp_half_b(s, r) == -m);

    let ksq = 65536 * (big_m * big_m);
    assert(m * m == ksq * 65536) by (nonlinear_arith)
        requires
            m == 65536 * big_m,
            ksq == 65536 * (big_m * big_m),
    ;
    lemma_tdiv_scale_cancel(ksq);
    assert(0 <= ksq <= 0x7fff_ffff_ffff) by (nonlinear_arith)
        requires
            ksq == 65536 * (big_m * big_m),
            0 < big_m <= 4096,
    ;
    assert(fx_mul_s(m, m) == ksq);

    let rsq = 65536 * (big_r * big_r);
    assert(rad * rad == rsq * 65536) by (nonlinear_arith)
        requires
            rad == 65536 * big_r,
            rsq == 65536 * (big_r * big_r),
    ;
    lemma_tdiv_scale_cancel(rsq);
    assert(0 <= rsq <= ksq) by (nonlinear_arith)
        requires
            rsq == 65536 * (big_r * big_r),
            ksq == 65536 * (big_m * big_m),
            0 < big_r <= big_m,
    ;
    assert(fx_mul_s(rad as int, rad as int) == rsq);

    assert(sp_c(s, r) == ksq - rsq);
    assert(sp_disc(s, r) == rad * rad) by (nonlinear_arith)
        requires
            sp_half_b(s, r) == -m,
            sp_a(s, r) == 65536,
            sp_c(s, r) == ksq - rsq,
            m * m == ksq * 65536,
            rad * rad == rsq * 65536,
            sp_disc(s, r) == sp_half_b(s, r) * sp_half_b(s, r) - sp_a(s, r) * sp_c(s, r),
    ;
    assert(is_sqrt(sp_disc(s, r), rad)) by (nonlinear_arith)
        requires
            sp_disc(s, r) == rad * rad,
            rad >= 0,
    ;
    lemma_sqrt_unique(sp_disc(s, r), rad);

    lemma_tdiv_scale_cancel(m - rad);
    assert(sp_root_near(s, r) == m - rad);
    assert(m - rad == 65536 * (big_m - big_r)) by (nonlinear_arith)
        requires
            m == 65536 * big_m,
            rad == 65536 * big_r,
    ;
}

impl Sphere {
    pub fn new(center: Vec3, radius: i64, mat: Material) -> (s: Sphere)
        ensures
            s == (Sphere { center, radius, mat }),
    {
        Sphere { center, radius, mat }
    }

    /// The sphere's data invariant: a positive radius and a well-formed
    /// material.
    pub open spec fn wf(self) -> bool {
        self.radius > 0 && self.mat.wf()
    }

    /// The nearest intersection of `r` with this sphere at a parameter
    /// strictly inside `(t_min, t_max)`, if any.
    pub fn hit(&self, r: Ray, t_min: i64, t_max: i64) -> (res: Option<HitRecord>)
        ensures
            res == sphere_hit_s(*self, r, t_min as int, t_max as int),
    {
        let oc = r.origin().sub(self.center);
        let rd = r.direction();
        let a = rd.length_squared();
        let half_b = oc.dot(rd);
        let c = fx_sub(oc.length_squared(), fx_mul(self.radius, self.radius));
        if a == 0 {
            return None;
        }
        proof {
            crate::vec3::lemma_ls_nonneg(rd);
            lemma_mul_fx_fits(half_b as int, half_b as int);
            lemma_mul_fx_fits(a as int, c as int);
        }
        let disc: i128 = (half_b as i128) * (half_b as i128) - (a as i128) * (c as i128);
        if disc < 0 {
            return None;
        }
        let sqrtd_w = isqrt(disc as u128);
        proof {
            assert(sqrtd_w < 0x2_0000_0000_0000) by (nonlinear_arith)
                requires
                    (sqrtd_w as int) * (sqrtd_w as int) <= disc as int,
                    disc as int <= 0x8000_0000_0000_0000_0000_0000,
                    sqrtd_w >= 0,
            ;
        }
        let sqrtd: i128 = sqrtd_w as i128;

        let t = crate::fx::sat_tdiv_i128((-(half_b as i128) - sqrtd) * 65536i128, a as i128);
        if t_min < t && t < t_max {
            return Some(self.record_at(r, t));
        }
        let t = crate::fx::sat_tdiv_i128((-(half_b as i128) + sqrtd) * 65536i128, a as i128);
        if t_min < t && t < t_max {
            return Some(self.record_at(r, t));
        }
        None
    }

    /// The hit record for an accepted parameter `t`.
    fn record_at(&self, r: Ray, t: i64) -> (rec: HitRecord)
        ensures
            rec == sphere_record_s(*self, r, t as int),
    {
        let p = r.at(t);
        let outward_normal = p.sub(self.center).div(self.radius);
        let front_face = r.direction().dot(outward_normal) < 0;
        let normal = if front_face {
            outward_normal
        } else {
            outward_normal.neg()
        };
        HitRecord { p, normal, t, front_face, mat: self.mat }
    }
}

} // verus!
