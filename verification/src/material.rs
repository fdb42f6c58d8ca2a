//! Materials: how a surface scatters an incoming ray.
//!
//! The three kinds form a closed sum type.  A scatter result is the color
//! attenuation together with the continued ray, or nothing when the ray is
//! absorbed.

use crate::fx::{fx_add, fx_add_s, fx_div, fx_div_s, fx_mul, fx_mul_s, fx_sqrt, fx_sqrt_s,
    fx_sub, fx_sub_s, FX_SCALE};
use crate::ray::Ray;
use crate::sphere::HitRecord;
use crate::utils::{clamp_s, random_double};
use crate::vec3::{dot_s, is_unit_sample, ls_s, normalize_s, reflect_s, refract_s, v_add_s,
    v_neg_s, v_scale_s, Vec3};
use vstd::prelude::*;

verus! {

#[derive(Clone, Copy, Debug, PartialEq, Eq, Structural)]
pub struct Lambertian {
    pub albedo: Vec3,
}

#[derive(Clone, Copy, Debug, PartialEq, Eq, Structural)]
pub struct Metal {
    pub albedo: Vec3,
    pub fuzz: i64,
}

#[derive(Clone, Copy, Debug, PartialEq, Eq, Structural)]
pub struct Dielectric {
    pub refractive_index: i64,
}

#[derive(Clone, Copy, Debug, PartialEq, Eq, Structural)]
pub enum Material {
    Lambertian(Lambertian),
    Metal(Metal),
    Dielectric(Dielectric),
}

/// An RGB color with every channel inside `[0, 1]`.
pub open spec fn color_wf(c: Vec3) -> bool {
    &&& 0 <= c.x <= FX_SCALE
    &&& 0 <= c.y <= FX_SCALE
    &&& 0 <= c.z <= FX_SCALE
}

impl Material {
    /// The data invariants of the material variants: albedos are colors,
    /// fuzz lies in `[0, 1]`, a refractive index is positive.
    pub open spec fn wf(self) -> bool {
        match self {
            Material::Lambertian(l) => color_wf(l.albedo),
            Material::Metal(m) => color_wf(m.albedo) && 0 <= m.fuzz <= FX_SCALE,
            Material::Dielectric(d) => d.refractive_index > 0,
        }
    }
}

/// The index ratio a dielectric interface applies: the reciprocal of the
/// refractive index on a front face, the index itself on a back face.
pub open spec fn dielectric_eta_s(d: Dielectric, front_face: bool) -> int {
    if front_face {
        fx_div_s(FX_SCALE as int, d.refractive_index as int)
    } else {
        d.refractive_index as int
    }
}

/// Cosine of the incidence angle, capped at one.
pub open spec fn cos_theta_s(unit_dir: Vec3, n: Vec3) -> int {
    let c = dot_s(v_neg_s(unit_dir), n);
    if c > FX_SCALE as int {
        FX_SCALE as int
    } else {
        c
    }
}

/// Sine of the incidence angle, from the cosine.
pub open spec fn sin_theta_s(unit_dir: Vec3, n: Vec3) -> int {
    fx_sqrt_s(fx_sub_s(FX_SCALE as int, fx_mul_s(cos_theta_s(unit_dir, n), cos_theta_s(unit_dir, n))))
}

/// Schlick's reflectance approximation:
/// `r0 + (1 - r0) * (1 - cosine)^5` for `r0 = ((1 - eta) / (1 + eta))^2`.
pub open spec fn schlick_s(cosine: int, ref_idx: int) -> int {
    let r0 = fx_div_s(fx_sub_s(FX_SCALE as int, ref_idx), fx_add_s(FX_SCALE as int, ref_idx));
    let r0sq = fx_mul_s(r0, r0);
    let base = fx_sub_s(FX_SCALE as int, cosine);
    let p2 = fx_mul_s(base, base);
    let p4 = fx_mul_s(p2, p2);
    let p5 = fx_mul_s(p4, base);
    fx_add_s(r0sq, fx_mul_s(fx_sub_s(FX_SCALE as int, r0sq), p5))
}

fn schlick(cosine: i64, ref_idx: i64) -> (r: i64)
    ensures
        r == schlick_s(cosine as int, ref_idx as int),
{
    let r0 = fx_div(fx_sub(FX_SCALE, ref_idx), fx_add(FX_SCALE, ref_idx));
    let r0sq = fx_mul(r0, r0);
    let base = fx_sub(FX_SCALE, cosine);
    let p2 = fx_mul(base, base);
    let p4 = fx_mul(p2, p2);
    let p5 = fx_mul(p4, base);
    fx_add(r0sq, fx_mul(fx_sub(FX_SCALE, r0sq), p5))
}

impl Lambertian {
    pub fn new(albedo: Vec3) -> (m: Lambertian)
        ensures
            m.albedo == albedo,
    {
        Lambertian { albedo }
    }

    /// Diffuse scatter: the ray continues from the hit point toward the
    /// normal nudged by a random unit vector, and is never absorbed.
    pub fn scatter(&self, _r_in: Ray, rec: &HitRecord) -> (res: Option<(Vec3, Ray)>)
        ensures
            res is Some,
            res matches Some(p) ==> {
                &&& p.0 == self.albedo
                &&& p.1.orig == rec.p
                &&& exists|w: Vec3| is_unit_sample(w) && p.1.dir == v_add_s(rec.normal, w)
            },
    {
        let w = Vec3::random_unit_vector();
        let scatter_direction = rec.normal.add(w);
        let scattered = Ray::new(rec.p, scatter_direction);
        proof {
            assert(is_unit_sample(w) && scattered.dir == v_add_s(rec.normal, w));
        }
        Some((self.albedo, scattered))
    }
}

impl Metal {
    /// The fuzz parameter is forced into `[0, 1]` at construction.
    pub fn new(albedo: Vec3, f: i64) -> (m: Metal)
        ensures
            m.albedo == albedo,
            m.fuzz == clamp_s(f as int, 0, FX_SCALE as int),
    {
        let fuzz = if f < 0 {
            0
        } else if f > FX_SCALE {
            FX_SCALE
        } else {
            f
        };
        Metal { albedo, fuzz }
    }

    /// Mirror reflection, perturbed by `fuzz` times a random point of the
    /// unit ball; the ray is absorbed when the perturbed direction points
    /// into the surface.  With zero fuzz this is an exact mirror.
    pub fn scatter(&self, r_in: Ray, rec: &HitRecord) -> (res: Option<(Vec3, Ray)>)
        ensures
            res matches Some(p) ==> {
                &&& p.0 == self.albedo
                &&& p.1.orig == rec.p
                &&& dot_s(p.1.dir, rec.normal) > 0
            },
            exists|s: Vec3|
                ls_s(s) < FX_SCALE && ({
                    let d = v_add_s(
                        reflect_s(normalize_s(r_in.dir), rec.normal),
                        v_scale_s(s, self.fuzz as int),
                    );
                    &&& (res is Some <==> dot_s(d, rec.normal) > 0)
                    &&& (res matches Some(p) ==> p == (self.albedo, Ray { orig: rec.p, dir: d }))
                }),
            self.fuzz == 0 ==> {
                let refl = reflect_s(normalize_s(r_in.dir), rec.normal);
                &&& (res is Some <==> dot_s(refl, rec.normal) > 0)
                &&& (res matches Some(p) ==> p.1.dir == refl)
            },
    {
        let reflected = r_in.direction().normalize().reflect(rec.normal);
        let s = Vec3::random_in_unit_sphere();
        let scattered = Ray::new(rec.p, reflected.add(s.scale(self.fuzz)));
        let res = if scattered.direction().dot(rec.normal) > 0 {
            Some((self.albedo, scattered))
        } else {
            None
        };
        proof {
            if self.fuzz == 0 {
                assert(v_scale_s(s, 0) == (Vec3 { x: 0i64, y: 0i64, z: 0i64 }));
                assert(v_add_s(reflected, Vec3 { x: 0i64, y: 0i64, z: 0i64 }) == reflected);
            }
            assert(ls_s(s) < FX_SCALE && ({
                let d = v_add_s(
                    reflect_s(normalize_s(r_in.dir), rec.normal),
                    v_scale_s(s, self.fuzz as int),
                );
                &&& (res is Some <==> dot_s(d, rec.normal) > 0)
                &&& (res matches Some(p) ==> p == (self.albedo, Ray { orig: rec.p, dir: d }))
            }));
        }
        res
    }
}

impl Dielectric {
    pub fn new(refractive_index: i64) -> (m: Dielectric)
        ensures
            m.refractive_index == refractive_index,
    {
        Dielectric { refractive_index }
    }

    /// Refractive scatter: never absorbs and never attenuates.  At total
    /// internal reflection the ray always reflects; otherwise it reflects
    /// with Schlick's probability and refracts with the rest.
    pub fn scatter(&self, r_in: Ray, rec: &HitRecord) -> (res: Option<(Vec3, Ray)>)
        ensures
            res is Some,
            res matches Some(p) ==> {
                &&& p.0 == (Vec3 { x: FX_SCALE, y: FX_SCALE, z: FX_SCALE })
                &&& p.1.orig == rec.p
                &&& (p.1.dir == reflect_s(normalize_s(r_in.dir), rec.normal) || p.1.dir
                    == refract_s(
                    normalize_s(r_in.dir),
                    rec.normal,
                    dielectric_eta_s(*self, rec.front_face),
                ))
            },
            fx_mul_s(
                dielectric_eta_s(*self, rec.front_face),
                sin_theta_s(normalize_s(r_in.dir), rec.normal),
            ) > FX_SCALE as int ==> (res matches Some(p) && p.1.dir == reflect_s(
                normalize_s(r_in.dir),
                rec.normal,
            )),
    {
        let attenuation = Vec3::new(FX_SCALE, FX_SCALE, FX_SCALE);
        let eta = if rec.front_face {
            fx_div(FX_SCALE, self.refractive_index)
        } else {
            self.refractive_index
        };
        let unit_direction = r_in.direction().normalize();
        let mut cos_theta = unit_direction.neg().dot(rec.normal);
        if cos_theta > FX_SCALE {
            cos_theta = FX_SCALE;
        }
        let sin_theta = fx_sqrt(fx_sub(FX_SCALE, fx_mul(cos_theta, cos_theta)));

        if fx_mul(eta, sin_theta) > FX_SCALE {
            let reflected = unit_direction.reflect(rec.normal);
            return Some((attenuation, Ray::new(rec.p, reflected)));
        }

        let reflect_prob = schlick(cos_theta, eta);
        if random_double() < reflect_prob {
            let reflected = unit_direction.reflect(rec.normal);
            return Some((attenuation, Ray::new(rec.p, reflected)));
        }

        let refracted = unit_direction.refract(rec.normal, eta);
        Some((attenuation, Ray::new(rec.p, refracted)))
    }
}

/// `res` is an outcome the material's scatter rule can produce for the
/// incoming ray and hit, whatever the random draws were: the per-variant
/// clauses of the three scatter rules, gathered into one relation.
pub open spec fn possible_scatter(
    m: Material,
    r_in: Ray,
    rec: HitRecord,
    res: Option<(Vec3, Ray)>,
) -> bool {
    match m {
        Material::Lambertian(l) => {
            &&& res is Some
            &&& (res matches Some(p) ==> {
                &&& p.0 == l.albedo
                &&& p.1.orig == rec.p
                &&& exists|w: Vec3| is_unit_sample(w) && p.1.dir == v_add_s(rec.normal, w)
            })
        },
        Material::Metal(mt) => exists|s: Vec3|
            ls_s(s) < FX_SCALE && ({
                let d = v_add_s(
                    reflect_s(normalize_s(r_in.dir), rec.normal),
                    v_scale_s(s, mt.fuzz as int),
                );
                &&& (res is Some <==> dot_s(d, rec.normal) > 0)
                &&& (res matches Some(p) ==> p == (mt.albedo, Ray { orig: rec.p, dir: d }))
            }),
        Material::Dielectric(d) => {
            &&& res is Some
            &&& (res matches Some(p) ==> {
                &&& p.0 == (Vec3 { x: FX_SCALE, y: FX_SCALE, z: FX_SCALE })
                &&& p.1.orig == rec.p
                &&& (p.1.dir == reflect_s(normalize_s(r_in.dir), rec.normal) || p.1.dir
                    == refract_s(
                    normalize_s(r_in.dir),
                    rec.normal,
                    dielectric_eta_s(d, rec.front_face),
                ))
            })
            &&& (fx_mul_s(
                dielectric_eta_s(d, rec.front_face),
                sin_theta_s(normalize_s(r_in.dir), rec.normal),
            ) > FX_SCALE as int ==> (res matches Some(p) && p.1.dir == reflect_s(
                normalize_s(r_in.dir),
                rec.normal,
            )))
        },
    }
}

impl Material {
    /// Dispatch to the variant's scatter rule.
    pub fn scatter(&self, r_in: Ray, rec: &HitRecord) -> (res: Option<(Vec3, Ray)>)
        ensures
            possible_scatter(*self, r_in, *rec, res),
            res matches Some(p) ==> p.1.orig == rec.p,
            self matches Material::Lambertian(l) ==> res is Some && (res matches Some(p) ==> p.0
                == l.albedo),
            self matches Material::Dielectric(d) ==> res is Some && (res matches Some(p) ==> p.0
                == (Vec3 { x: FX_SCALE, y: FX_SCALE, z: FX_SCALE })),
            self matches Material::Metal(m) ==> {
                &&& (res matches Some(p) ==> p.0 == m.albedo && dot_s(p.1.dir, rec.normal) > 0)
                &&& (m.fuzz == 0 ==> {
                    let refl = reflect_s(normalize_s(r_in.dir), rec.normal);
                    &&& (res is Some <==> dot_s(refl, rec.normal) > 0)
                    &&& (res matches Some(p) ==> p.1.dir == refl)
                })
            },
    {
        match self {
            Material::Lambertian(l) => l.scatter(r_in, rec),
            Material::Metal(m) => m.scatter(r_in, rec),
            Material::Dielectric(d) => d.scatter(r_in, rec),
        }
    }
}

} // verus!
