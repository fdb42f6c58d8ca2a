//! The camera: maps normalized screen coordinates to world-space rays,
//! modeling field of view, aspect ratio and depth of field.

use crate::fx::{fx_div, fx_div_s, fx_mul, fx_mul_s, FX_SCALE};
use crate::ray::Ray;
use crate::vec3::{cross_s, ls_s, normalize_s, v_add_s, v_div_s, v_scale_s, v_sub_s, Vec3};
use vstd::prelude::*;

verus! {

#[derive(Clone, Copy, Debug, PartialEq, Eq, Structural)]
pub struct Camera {
    pub origin: Vec3,
    pub lower_left_corner: Vec3,
    pub horizontal: Vec3,
    pub vertical: Vec3,
    pub u: Vec3,
    pub v: Vec3,
    pub w: Vec3,
    pub lens_radius: i64,
}

/// The camera derived from its configuration: an orthonormal-by-construction
/// basis `u, v, w`, a viewport of height `2 * tan_half_fov * focus_dist` and
/// width `aspect_ratio` times that, and a lens of half the aperture.
pub open spec fn camera_s(
    lookfrom: Vec3,
    lookat: Vec3,
    vup: Vec3,
    tan_half_fov: int,
    aspect_ratio: int,
    aperture: int,
    focus_dist: int,
) -> Camera {
    let w = normalize_s(v_sub_s(lookfrom, lookat));
    let u = normalize_s(cross_s(vup, w));
    let v = cross_s(w, u);
    let viewport_height = fx_mul_s(fx_mul_s(131072, tan_half_fov), focus_dist);
    let viewport_width = fx_mul_s(aspect_ratio, viewport_height);
    let horizontal = v_scale_s(u, viewport_width);
    let vertical = v_scale_s(v, viewport_height);
    let lower_left_corner = v_sub_s(
        v_sub_s(v_sub_s(lookfrom, v_div_s(horizontal, 131072)), v_div_s(vertical, 131072)),
        v_scale_s(w, focus_dist),
    );
    Camera {
        origin: lookfrom,
        lower_left_corner,
        horizontal,
        vertical,
        u,
        v,
        w,
        lens_radius: fx_div_s(aperture, 131072) as i64,
    }
}

/// The ray for screen coordinates `(s, t)` and a lens disk sample `d`.
pub open spec fn get_ray_s(cam: Camera, s: int, t: int, d: Vec3) -> Ray {
    let rd = v_scale_s(d, cam.lens_radius as int);
    let offset = v_add_s(v_scale_s(cam.u, rd.x as int), v_scale_s(cam.v, rd.y as int));
    Ray {
        orig: v_add_s(cam.origin, offset),
        dir: v_sub_s(
            v_sub_s(
                v_add_s(
                    v_add_s(cam.lower_left_corner, v_scale_s(cam.horizontal, s)),
                    v_scale_s(cam.vertical, t),
                ),
                cam.origin,
            ),
            offset,
        ),
    }
}

impl Camera {
    /// Build a camera from eye position, look-at point, up direction, the
    /// tangent of half the vertical field of view, aspect ratio, aperture
    /// and focus distance.  For a field of view of `vfov` degrees the
    /// caller passes `tan(deg_to_rad(vfov) / 2)`; the tangent is taken as
    /// an input because no fixed-point tangent belongs to this library.  A
    /// degenerate basis (look direction parallel to up) is a caller error
    /// and yields degenerate values, not a failure.
    pub fn new(
        lookfrom: Vec3,
        lookat: Vec3,
        vup: Vec3,
        tan_half_fov: i64,
        aspect_ratio: i64,
        aperture: i64,
        focus_dist: i64,
    ) -> (cam: Camera)
        ensures
            cam == camera_s(
                lookfrom,
                lookat,
                vup,
                tan_half_fov as int,
                aspect_ratio as int,
                aperture as int,
                focus_dist as int,
            ),
    {
        let w = lookfrom.sub(lookat).normalize();
        let u = vup.cross(w).normalize();
        let v = w.cross(u);
        let viewport_height = fx_mul(fx_mul(131072, tan_half_fov), focus_dist);
        let viewport_width = fx_mul(aspect_ratio, viewport_height);
        let horizontal = u.scale(viewport_width);
        let vertical = v.scale(viewport_height);
        let lower_left_corner = lookfrom
            .sub(horizontal.div(131072))
            .sub(vertical.div(131072))
            .sub(w.scale(focus_dist));
        Camera {
            origin: lookfrom,
            lower_left_corner,
            horizontal,
            vertical,
            u,
            v,
            w,
            lens_radius: fx_div(aperture, 131072),
        }
    }

    /// The camera ray through screen coordinates `(s, t)`, its origin
    /// offset by a random lens disk sample scaled to the lens radius.  With
    /// a zero lens radius this is exactly the pinhole ray.
    pub fn get_ray(&self, s: i64, t: i64) -> (r: Ray)
        ensures
            exists|d: Vec3|
                ls_s(d) < FX_SCALE && d.z == 0 && r == get_ray_s(*self, s as int, t as int, d),
            self.lens_radius == 0 ==> r == get_ray_s(
                *self,
                s as int,
                t as int,
                Vec3 { x: 0, y: 0, z: 0 },
            ),
    {
        let d = Vec3::random_in_unit_disk();
        let rd = d.scale(self.lens_radius);
        let offset = self.u.scale(rd.x()).add(self.v.scale(rd.y()));
        let r = Ray::new(
            self.origin.add(offset),
            self
                .lower_left_corner
                .add(self.horizontal.scale(s))
                .add(self.vertical.scale(t))
                .sub(self.origin)
                .sub(offset),
        );
        proof {
            assert(ls_s(d) < FX_SCALE && d.z == 0 && r == get_ray_s(*self, s as int, t as int, d));
            if self.lens_radius == 0 {
                let zero = Vec3 { x: 0i64, y: 0i64, z: 0i64 };
                assert(v_scale_s(d, 0) == zero);
                assert(v_scale_s(zero, 0) == zero);
            }
        }
        r
    }
}

} // verus!
