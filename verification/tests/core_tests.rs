use raytracer::camera::Camera;
use raytracer::fx::{fx_add, fx_div, fx_mul, fx_sqrt, fx_sub, FX_MAX, FX_SCALE};
use raytracer::material::{Dielectric, Lambertian, Material, Metal};
use raytracer::ray::Ray;
use raytracer::render::{random_scene, ray_color, render, render_row};
use raytracer::scene::Scene;
use raytracer::sphere::{HitRecord, Sphere};
use raytracer::utils::{clamp, deg_to_rad, random_double, INFINITY, PI};
use raytracer::vec3::Vec3;

fn gray() -> Material {
    Material::Lambertian(Lambertian::new(Vec3::new(32768, 32768, 32768)))
}

#[test]
fn fx_arithmetic_exact_values() {
    assert_eq!(fx_mul(98304, 131072), 196608); // 1.5 * 2 == 3
    assert_eq!(fx_div(196608, 131072), 98304); // 3 / 2 == 1.5
    assert_eq!(fx_add(65536, -131072), -65536);
    assert_eq!(fx_sub(32768, 65536), -32768);
    assert_eq!(fx_mul(-98304, 32768), -49152); // -1.5 * 0.5 == -0.75
    assert_eq!(fx_mul(-1, 32768), 0); // rounds toward zero
    assert_eq!(fx_add(FX_MAX, FX_MAX), FX_MAX); // saturates
    assert_eq!(fx_sqrt(65536), 65536);
    assert_eq!(fx_sqrt(262144), 131072); // sqrt(4) == 2
    assert_eq!(fx_sqrt(131072), 92681); // sqrt(2), truncated
    assert_eq!(fx_sqrt(-65536), 0);
}

#[test]
fn utils_clamp_and_angles() {
    assert_eq!(clamp(5, 0, 3), 3);
    assert_eq!(clamp(-5, 0, 3), 0);
    assert_eq!(clamp(2, 0, 3), 2);
    assert_eq!(deg_to_rad(11796480), PI); // 180 degrees
    assert_eq!(deg_to_rad(0), 0);
}

#[test]
fn random_double_stays_in_unit_interval() {
    for _ in 0..1000 {
        let r = random_double();
        assert!(0 <= r && r < FX_SCALE);
    }
}

#[test]
fn random_sphere_samples_stay_inside() {
    for _ in 0..100 {
        let p = Vec3::random_in_unit_sphere();
        assert!(p.length_squared() < FX_SCALE);
        // degenerate draws are rejected, so normalizing cannot collapse
        assert!(p.length_squared() >= 4096);
        let d = Vec3::random_in_unit_disk();
        assert!(d.length_squared() < FX_SCALE);
        assert_eq!(d.z(), 0);
    }
}

#[test]
fn vector_operations_exact_values() {
    let a = Vec3::new(65536, 131072, -65536);
    let b = Vec3::new(32768, -65536, 65536);
    assert_eq!(a.add(b), Vec3::new(98304, 65536, 0));
    assert_eq!(a.sub(b), Vec3::new(32768, 196608, -131072));
    assert_eq!(a.neg(), Vec3::new(-65536, -131072, 65536));
    assert_eq!(a.dot(b), 32768 - 131072 - 65536);
    assert_eq!(a.scale(131072), Vec3::new(131072, 262144, -131072));
    assert_eq!(a.div(131072), Vec3::new(32768, 65536, -32768));
    // cross of the x and y unit vectors is the z unit vector
    let x = Vec3::new(65536, 0, 0);
    let y = Vec3::new(0, 65536, 0);
    assert_eq!(x.cross(y), Vec3::new(0, 0, 65536));
    assert_eq!(a.length_squared(), 65536 + 262144 + 65536);
    assert_eq!(y.normalize(), y);
}

#[test]
fn to_rgb_scales_and_clamps() {
    assert_eq!(Vec3::new(65536, 0, 32768).to_rgb(1), (255, 0, 127));
    assert_eq!(Vec3::new(131072, -65536, 0).to_rgb(2), (255, 0, 0));
    // values above one clamp to full intensity
    assert_eq!(Vec3::new(655360, 65536, 65536).to_rgb(1), (255, 255, 255));
}

// A ray fired straight at a sphere's center hits at the distance to the
// center minus the radius, through the nearer root.
#[test]
fn head_on_hit_uses_near_root() {
    let s = Sphere::new(Vec3::new(0, 0, -262144), 65536, gray());
    let r = Ray::new(Vec3::new(0, 0, 0), Vec3::new(0, 0, -65536));
    let rec = s.hit(r, 66, INFINITY).expect("head-on ray must hit");
    assert_eq!(rec.t, 196608); // 4 - 1 == 3
    assert_eq!(rec.p, Vec3::new(0, 0, -196608));
    assert_eq!(rec.normal, Vec3::new(0, 0, 65536));
    assert!(rec.front_face);
}

// A ray whose closest approach to the center exceeds the radius misses.
#[test]
fn distant_ray_misses() {
    let s = Sphere::new(Vec3::new(0, 196608, -327680), 65536, gray());
    let r = Ray::new(Vec3::new(0, 0, 0), Vec3::new(0, 0, -65536));
    assert!(s.hit(r, 66, INFINITY).is_none());
}

// A ray starting inside the sphere exits through the far root, with the
// stored normal flipped against the ray.
#[test]
fn inside_ray_uses_far_root() {
    let s = Sphere::new(Vec3::new(0, 0, -65536), 65536, gray());
    let r = Ray::new(Vec3::new(0, 0, 0), Vec3::new(0, 0, -65536));
    let rec = s.hit(r, 66, INFINITY).expect("ray from inside must exit");
    assert_eq!(rec.t, 131072);
    assert!(!rec.front_face);
    assert_eq!(rec.normal, Vec3::new(0, 0, 65536));
}

// Two overlapping spheres along one ray: the nearer intersection wins,
// regardless of insertion order.
#[test]
fn scene_hit_is_order_independent() {
    let near = Sphere::new(Vec3::new(0, 0, -262144), 65536, gray());
    let far = Sphere::new(Vec3::new(0, 0, -393216), 65536, gray());
    let r = Ray::new(Vec3::new(0, 0, 0), Vec3::new(0, 0, -65536));

    let mut scene_a = Scene::new();
    scene_a.add(near);
    scene_a.add(far);
    let mut scene_b = Scene::new();
    scene_b.add(far);
    scene_b.add(near);

    let rec_a = scene_a.hit(r, 66, INFINITY).expect("must hit");
    let rec_b = scene_b.hit(r, 66, INFINITY).expect("must hit");
    assert_eq!(rec_a.t, 196608);
    assert_eq!(rec_b.t, 196608);
    assert_eq!(rec_a.p, rec_b.p);
}

#[test]
fn empty_scene_misses() {
    let scene = Scene::new();
    let r = Ray::new(Vec3::new(0, 0, 0), Vec3::new(0, 0, -65536));
    assert!(scene.hit(r, 66, INFINITY).is_none());
}

// reflect(normalize(1,-1,0), (0,1,0)) == normalize(1,1,0), exactly.
#[test]
fn reflect_off_floor_flips_y() {
    let v = Vec3::new(65536, -65536, 0).normalize();
    let n = Vec3::new(0, 65536, 0);
    let expected = Vec3::new(65536, 65536, 0).normalize();
    assert_eq!(v.reflect(n), expected);
    assert_eq!(v.reflect(n), Vec3::new(46341, 46341, 0));
}

fn record_at(p: Vec3, normal: Vec3, front_face: bool, mat: Material) -> HitRecord {
    HitRecord { p, normal, t: 65536, front_face, mat }
}

// Lambertian scatter never absorbs, for any normal and incoming ray.
#[test]
fn lambertian_never_absorbs() {
    let lam = Lambertian::new(Vec3::new(13107, 26214, 39322));
    let rec = record_at(Vec3::new(0, 0, -196608), Vec3::new(0, 0, 65536), true, gray());
    for _ in 0..100 {
        let r_in = Ray::new(Vec3::new(0, 0, 0), Vec3::new(0, 0, -65536));
        let (attenuation, scattered) = lam.scatter(r_in, &rec).expect("lambertian must scatter");
        assert_eq!(attenuation, Vec3::new(13107, 26214, 39322));
        assert_eq!(scattered.orig, rec.p);
    }
}

// Metal with zero fuzz is a perfect mirror.
#[test]
fn metal_zero_fuzz_is_exact_mirror() {
    let metal = Metal::new(Vec3::new(45875, 39322, 32768), 0);
    let rec = record_at(Vec3::new(0, 0, 0), Vec3::new(0, 65536, 0), true, gray());
    let r_in = Ray::new(Vec3::new(-65536, 65536, 0), Vec3::new(65536, -65536, 0));
    let (_, scattered) = metal.scatter(r_in, &rec).expect("reflection leaves the surface");
    assert_eq!(scattered.dir, Vec3::new(46341, 46341, 0));
    assert_eq!(scattered.dir, r_in.dir.normalize().reflect(rec.normal));
}

// A reflection that would continue into the surface is absorbed.
#[test]
fn metal_absorbs_into_surface() {
    let metal = Metal::new(Vec3::new(45875, 39322, 32768), 0);
    let rec = record_at(Vec3::new(0, 0, 0), Vec3::new(0, 65536, 0), true, gray());
    let r_in = Ray::new(Vec3::new(-65536, -65536, 0), Vec3::new(65536, 65536, 0));
    assert!(metal.scatter(r_in, &rec).is_none());
}

#[test]
fn metal_fuzz_is_clamped_at_construction() {
    let albedo = Vec3::new(32768, 32768, 32768);
    assert_eq!(Metal::new(albedo, 200000).fuzz, 65536);
    assert_eq!(Metal::new(albedo, -5).fuzz, 0);
    assert_eq!(Metal::new(albedo, 12345).fuzz, 12345);
}

// A matched refractive index bends nothing at perpendicular incidence.
#[test]
fn matched_dielectric_keeps_direction() {
    assert_eq!(
        Vec3::new(0, 0, -65536).refract(Vec3::new(0, 0, 65536), 65536),
        Vec3::new(0, 0, -65536)
    );
    let glass = Dielectric::new(65536);
    let rec = record_at(Vec3::new(0, 0, -32768), Vec3::new(0, 0, 65536), true, gray());
    let r_in = Ray::new(Vec3::new(0, 0, 0), Vec3::new(0, 0, -65536));
    let (attenuation, scattered) = glass.scatter(r_in, &rec).expect("dielectric must scatter");
    assert_eq!(attenuation, Vec3::new(65536, 65536, 65536));
    assert_eq!(scattered.dir, Vec3::new(0, 0, -65536));
}

// Past the critical angle a dielectric always reflects.
#[test]
fn dielectric_total_internal_reflection() {
    let glass = Dielectric::new(98304); // index 1.5, seen from inside
    let rec = record_at(Vec3::new(0, 0, 0), Vec3::new(0, 65536, 0), false, gray());
    let r_in = Ray::new(Vec3::new(-65536, 65536, 0), Vec3::new(65536, -65536, 0));
    let (_, scattered) = glass.scatter(r_in, &rec).expect("dielectric must scatter");
    assert_eq!(scattered.dir, Vec3::new(46341, 46341, 0));
}

// Exhausted recursion depth yields black, for any ray and scene.
#[test]
fn shade_at_zero_depth_is_black() {
    let mut scene = Scene::new();
    scene.add(Sphere::new(Vec3::new(0, 0, -65536), 32768, gray()));
    let r = Ray::new(Vec3::new(0, 0, 0), Vec3::new(0, 0, -65536));
    assert_eq!(ray_color(r, &scene, 0), Vec3::new(0, 0, 0));
    let up = Ray::new(Vec3::new(0, 0, 0), Vec3::new(0, 65536, 0));
    assert_eq!(ray_color(up, &scene, 0), Vec3::new(0, 0, 0));
}

// The background gradient is sky blue straight up and white straight down.
#[test]
fn background_gradient_endpoints() {
    let mut scene = Scene::new();
    scene.add(Sphere::new(Vec3::new(0, 0, -65536), 32768, gray()));
    let up = Ray::new(Vec3::new(0, 0, 0), Vec3::new(0, 65536, 0));
    assert_eq!(ray_color(up, &scene, 5), Vec3::new(32768, 45875, 65536));
    let down = Ray::new(Vec3::new(0, 0, 0), Vec3::new(0, -65536, 0));
    assert_eq!(ray_color(down, &scene, 5), Vec3::new(65536, 65536, 65536));
}

// End to end: the image-center camera ray intersects the single sphere, so
// its shade differs from the pure background gradient.
#[test]
fn center_ray_hits_single_sphere() {
    let mut scene = Scene::new();
    scene.add(Sphere::new(Vec3::new(0, 0, -65536), 32768, gray()));
    let cam = Camera::new(
        Vec3::new(0, 0, 0),
        Vec3::new(0, 0, -65536),
        Vec3::new(0, 65536, 0),
        65536, // 90 degree vertical field of view
        65536,
        0,
        65536,
    );
    assert_eq!(cam.lower_left_corner, Vec3::new(-65536, -65536, -65536));
    assert_eq!(cam.lens_radius, 0);
    let ray = cam.get_ray(32768, 32768);
    assert_eq!(ray.orig, Vec3::new(0, 0, 0));
    assert_eq!(ray.dir, Vec3::new(0, 0, -65536));
    assert!(scene.hit(ray, 66, INFINITY).is_some());

    // one bounce: the hit attenuates the depth-exhausted black
    let shaded = ray_color(ray, &scene, 1);
    assert_eq!(shaded, Vec3::new(0, 0, 0));
    // the background for the same direction is a mid gradient, not black
    let background = Vec3::new(49152, 55705, 65536);
    assert_ne!(shaded, background);
    let miss = Ray::new(Vec3::new(0, 0, 0), Vec3::new(0, 0, 65536));
    assert_eq!(ray_color(miss, &scene, 1), background);
}

#[test]
fn render_produces_full_raster() {
    let mut scene = Scene::new();
    scene.add(Sphere::new(Vec3::new(0, 0, -65536), 32768, gray()));
    let cam = Camera::new(
        Vec3::new(0, 0, 0),
        Vec3::new(0, 0, -65536),
        Vec3::new(0, 65536, 0),
        65536,
        65536,
        0,
        65536,
    );
    let row = render_row(&scene, &cam, 4, 3, 0, 2, 3);
    assert_eq!(row.len(), 4);
    let pixels = render(&scene, &cam, 4, 3, 2, 3);
    assert_eq!(pixels.len(), 12);
}

#[test]
fn random_scene_holds_ground_and_landmarks() {
    let world = random_scene();
    let n = world.objects.len();
    assert!(n >= 4);
    let ground = world.objects[0];
    assert_eq!(ground.center, Vec3::new(0, -65536000, 0));
    assert_eq!(ground.radius, 65536000);
    let glass = world.objects[n - 3];
    assert_eq!(glass.center, Vec3::new(0, 65536, 0));
    assert!(matches!(glass.mat, Material::Dielectric(d) if d.refractive_index == 98304));
    let diffuse = world.objects[n - 2];
    assert_eq!(diffuse.center, Vec3::new(-262144, 65536, 0));
    let mirror = world.objects[n - 1];
    assert_eq!(mirror.center, Vec3::new(262144, 65536, 0));
    assert!(matches!(mirror.mat, Material::Metal(m) if m.fuzz == 0));
    for s in world.objects.iter() {
        assert!(s.radius > 0);
    }
    // every grid sphere sits at bench height with the small radius and one
    // of the three material kinds, metal fuzz below one half
    assert!(n <= 488);
    for k in 1..(n - 3) {
        let s = world.objects[k];
        assert_eq!(s.radius, 13107);
        assert_eq!(s.center.y(), 13107);
        match s.mat {
            Material::Lambertian(l) => {
                assert!(0 <= l.albedo.x() && l.albedo.x() <= 65536);
            }
            Material::Metal(m) => {
                assert!(0 <= m.fuzz && m.fuzz < 32768);
            }
            Material::Dielectric(d) => {
                assert_eq!(d.refractive_index, 98304);
            }
        }
    }
}
