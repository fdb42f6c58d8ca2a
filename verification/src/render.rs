//! The renderer: recursive shading and per-pixel multi-sample accumulation,
//! and the procedural demonstration scene.

use crate::camera::{get_ray_s, Camera};
use crate::fx::{fx_add, fx_add_s, fx_div, fx_div_s, fx_from_i32, fx_from_u32, fx_mul, fx_mul_s,
    fx_sub, fx_sub_s, sat, FX_SCALE};
use crate::material::{color_wf, possible_scatter, Dielectric, Lambertian, Material, Metal};
use crate::ray::Ray;
use crate::scene::{scene_hit_s, Scene};
use crate::sphere::Sphere;
use crate::utils::{random_double, random_range_double, INFINITY};
use crate::vec3::{channel_s, lemma_scaled_fraction_bound, len_s, ls_s, normalize_s, v_add_s,
    v_mul_s, v_scale_s, v_sub_s, Vec3};
use vstd::prelude::*;

verus! {

/// The lower bound of every hit window: a small positive parameter that
/// keeps a bounced ray from intersecting the surface it starts on.
pub const EPSILON: i64 = 66;

/// The background gradient: white blended toward sky blue by the height of
/// the normalized ray direction.
pub open spec fn background_s(r: Ray) -> Vec3 {
    let unit = normalize_s(r.dir);
    let t = fx_mul_s(32768, fx_add_s(unit.y as int, FX_SCALE as int));
    v_add_s(
        v_scale_s(Vec3 { x: FX_SCALE, y: FX_SCALE, z: FX_SCALE }, fx_sub_s(FX_SCALE as int, t)),
        v_scale_s(Vec3 { x: 32768, y: 45875, z: FX_SCALE }, t),
    )
}

/// `c` is a color the shading recursion can return for `r`, whatever the
/// random draws were: black once the bounce budget is spent, the background
/// gradient on a miss, and otherwise a possible scatter outcome's
/// attenuation times a possible color of the continued ray (black when that
/// outcome absorbs the ray).
pub open spec fn possible_color(objs: Seq<Sphere>, r: Ray, depth: int, c: Vec3) -> bool
    decreases depth,
{
    if depth <= 0 {
        c == (Vec3 { x: 0, y: 0, z: 0 })
    } else {
        match scene_hit_s(objs, r, EPSILON as int, INFINITY as int) {
            None => c == background_s(r),
            Some(rec) => exists|res: Option<(Vec3, Ray)>|
                possible_scatter(rec.mat, r, rec, res) && match res {
                    None => c == (Vec3 { x: 0, y: 0, z: 0 }),
                    Some(p) => exists|c2: Vec3|
                        possible_color(objs, p.1, depth - 1, c2) && c == v_mul_s(p.0, c2),
                },
        }
    }
}

/// The color a single ray gathers: black once the bounce budget is spent,
/// the background gradient on a miss, and otherwise the scattered color
/// attenuated by the surface (black again if the surface absorbs the ray).
pub fn ray_color(r: Ray, world: &Scene, depth: u32) -> (c: Vec3)
    ensures
        possible_color(world.objects@, r, depth as int, c),
        depth == 0 ==> c == (Vec3 { x: 0, y: 0, z: 0 }),
        depth > 0 && scene_hit_s(world.objects@, r, EPSILON as int, INFINITY as int) is None
            ==> c == background_s(r),
    decreases depth,
{
    let ghost objs = world.objects@;
    if depth == 0 {
        return Vec3::new(0, 0, 0);
    }
    match world.hit(r, EPSILON, INFINITY) {
        Some(rec) => {
            let scat = rec.mat.scatter(r, &rec);
            let c = match scat {
                Some((attenuation, scattered)) => {
                    let c2 = ray_color(scattered, world, depth - 1);
                    let c = attenuation.mul(c2);
                    proof {
                        assert(exists|cx: Vec3|
                            possible_color(objs, scattered, depth as int - 1, cx) && c == v_mul_s(
                                attenuation,
                                cx,
                            ));
                    }
                    c
                },
                None => Vec3::new(0, 0, 0),
            };
            proof {
                assert(possible_scatter(rec.mat, r, rec, scat) && match scat {
                    None => c == (Vec3 { x: 0, y: 0, z: 0 }),
                    Some(p) => exists|cx: Vec3|
                        possible_color(objs, p.1, depth as int - 1, cx) && c == v_mul_s(p.0, cx),
                });
                assert(exists|res: Option<(Vec3, Ray)>|
                    possible_scatter(rec.mat, r, rec, res) && match res {
                        None => c == (Vec3 { x: 0, y: 0, z: 0 }),
                        Some(p) => exists|cx: Vec3|
                            possible_color(objs, p.1, depth as int - 1, cx) && c == v_mul_s(
                                p.0,
                                cx,
                            ),
                    });
            }
            c
        },
        None => {
            let unit_direction = r.direction().normalize();
            let t = fx_mul(32768, fx_add(unit_direction.y(), FX_SCALE));
            let c = Vec3::new(FX_SCALE, FX_SCALE, FX_SCALE).scale(fx_sub(FX_SCALE, t)).add(
                Vec3::new(32768, 45875, FX_SCALE).scale(t),
            );
            proof {
                assert(c == background_s(r));
            }
            c
        },
    }
}

/// The jittered screen coordinate of pixel index `i` among `extent` pixels,
/// for the unit draw `q`: `(i + q) / (extent - 1)`.
pub open spec fn jitter_coord(i: int, q: int, extent: int) -> int {
    fx_div_s(fx_add_s(sat(i * 65536), q), sat((extent - 1) * 65536))
}

/// `acc` is a color sum the sampling loop can accumulate over `n` jittered
/// camera rays for the pixel at column `i` of row `j`, whatever the random
/// draws were.
pub open spec fn possible_sample_sum(
    objs: Seq<Sphere>,
    cam: Camera,
    width: int,
    height: int,
    i: int,
    j: int,
    n: int,
    depth: int,
    acc: Vec3,
) -> bool
    decreases n,
{
    if n <= 0 {
        acc == (Vec3 { x: 0, y: 0, z: 0 })
    } else {
        exists|prev: Vec3, q1: int, q2: int, d: Vec3, c: Vec3|
            {
                &&& possible_sample_sum(objs, cam, width, height, i, j, n - 1, depth, prev)
                &&& 0 <= q1 < 65536
                &&& 0 <= q2 < 65536
                &&& ls_s(d) < FX_SCALE
                &&& d.z == 0
                &&& possible_color(
                    objs,
                    get_ray_s(cam, jitter_coord(i, q1, width), jitter_coord(j, q2, height), d),
                    depth,
                    c,
                )
                &&& acc == v_add_s(prev, c)
            }
    }
}

/// `px` is an 8-bit pixel the renderer can produce at column `i` of row
/// `j`: a possible sample sum, averaged over the sample count and taken to
/// 8-bit channels.
pub open spec fn possible_pixel(
    objs: Seq<Sphere>,
    cam: Camera,
    width: int,
    height: int,
    i: int,
    j: int,
    samples: int,
    depth: int,
    px: (u8, u8, u8),
) -> bool {
    exists|sum: Vec3|
        {
            &&& possible_sample_sum(objs, cam, width, height, i, j, samples, depth, sum)
            &&& px.0 == channel_s(sum.x as int, sat(samples * 65536))
            &&& px.1 == channel_s(sum.y as int, sat(samples * 65536))
            &&& px.2 == channel_s(sum.z as int, sat(samples * 65536))
        }
}

/// One more sample extends a possible sample sum.
proof fn lemma_sample_sum_step(
    objs: Seq<Sphere>,
    cam: Camera,
    width: int,
    height: int,
    i: int,
    j: int,
    n: int,
    depth: int,
    prev: Vec3,
    q1: int,
    q2: int,
    d: Vec3,
    c: Vec3,
)
    requires
        n >= 0,
        possible_sample_sum(objs, cam, width, height, i, j, n, depth, prev),
        0 <= q1 < 65536,
        0 <= q2 < 65536,
        ls_s(d) < FX_SCALE,
        d.z == 0,
        possible_color(
            objs,
            get_ray_s(cam, jitter_coord(i, q1, width), jitter_coord(j, q2, height), d),
            depth,
            c,
        ),
    ensures
        possible_sample_sum(objs, cam, width, height, i, j, n + 1, depth, v_add_s(prev, c)),
{
}

/// One row of the output raster, in image order: `samples_per_pixel` jittered
/// camera rays per pixel, averaged and taken to 8-bit channels.
pub fn render_row(
    world: &Scene,
    cam: &Camera,
    image_width: u32,
    image_height: u32,
    j: u32,
    samples_per_pixel: u32,
    max_depth: u32,
) -> (row: Vec<(u8, u8, u8)>)
    requires
        image_width >= 2,
        image_height >= 2,
    ensures
        row.len() == image_width as int,
        forall|i: int|
            0 <= i < image_width as int ==> possible_pixel(
                world.objects@,
                *cam,
                image_width as int,
                image_height as int,
                i,
                j as int,
                samples_per_pixel as int,
                max_depth as int,
                #[trigger] row@[i],
            ),
{
    let ghost objs = world.objects@;
    let mut row: Vec<(u8, u8, u8)> = Vec::new();
    let w_minus_one = fx_from_u32(image_width - 1);
    let h_minus_one = fx_from_u32(image_height - 1);
    let mut i: u32 = 0;
    while i < image_width
        invariant
            image_width >= 2,
            image_height >= 2,
            i <= image_width,
            row.len() == i as int,
            objs == world.objects@,
            w_minus_one as int == sat((image_width as int - 1) * 65536),
            h_minus_one as int == sat((image_height as int - 1) * 65536),
            forall|k: int|
                0 <= k < i as int ==> possible_pixel(
                    objs,
                    *cam,
                    image_width as int,
                    image_height as int,
                    k,
                    j as int,
                    samples_per_pixel as int,
                    max_depth as int,
                    #[trigger] row@[k],
                ),
        decreases image_width - i,
    {
        let mut pixel_color = Vec3::new(0, 0, 0);
        let mut s: u32 = 0;
        while s < samples_per_pixel
            invariant
                image_width >= 2,
                image_height >= 2,
                i < image_width,
                s <= samples_per_pixel,
                objs == world.objects@,
                w_minus_one as int == sat((image_width as int - 1) * 65536),
                h_minus_one as int == sat((image_height as int - 1) * 65536),
                possible_sample_sum(
                    objs,
                    *cam,
                    image_width as int,
                    image_height as int,
                    i as int,
                    j as int,
                    s as int,
                    max_depth as int,
                    pixel_color,
                ),
            decreases samples_per_pixel - s,
        {
            let ghost prev = pixel_color;
            let q1 = random_double();
            let q2 = random_double();
            let u = fx_div(fx_add(fx_from_u32(i), q1), w_minus_one);
            let v = fx_div(fx_add(fx_from_u32(j), q2), h_minus_one);
            let ray = cam.get_ray(u, v);
            let c = ray_color(ray, world, max_depth);
            pixel_color = pixel_color.add(c);
            proof {
                let d = choose|d: Vec3|
                    ls_s(d) < FX_SCALE && d.z == 0 && ray == get_ray_s(
                        *cam,
                        u as int,
                        v as int,
                        d,
                    );
                assert(u as int == jitter_coord(i as int, q1 as int, image_width as int));
                assert(v as int == jitter_coord(j as int, q2 as int, image_height as int));
                lemma_sample_sum_step(
                    objs,
                    *cam,
                    image_width as int,
                    image_height as int,
                    i as int,
                    j as int,
                    s as int,
                    max_depth as int,
                    prev,
                    q1 as int,
                    q2 as int,
                    d,
                    c,
                );
            }
            s = s + 1;
        }
        let px = pixel_color.to_rgb(samples_per_pixel);
        row.push(px);
        proof {
            assert(possible_pixel(
                objs,
                *cam,
                image_width as int,
                image_height as int,
                i as int,
                j as int,
                samples_per_pixel as int,
                max_depth as int,
                px,
            ));
        }
        i = i + 1;
    }
    row
}

/// The full raster, one 8-bit RGB triple per pixel, with the vertical flip:
/// the pixel at image position `(x, y)` sits at index `y * image_width + x`
/// and is a possible pixel of world-scan row `j == image_height - 1 - y`
/// (image rows run opposite to the world-space scan direction).
pub fn render(
    world: &Scene,
    cam: &Camera,
    image_width: u32,
    image_height: u32,
    samples_per_pixel: u32,
    max_depth: u32,
) -> (pixels: Vec<(u8, u8, u8)>)
    requires
        image_width >= 2,
        image_height >= 2,
    ensures
        pixels.len() == (image_width as int) * (image_height as int),
        forall|x: int, y: int|
            0 <= x < image_width as int && 0 <= y < image_height as int ==> possible_pixel(
                world.objects@,
                *cam,
                image_width as int,
                image_height as int,
                x,
                image_height as int - 1 - y,
                samples_per_pixel as int,
                max_depth as int,
                #[trigger] pixels@[y * (image_width as int) + x],
            ),
{
    let ghost objs = world.objects@;
    let ghost w = image_width as int;
    let mut pixels: Vec<(u8, u8, u8)> = Vec::new();
    let mut y: u32 = 0;
    while y < image_height
        invariant
            image_width >= 2,
            image_height >= 2,
            y <= image_height,
            objs == world.objects@,
            w == image_width as int,
            pixels.len() == (y as int) * w,
            forall|x: int, yy: int|
                0 <= x < w && 0 <= yy < y as int ==> possible_pixel(
                    objs,
                    *cam,
                    w,
                    image_height as int,
                    x,
                    image_height as int - 1 - yy,
                    samples_per_pixel as int,
                    max_depth as int,
                    #[trigger] pixels@[yy * w + x],
                ),
        decreases image_height - y,
    {
        let ghost old_pixels = pixels@;
        let j = image_height - 1 - y;
        let mut row = render_row(world, cam, image_width, image_height, j, samples_per_pixel, max_depth);
        let ghost row_view = row@;
        pixels.append(&mut row);
        proof {
            assert((y as int + 1) * w == (y as int) * w + w) by (nonlinear_arith);
            assert forall|x: int, yy: int|
                0 <= x < w && 0 <= yy < y as int + 1 implies possible_pixel(
                objs,
                *cam,
                w,
                image_height as int,
                x,
                image_height as int - 1 - yy,
                samples_per_pixel as int,
                max_depth as int,
                #[trigger] pixels@[yy * w + x],
            ) by {
                if yy < y as int {
                    assert(yy * w + x < (y as int) * w) by (nonlinear_arith)
                        requires
                            0 <= x < w,
                            0 <= yy < y as int,
                    ;
                    assert(pixels@[yy * w + x] == old_pixels[yy * w + x]);
                    assert(yy * w + x >= 0) by (nonlinear_arith)
                        requires
                            0 <= x,
                            0 <= yy,
                            w >= 2,
                    ;
                } else {
                    assert(pixels@[yy * w + x] == row_view[x]);
                }
            }
        }
        y = y + 1;
    }
    proof {
        assert((image_height as int) * w == w * (image_height as int)) by (nonlinear_arith);
    }
    pixels
}

/// A sphere of the random grid: radius one fifth at bench height one fifth,
/// placed by two cell indices in `[-11, 11)` plus scaled unit draws, kept
/// away from the metal landmark sphere, and carrying one of the three
/// material kinds — a Lambertian color, a light metal with fuzz below one
/// half, or glass of index one and a half.
pub open spec fn is_grid_sphere(s: Sphere) -> bool {
    &&& s.radius == 13107
    &&& s.center.y == 13107
    &&& exists|a: int, u: int, b: int, w: int|
        #![trigger fx_add_s(sat(a * 65536), fx_mul_s(58982, u)), fx_add_s(
            sat(b * 65536),
            fx_mul_s(58982, w),
        )]
        {
            &&& -11 <= a < 11
            &&& -11 <= b < 11
            &&& 0 <= u < 65536
            &&& 0 <= w < 65536
            &&& s.center.x == fx_add_s(sat(a * 65536), fx_mul_s(58982, u))
            &&& s.center.z == fx_add_s(sat(b * 65536), fx_mul_s(58982, w))
        }
    &&& len_s(v_sub_s(s.center, Vec3 { x: 262144, y: 13107, z: 0 })) > 58982
    &&& match s.mat {
        Material::Lambertian(l) => color_wf(l.albedo),
        Material::Metal(m) => color_wf(m.albedo) && 0 <= m.fuzz < 32768,
        Material::Dielectric(d) => d.refractive_index == 98304,
    }
}

/// The demonstration scene: a large ground sphere, a grid of small spheres
/// of randomly drawn positions and materials, and three large spheres, one
/// of each material kind.
pub fn random_scene() -> (world: Scene)
    ensures
        world.wf(),
        world.objects@.len() >= 4,
        world.objects@.len() <= 488,
        forall|i: int|
            1 <= i < world.objects@.len() - 3 ==> is_grid_sphere(#[trigger] world.objects@[i]),
        world.objects@[0] == (Sphere {
            center: Vec3 { x: 0, y: -65536000i64, z: 0 },
            radius: 65536000,
            mat: Material::Lambertian(Lambertian { albedo: Vec3 { x: 32768, y: 32768, z: 32768 } }),
        }),
        world.objects@[world.objects@.len() - 3] == (Sphere {
            center: Vec3 { x: 0, y: FX_SCALE, z: 0 },
            radius: FX_SCALE,
            mat: Material::Dielectric(Dielectric { refractive_index: 98304 }),
        }),
        world.objects@[world.objects@.len() - 2] == (Sphere {
            center: Vec3 { x: -262144i64, y: FX_SCALE, z: 0 },
            radius: FX_SCALE,
            mat: Material::Lambertian(Lambertian { albedo: Vec3 { x: 26214, y: 13107, z: 6554 } }),
        }),
        world.objects@[world.objects@.len() - 1] == (Sphere {
            center: Vec3 { x: 262144, y: FX_SCALE, z: 0 },
            radius: FX_SCALE,
            mat: Material::Metal(Metal { albedo: Vec3 { x: 45875, y: 39322, z: 32768 }, fuzz: 0 }),
        }),
{
    let mut world = Scene::new();

    let ground_material = Material::Lambertian(Lambertian::new(Vec3::new(32768, 32768, 32768)));
    world.add(Sphere::new(Vec3::new(0, -65536000, 0), 65536000, ground_material));

    let mut a: i32 = -11;
    while a < 11
        invariant
            -11 <= a <= 11,
            world.wf(),
            1 <= world.objects@.len() <= 1 + 22 * (a + 11),
            world.objects@[0] == (Sphere {
                center: Vec3 { x: 0, y: -65536000i64, z: 0 },
                radius: 65536000,
                mat: Material::Lambertian(
                    Lambertian { albedo: Vec3 { x: 32768, y: 32768, z: 32768 } },
                ),
            }),
            forall|i: int|
                1 <= i < world.objects@.len() ==> is_grid_sphere(#[trigger] world.objects@[i]),
        decreases 11 - a,
    {
        let mut b: i32 = -11;
        while b < 11
            invariant
                -11 <= a < 11,
                -11 <= b <= 11,
                world.wf(),
                1 <= world.objects@.len() <= 1 + 22 * (a + 11) + (b + 11),
                world.objects@[0] == (Sphere {
                    center: Vec3 { x: 0, y: -65536000i64, z: 0 },
                    radius: 65536000,
                    mat: Material::Lambertian(
                        Lambertian { albedo: Vec3 { x: 32768, y: 32768, z: 32768 } },
                    ),
                }),
                forall|i: int|
                    1 <= i < world.objects@.len() ==> is_grid_sphere(
                        #[trigger] world.objects@[i],
                    ),
            decreases 11 - b,
        {
            let choose_mat = random_double();
            let u1 = random_double();
            let u2 = random_double();
            let center = Vec3::new(
                fx_add(fx_from_i32(a), fx_mul(58982, u1)),
                13107,
                fx_add(fx_from_i32(b), fx_mul(58982, u2)),
            );

            if center.sub(Vec3::new(262144, 13107, 0)).length() > 58982 {
                let sphere_material: Material = if choose_mat < 52429 {
                    let c1 = Vec3::random();
                    let c2 = Vec3::random();
                    let albedo = c1.mul(c2);
                    proof {
                        lemma_scaled_fraction_bound(c1.x as int, c2.x as int);
                        lemma_scaled_fraction_bound(c1.y as int, c2.y as int);
                        lemma_scaled_fraction_bound(c1.z as int, c2.z as int);
                        assert(color_wf(albedo));
                    }
                    Material::Lambertian(Lambertian::new(albedo))
                } else if choose_mat < 62259 {
                    let albedo = Vec3::random_range(32768, FX_SCALE);
                    let fuzz = random_range_double(0, 32768);
                    proof {
                        let q = choose|q: int|
                            0 <= q < 65536 && fuzz as int == fx_add_s(
                                0,
                                fx_mul_s(fx_sub_s(32768, 0), q),
                            );
                        vstd::arithmetic::div_mod::lemma_div_multiples_vanish_quotient(
                            32768,
                            q,
                            2,
                        );
                        assert(0 <= fuzz < 32768);
                    }
                    Material::Metal(Metal::new(albedo, fuzz))
                } else {
                    Material::Dielectric(Dielectric::new(98304))
                };
                let ghost before = world.objects@;
                let sp = Sphere::new(center, 13107, sphere_material);
                proof {
                    assert(is_grid_sphere(sp)) by {
                        assert(-11 <= (a as int) && (a as int) < 11 && -11 <= (b as int) && (
                        b as int) < 11 && 0 <= (u1 as int) && (u1 as int) < 65536 && 0 <= (
                        u2 as int) && (u2 as int) < 65536 && sp.center.x == fx_add_s(
                            sat(a as int * 65536),
                            fx_mul_s(58982, u1 as int),
                        ) && sp.center.z == fx_add_s(
                            sat(b as int * 65536),
                            fx_mul_s(58982, u2 as int),
                        ));
                    }
                }
                world.add(sp);
                proof {
                    assert forall|i: int|
                        1 <= i < world.objects@.len() implies is_grid_sphere(
                        #[trigger] world.objects@[i],
                    ) by {
                        if i < before.len() {
                            assert(world.objects@[i] == before[i]);
                        } else {
                            assert(world.objects@[i] == sp);
                        }
                    }
                }
            }
            b = b + 1;
        }
        a = a + 1;
    }
    let ghost grid_part = world.objects@;

    let material1 = Material::Dielectric(Dielectric::new(98304));
    world.add(Sphere::new(Vec3::new(0, FX_SCALE, 0), FX_SCALE, material1));
    let material2 = Material::Lambertian(Lambertian::new(Vec3::new(26214, 13107, 6554)));
    world.add(Sphere::new(Vec3::new(-262144, FX_SCALE, 0), FX_SCALE, material2));
    let material3 = Material::Metal(Metal::new(Vec3::new(45875, 39322, 32768), 0));
    world.add(Sphere::new(Vec3::new(262144, FX_SCALE, 0), FX_SCALE, material3));

    proof {
        assert forall|i: int|
            1 <= i < world.objects@.len() - 3 implies is_grid_sphere(
            #[trigger] world.objects@[i],
        ) by {
            assert(world.objects@[i] == grid_part[i]);
        }
    }
    world
}

} // verus!
