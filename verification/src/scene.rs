//! A scene: an ordered collection of spheres resolving nearest-hit queries.
//!
//! The scan keeps the closest parameter found so far and narrows every
//! later query to it, so the returned intersection is the globally nearest
//! one regardless of insertion order; the lemmas at the bottom prove that.

use crate::ray::Ray;
use crate::sphere::{sp_a, sp_c, sp_disc, sp_half_b, sp_root_far, sp_root_near, sphere_hit_s,
    sphere_record_s, HitRecord, Sphere};
use crate::vec3::lemma_ls_nonneg;
use crate::fx::{lemma_sqrt_s_is_sqrt, lemma_tdiv_mono, sqrt_s};
use vstd::prelude::*;

verus! {

pub struct Scene {
    pub objects: Vec<Sphere>,
}

/// The scan's remainder: the result of folding the objects from index `i`
/// on, given the closest parameter and best record found so far.
pub open spec fn scene_hit_from(
    objs: Seq<Sphere>,
    i: int,
    r: Ray,
    t_min: int,
    closest: int,
    best: Option<HitRecord>,
) -> Option<HitRecord>
    decreases objs.len() - i,
{
    if i < 0 || i >= objs.len() {
        best
    } else {
        match sphere_hit_s(objs[i], r, t_min, closest) {
            Some(rec) => scene_hit_from(objs, i + 1, r, t_min, rec.t as int, Some(rec)),
            None => scene_hit_from(objs, i + 1, r, t_min, closest, best),
        }
    }
}

/// What a scene hit query returns.
pub open spec fn scene_hit_s(objs: Seq<Sphere>, r: Ray, t_min: int, t_max: int) -> Option<
    HitRecord,
> {
    scene_hit_from(objs, 0, r, t_min, t_max, None)
}

impl Scene {
    /// Every contained sphere satisfies its data invariant.
    pub open spec fn wf(self) -> bool {
        forall|i: int| 0 <= i < self.objects@.len() ==> (#[trigger] self.objects@[i]).wf()
    }

    pub fn new() -> (s: Scene)
        ensures
            s.objects@.len() == 0,
    {
        Scene { objects: Vec::new() }
    }

    pub fn add(&mut self, s: Sphere)
        ensures
            final(self).objects@ == old(self).objects@.push(s),
    {
        self.objects.push(s);
    }

    /// The nearest intersection of `r` with any object, at a parameter
    /// strictly inside `(t_min, t_max)`.
    pub fn hit(&self, r: Ray, t_min: i64, t_max: i64) -> (res: Option<HitRecord>)
        ensures
            res == scene_hit_s(self.objects@, r, t_min as int, t_max as int),
    {
        let ghost objs = self.objects@;
        let mut best: Option<HitRecord> = None;
        let mut closest: i64 = t_max;
        let mut i: usize = 0;
        while i < self.objects.len()
            invariant
                0 <= i <= objs.len(),
                objs == self.objects@,
                scene_hit_from(objs, i as int, r, t_min as int, closest as int, best)
                    == scene_hit_s(objs, r, t_min as int, t_max as int),
            decreases objs.len() - i,
        {
            match self.objects[i].hit(r, t_min, closest) {
                Some(rec) => {
                    closest = rec.t;
                    best = Some(rec);
                },
                None => {},
            }
            i = i + 1;
        }
        best
    }
}

/// `t` is an intersection parameter of the sphere inside `(t_min, t_max)`.
pub open spec fn sphere_hits_at(s: Sphere, r: Ray, t: int, t_min: int, t_max: int) -> bool {
    &&& sp_a(s, r) != 0
    &&& sp_disc(s, r) >= 0
    &&& (t == sp_root_near(s, r) || t == sp_root_far(s, r))
    &&& t_min < t < t_max
}

/// `t` is an intersection parameter of one of the first `n` objects.
pub open spec fn scene_hits_prefix(
    objs: Seq<Sphere>,
    n: int,
    r: Ray,
    t: int,
    t_min: int,
    t_max: int,
) -> bool {
    exists|i: int| 0 <= i < n && i < objs.len() && sphere_hits_at(objs[i], r, t, t_min, t_max)
}

/// `res` is the nearest intersection of the first `n` objects, or the
/// statement that there is none.
pub open spec fn is_nearest_hit(
    objs: Seq<Sphere>,
    n: int,
    r: Ray,
    t_min: int,
    t_max: int,
    res: Option<HitRecord>,
) -> bool {
    match res {
        Some(rec) => {
            &&& scene_hits_prefix(objs, n, r, rec.t as int, t_min, t_max)
            &&& forall|t: int|
                scene_hits_prefix(objs, n, r, t, t_min, t_max) ==> rec.t as int <= t
        },
        None => forall|t: int| !scene_hits_prefix(objs, n, r, t, t_min, t_max),
    }
}

/// A ray whose closest approach to a sphere's center exceeds the radius
/// misses the sphere.  In the library's quadratic coefficients the squared
/// distance of the center from the ray line exceeds the squared radius
/// exactly when `a * c > half_b^2`, that is, when the discriminant is
/// negative; any hit window gives the absent result then.
pub proof fn lemma_sphere_miss_when_apart(s: Sphere, r: Ray, t_min: int, t_max: int)
    requires
        sp_a(s, r) * sp_c(s, r) > sp_half_b(s, r) * sp_half_b(s, r),
    ensures
        sphere_hit_s(s, r, t_min, t_max) is None,
{
}

/// The nearer root never exceeds the farther one.
proof fn lemma_roots_ordered(s: Sphere, r: Ray)
    requires
        sp_a(s, r) != 0,
        sp_disc(s, r) >= 0,
    ensures
        sp_root_near(s, r) <= sp_root_far(s, r),
{
    lemma_ls_nonneg(r.dir);
    lemma_sqrt_s_is_sqrt(sp_disc(s, r));
    let sq = sqrt_s(sp_disc(s, r));
    lemma_tdiv_mono(
        (-sp_half_b(s, r) - sq) * 65536,
        (-sp_half_b(s, r) + sq) * 65536,
        sp_a(s, r),
    );
}

/// What a sphere hit query returns is the least intersection parameter in
/// the window, and absence means there is none.
pub proof fn lemma_sphere_hit_char(s: Sphere, r: Ray, t_min: int, t_max: int)
    ensures
        match sphere_hit_s(s, r, t_min, t_max) {
            Some(rec) => {
                &&& sphere_hits_at(s, r, rec.t as int, t_min, t_max)
                &&& rec == sphere_record_s(s, r, rec.t as int)
                &&& forall|t: int| sphere_hits_at(s, r, t, t_min, t_max) ==> rec.t as int <= t
            },
            None => forall|t: int| !sphere_hits_at(s, r, t, t_min, t_max),
        },
{
    if sp_a(s, r) != 0 && sp_disc(s, r) >= 0 {
        lemma_roots_ordered(s, r);
    }
}

/// The scan invariant: continuing from `i` with the nearest hit of the
/// first `i` objects yields the nearest hit of all of them.
#[verifier::rlimit(100)]
proof fn lemma_scene_hit_from_char(
    objs: Seq<Sphere>,
    i: int,
    r: Ray,
    t_min: int,
    t0: int,
    closest: int,
    best: Option<HitRecord>,
)
    requires
        0 <= i <= objs.len(),
        closest <= t0,
        is_nearest_hit(objs, i, r, t_min, t0, best),
        best matches Some(b) ==> b.t as int == closest,
        best is None ==> closest == t0,
    ensures
        is_nearest_hit(
            objs,
            objs.len() as int,
            r,
            t_min,
            t0,
            scene_hit_from(objs, i, r, t_min, closest, best),
        ),
    decreases objs.len() - i,
{
    if i == objs.len() {
    } else {
        lemma_sphere_hit_char(objs[i], r, t_min, closest);
        match sphere_hit_s(objs[i], r, t_min, closest) {
            Some(rec) => {
                let nt = rec.t as int;
                assert(sphere_hits_at(objs[i], r, nt, t_min, closest));
                assert(sphere_hits_at(objs[i], r, nt, t_min, t0));
                assert(scene_hits_prefix(objs, i + 1, r, nt, t_min, t0));
                assert forall|t: int| #[trigger]
                    scene_hits_prefix(objs, i + 1, r, t, t_min, t0) implies nt <= t by {
                    let j = choose|j: int|
                        0 <= j < i + 1 && j < objs.len() && sphere_hits_at(
                            objs[j],
                            r,
                            t,
                            t_min,
                            t0,
                        );
                    if j < i {
                        assert(scene_hits_prefix(objs, i, r, t, t_min, t0));
                    } else {
                        if t < closest {
                            assert(sphere_hits_at(objs[i], r, t, t_min, closest));
                        }
                    }
                }
                lemma_scene_hit_from_char(objs, i + 1, r, t_min, t0, nt, Some(rec));
            },
            None => {
                match best {
                    Some(b) => {
                        assert(scene_hits_prefix(objs, i, r, b.t as int, t_min, t0));
                        let w = choose|w: int|
                            0 <= w < i && w < objs.len() && sphere_hits_at(
                                objs[w],
                                r,
                                b.t as int,
                                t_min,
                                t0,
                            );
                        assert(scene_hits_prefix(objs, i + 1, r, b.t as int, t_min, t0));
                        assert forall|t: int| #[trigger]
                            scene_hits_prefix(objs, i + 1, r, t, t_min, t0) implies b.t as int
                            <= t by {
                            let j = choose|j: int|
                                0 <= j < i + 1 && j < objs.len() && sphere_hits_at(
                                    objs[j],
                                    r,
                                    t,
                                    t_min,
                                    t0,
                                );
                            if j < i {
                                assert(scene_hits_prefix(objs, i, r, t, t_min, t0));
                            } else {
                                if t < closest {
                                    assert(sphere_hits_at(objs[i], r, t, t_min, closest));
                                }
                            }
                        }
                    },
                    None => {
                        assert forall|t: int| !#[trigger] scene_hits_prefix(
                            objs,
                            i + 1,
                            r,
                            t,
                            t_min,
                            t0,
                        ) by {
                            if scene_hits_prefix(objs, i + 1, r, t, t_min, t0) {
                                let j = choose|j: int|
                                    0 <= j < i + 1 && j < objs.len() && sphere_hits_at(
                                        objs[j],
                                        r,
                                        t,
                                        t_min,
                                        t0,
                                    );
                                if j < i {
                                    assert(scene_hits_prefix(objs, i, r, t, t_min, t0));
                                } else {
                                    assert(sphere_hits_at(objs[i], r, t, t_min, closest));
                                }
                            }
                        }
                    },
                }
                lemma_scene_hit_from_char(objs, i + 1, r, t_min, t0, closest, best);
            },
        }
    }
}

/// A scene's hit query returns the nearest intersection among all its
/// objects, and absence means no object intersects inside the window.
pub proof fn lemma_scene_hit_nearest(objs: Seq<Sphere>, r: Ray, t_min: int, t_max: int)
    ensures
        is_nearest_hit(
            objs,
            objs.len() as int,
            r,
            t_min,
            t_max,
            scene_hit_s(objs, r, t_min, t_max),
        ),
{
    lemma_scene_hit_from_char(objs, 0, r, t_min, t_max, t_max, None);
}

/// Two overlapping spheres along one ray: the scan returns the intersection
/// with the smaller parameter, whichever order the spheres stand in.
#[verifier::rlimit(60)]
pub proof fn lemma_scene_hit_order_independent(
    s1: Sphere,
    s2: Sphere,
    r: Ray,
    t_min: int,
    t_max: int,
)
    ensures
        ({
            let h12 = scene_hit_s(seq![s1, s2], r, t_min, t_max);
            let h21 = scene_hit_s(seq![s2, s1], r, t_min, t_max);
            match (h12, h21) {
                (Some(a), Some(b)) => a.t == b.t,
                (None, None) => true,
                _ => false,
            }
        }),
{
    let o12 = seq![s1, s2];
    let o21 = seq![s2, s1];
    lemma_scene_hit_nearest(o12, r, t_min, t_max);
    lemma_scene_hit_nearest(o21, r, t_min, t_max);
    assert forall|t: int|
        scene_hits_prefix(o12, 2, r, t, t_min, t_max) implies scene_hits_prefix(
        o21,
        2,
        r,
        t,
        t_min,
        t_max,
    ) by {
        let j = choose|j: int|
            0 <= j < 2 && j < o12.len() && sphere_hits_at(o12[j], r, t, t_min, t_max);
        assert(sphere_hits_at(o21[1 - j], r, t, t_min, t_max));
    }
    assert forall|t: int|
        scene_hits_prefix(o21, 2, r, t, t_min, t_max) implies scene_hits_prefix(
        o12,
        2,
        r,
        t,
        t_min,
        t_max,
    ) by {
        let j = choose|j: int|
            0 <= j < 2 && j < o21.len() && sphere_hits_at(o21[j], r, t, t_min, t_max);
        assert(sphere_hits_at(o12[1 - j], r, t, t_min, t_max));
    }
}

} // verus!
