//! A scene: an ordered collection of surfaces, searched for the nearest
//! hit along a ray.

use crate::fixed::Fx;
use crate::hittable::{
    hit_opt_view, hittable_hit, lemma_hittable_hit_in_interval, lemma_hittable_hit_narrow,
    Hit_Record, HitV, Hittable,
};
use crate::ray::{Ray, RayV};
use vstd::prelude::*;

verus! {

/// The nearest-hit reduction over the surfaces in order: each successful
/// hit tightens the upper end of the interval for the surfaces after it,
/// so the final record is the nearest intersection in (t_min, t_max].
pub open spec fn scene_hit(ss: Seq<Hittable>, ray: RayV, t_min: int, t_max: int) -> Option<HitV>
    decreases ss.len(),
{
    if ss.len() == 0 {
        None
    } else {
        let prev = scene_hit(ss.drop_last(), ray, t_min, t_max);
        let closest = match prev {
            Some(h) => h.t,
            None => t_max,
        };
        match hittable_hit(ss.last(), ray, t_min, closest) {
            Some(h) => Some(h),
            None => prev,
        }
    }
}

/// A surface that misses an interval also misses every tighter one.
pub proof fn lemma_hittable_miss_narrow(h: Hittable, ray: RayV, t_min: int, cl: int, t_max: int)
    requires
        cl <= t_max,
        hittable_hit(h, ray, t_min, t_max) is None,
    ensures
        hittable_hit(h, ray, t_min, cl) is None,
{
}

/// A ray that misses every surface of a scene misses the scene.
pub proof fn lemma_scene_all_miss(ss: Seq<Hittable>, ray: RayV, t_min: int, t_max: int)
    requires
        forall|i: int| 0 <= i < ss.len() ==> hittable_hit(#[trigger] ss[i], ray, t_min, t_max) is None,
    ensures
        scene_hit(ss, ray, t_min, t_max) is None,
    decreases ss.len(),
{
    if ss.len() > 0 {
        assert(forall|i: int|
            0 <= i < ss.drop_last().len() ==> hittable_hit(
                #[trigger] ss.drop_last()[i],
                ray,
                t_min,
                t_max,
            ) is None);
        lemma_scene_all_miss(ss.drop_last(), ray, t_min, t_max);
        assert(ss.last() == ss[ss.len() - 1]);
    }
}

/// A scene that reports no hit hides none: every member misses the
/// full interval.
pub proof fn lemma_scene_miss_each(ss: Seq<Hittable>, ray: RayV, t_min: int, t_max: int)
    requires
        scene_hit(ss, ray, t_min, t_max) is None,
    ensures
        forall|i: int|
            0 <= i < ss.len() ==> hittable_hit(#[trigger] ss[i], ray, t_min, t_max) is None,
    decreases ss.len(),
{
    if ss.len() > 0 {
        lemma_scene_miss_each(ss.drop_last(), ray, t_min, t_max);
        assert(ss.last() == ss[ss.len() - 1]);
        assert(forall|i: int| 0 <= i < ss.len() - 1 ==> #[trigger] ss[i] == ss.drop_last()[i]);
    }
}

/// The scene's answer is the globally nearest intersection: it is some
/// member's own hit at that parameter, it lies in the interval, and no
/// member hits strictly nearer.
pub proof fn lemma_scene_hit_nearest(ss: Seq<Hittable>, ray: RayV, t_min: int, t_max: int)
    ensures
        (match scene_hit(ss, ray, t_min, t_max) {
            Some(h) => t_min < h.t <= t_max && (exists|i: int|
                0 <= i < ss.len() && #[trigger] hittable_hit(ss[i], ray, t_min, h.t) == Some(h))
                && (forall|i: int|
                0 <= i < ss.len() ==> (match #[trigger] hittable_hit(ss[i], ray, t_min, h.t) {
                    Some(g) => g.t == h.t,
                    None => true,
                })),
            None => true,
        }),
    decreases ss.len(),
{
    if ss.len() > 0 {
        let init = ss.drop_last();
        let last = ss.last();
        let prev = scene_hit(init, ray, t_min, t_max);
        let cl = match prev {
            Some(g) => g.t,
            None => t_max,
        };
        lemma_scene_hit_nearest(init, ray, t_min, t_max);
        lemma_hittable_hit_in_interval(last, ray, t_min, cl);
        assert(last == ss[ss.len() - 1]);
        assert(forall|i: int| 0 <= i < ss.len() - 1 ==> #[trigger] ss[i] == init[i]);
        match hittable_hit(last, ray, t_min, cl) {
            Some(h) => {
                assert(scene_hit(ss, ray, t_min, t_max) == Some(h));
                assert(t_min < h.t <= cl);
                lemma_hittable_hit_narrow(last, ray, t_min, h.t, cl);
                assert(hittable_hit(ss[ss.len() - 1], ray, t_min, h.t) == Some(h));
                assert forall|i: int| 0 <= i < ss.len() implies (
                match #[trigger] hittable_hit(ss[i], ray, t_min, h.t) {
                    Some(g) => g.t == h.t,
                    None => true,
                }) by {
                    if i < ss.len() - 1 {
                        match prev {
                            Some(g) => {
                                lemma_hittable_hit_narrow(ss[i], ray, t_min, h.t, g.t);
                            },
                            None => {
                                lemma_scene_miss_each(init, ray, t_min, t_max);
                                lemma_hittable_miss_narrow(ss[i], ray, t_min, h.t, t_max);
                            },
                        }
                    }
                }
            },
            None => {
                match prev {
                    Some(g) => {
                        assert(scene_hit(ss, ray, t_min, t_max) == Some(g));
                        assert(hittable_hit(ss[ss.len() - 1], ray, t_min, g.t) is None);
                        let ghost wi = choose|i: int|
                            0 <= i < init.len() && #[trigger] hittable_hit(
                                init[i],
                                ray,
                                t_min,
                                g.t,
                            ) == Some(g);
                        assert(hittable_hit(ss[wi], ray, t_min, g.t) == Some(g));
                    },
                    None => {},
                }
            },
        }
    }
}

/// An ordered collection of surfaces; built before rendering and
/// read-only afterwards.
pub struct Scene {
    pub surfaces: Vec<Hittable>,
}

impl Scene {
    /// Build a scene from its list of surfaces.
    pub fn new(surfaces: Vec<Hittable>) -> (r: Scene)
        ensures
            r.surfaces@ == surfaces@,
    {
        Scene { surfaces }
    }

    /// The nearest hit along `r` within (t_min, t_max], if any.
    pub fn hit(&self, r: &Ray, t_min: Fx, t_max: Fx) -> (res: Option<Hit_Record>)
        ensures
            hit_opt_view(res) == scene_hit(self.surfaces@, r@, t_min@, t_max@),
    {
        let mut best: Option<Hit_Record> = None;
        let mut closest: Fx = t_max;
        let mut i: usize = 0;
        while i < self.surfaces.len()
            invariant
                i <= self.surfaces.len(),
                hit_opt_view(best) == scene_hit(
                    self.surfaces@.take(i as int),
                    r@,
                    t_min@,
                    t_max@,
                ),
                closest@ == (match hit_opt_view(best) {
                    Some(h) => h.t,
                    None => t_max@,
                }),
            decreases self.surfaces.len() - i,
        {
            let s = self.surfaces[i];
            proof {
                assert(self.surfaces@.take(i + 1).drop_last() =~= self.surfaces@.take(i as int));
                assert(self.surfaces@.take(i + 1).last() == self.surfaces@[i as int]);
            }
            match s.hit(r, t_min, closest) {
                Some(h) => {
                    closest = h.t;
                    best = Some(h);
                },
                None => {},
            }
            i = i + 1;
        }
        proof {
            assert(self.surfaces@.take(self.surfaces@.len() as int) =~= self.surfaces@);
        }
        best
    }
}

} // verus!
