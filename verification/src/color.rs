//! The integrator: recursive color evaluation of a ray against a scene.

use crate::fixed::{fadd, fmul, fsub, Fx, MAX_RAW, SCALE};
use crate::hittable::Hittable;
use crate::material::{scatter, scatter_spec};
use crate::random::RandomSource;
use crate::ray::{Ray, RayV};
use crate::scene::{scene_hit, Scene};
use crate::vec3::{v3zero, vadd, vmul_each, vscale, vunit, V3i, Vec3};
use vstd::prelude::*;

verus! {

/// The recursion bound: a path is cut off after this many bounces.
pub const MAX_DEPTH: i32 = 50;

/// The small positive bias of the hit interval, suppressing
/// self-intersection at the surface just struck.
pub const T_MIN_RAW: i64 = 1000;

/// The sky gradient returned on a miss: white at the horizon blended
/// linearly toward sky blue by half of (unit direction y + 1).
pub open spec fn background(ray: RayV) -> V3i {
    let t = fmul(500000, fadd(vunit(ray.direction).y, SCALE as int));
    vadd(
        vscale(V3i { x: SCALE as int, y: SCALE as int, z: SCALE as int }, fsub(SCALE as int, t)),
        vscale(V3i { x: 500000, y: 700000, z: SCALE as int }, t),
    )
}

/// The color gathered under the zero random source, where every draw is
/// 0: depth exhaustion and absorption yield black, a hit scatters with
/// the center of the unit ball, and a miss yields the sky gradient.
pub open spec fn color_zero(ss: Seq<Hittable>, ray: RayV, depth: int) -> V3i
    decreases MAX_DEPTH as int - depth,
{
    if depth >= MAX_DEPTH as int {
        v3zero()
    } else {
        match scene_hit(ss, ray, T_MIN_RAW as int, MAX_RAW as int) {
            Some(h) => match scatter_spec(h.material, ray, h.p, h.normal, v3zero(), 0) {
                Some(pair) => vmul_each(pair.0, color_zero(ss, pair.1, depth + 1)),
                None => v3zero(),
            },
            None => background(ray),
        }
    }
}

/// The radiance gathered along `r` through `world`, recursing on the
/// scattered ray. The depth counter rises by one per bounce and is
/// checked before any work, so every call returns within `MAX_DEPTH`
/// levels; Verus checks this through the decreases measure.
pub fn color(r: &Ray, world: &Scene, depth: i32, rng: &mut RandomSource) -> (c: Vec3)
    requires
        0 <= depth,
    ensures
        *final(rng) == *old(rng),
        depth >= MAX_DEPTH ==> c@ == v3zero(),
        depth < MAX_DEPTH && scene_hit(
            world.surfaces@,
            r@,
            T_MIN_RAW as int,
            MAX_RAW as int,
        ) is None ==> c@ == background(r@),
        *old(rng) == RandomSource::Zero ==> c@ == color_zero(world.surfaces@, r@, depth as int),
    decreases MAX_DEPTH - depth,
{
    if depth >= MAX_DEPTH {
        return Vec3::default();
    }
    let t_min = Fx::from_raw(T_MIN_RAW);
    let t_max = Fx::max_value();
    match world.hit(r, t_min, t_max) {
        Some(rec) => {
            match scatter(&rec.material, r, &rec, rng) {
                Some(pair) => {
                    let rest = color(&pair.1, world, depth + 1, rng);
                    pair.0.const_mul(&rest)
                },
                None => Vec3::default(),
            }
        },
        None => {
            let ud = r.direction.unit_vector();
            let half = Fx::from_raw(500_000);
            let t = half.mul(ud.y().add(Fx::one()));
            let white = Vec3::new(Fx::one(), Fx::one(), Fx::one());
            let sky = Vec3::new(Fx::from_raw(500_000), Fx::from_raw(700_000), Fx::one());
            white.mul(Fx::one().sub(t)).add(sky.mul(t))
        },
    }
}

} // verus!
