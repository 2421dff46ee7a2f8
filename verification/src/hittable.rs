//! Surfaces that a ray can strike, and the record a strike produces.

use crate::fixed::{fadd, fdiv, fmul, fneg, fsub, Fx};
use crate::material::Material;
use crate::ray::{ray_at, Ray, RayV};
use crate::vec3::{vdiv_scalar, vdot, vsub, V3i, Vec3};
use vstd::prelude::*;

verus! {

/// The mathematical model of a hit: parametric distance, point struck,
/// outward normal and the material of the surface that was struck.
pub ghost struct HitV {
    pub t: int,
    pub p: V3i,
    pub normal: V3i,
    pub material: Material,
}

/// The result of a successful ray-surface intersection. Transient: built
/// by a hit test and consumed by the scattering step.
#[allow(non_camel_case_types)]
#[derive(Clone, Copy, Debug, PartialEq, Eq, Structural)]
pub struct Hit_Record {
    pub t: Fx,
    pub p: Vec3,
    pub normal: Vec3,
    pub material: Material,
}

impl View for Hit_Record {
    type V = HitV;

    open spec fn view(&self) -> HitV {
        HitV { t: self.t@, p: self.p@, normal: self.normal@, material: self.material }
    }
}

/// An optional hit record, seen at the model level.
pub open spec fn hit_opt_view(res: Option<Hit_Record>) -> Option<HitV> {
    match res {
        Some(h) => Some(h@),
        None => None,
    }
}

/// A geometric surface a ray can be tested against: a sphere, given by
/// its center, radius and material.
#[derive(Clone, Copy, Debug, PartialEq, Eq, Structural)]
pub struct Hittable {
    pub center: Vec3,
    pub radius: Fx,
    pub material: Material,
}

/// The record built for a sphere hit at parameter `t`: the point along
/// the ray, and the normal scaled to unit length by the radius.
pub open spec fn sphere_record(center: V3i, radius: int, ray: RayV, t: int, material: Material) -> HitV {
    HitV {
        t,
        p: ray_at(ray, t),
        normal: vdiv_scalar(vsub(ray_at(ray, t), center), radius),
        material,
    }
}

/// The hit test of a surface against the interval (t_min, t_max]: the
/// quadratic in the ray parameter is solved and the smallest root inside
/// the interval is taken; a degenerate direction (a == 0) never hits.
pub open spec fn hittable_hit(h: Hittable, ray: RayV, t_min: int, t_max: int) -> Option<HitV> {
    let oc = vsub(ray.origin, h.center@);
    let a = vdot(ray.direction, ray.direction);
    let half_b = vdot(oc, ray.direction);
    let c = fsub(vdot(oc, oc), fmul(h.radius@, h.radius@));
    let disc = fsub(fmul(half_b, half_b), fmul(a, c));
    if a == 0 || disc < 0 {
        None
    } else {
        let sq = crate::fixed::fsqrt(disc);
        let t1 = fdiv(fsub(fneg(half_b), sq), a);
        let t2 = fdiv(fadd(fneg(half_b), sq), a);
        if t_min < t1 && t1 <= t_max {
            Some(sphere_record(h.center@, h.radius@, ray, t1, h.material))
        } else if t_min < t2 && t2 <= t_max {
            Some(sphere_record(h.center@, h.radius@, ray, t2, h.material))
        } else {
            None
        }
    }
}

/// A hit reported for an interval lies inside it.
pub proof fn lemma_hittable_hit_in_interval(h: Hittable, ray: RayV, t_min: int, t_max: int)
    ensures
        (match hittable_hit(h, ray, t_min, t_max) {
            Some(g) => t_min < g.t <= t_max,
            None => true,
        }),
{
}

/// Tightening the far end of the interval keeps the same hit while it
/// still lies inside, and loses it otherwise: the reported parameter is
/// the nearest qualifying root, so no nearer one appears.
pub proof fn lemma_hittable_hit_narrow(h: Hittable, ray: RayV, t_min: int, cl2: int, cl1: int)
    requires
        cl2 <= cl1,
    ensures
        (match hittable_hit(h, ray, t_min, cl1) {
            Some(g) => hittable_hit(h, ray, t_min, cl2) == (if g.t <= cl2 {
                Some(g)
            } else {
                None::<HitV>
            }),
            None => hittable_hit(h, ray, t_min, cl2) is None,
        }),
{
    let s = crate::fixed::SCALE as int;
    let oc = vsub(ray.origin, h.center@);
    let a = vdot(ray.direction, ray.direction);
    let half_b = vdot(oc, ray.direction);
    let c = fsub(vdot(oc, oc), fmul(h.radius@, h.radius@));
    let disc = fsub(fmul(half_b, half_b), fmul(a, c));
    if !(a == 0 || disc < 0) {
        crate::fixed::lemma_fdot3_self_nonneg(ray.direction.x, ray.direction.y, ray.direction.z);
        assert(a > 0);
        let sq = crate::fixed::fsqrt(disc);
        assert(disc * s >= 0) by (nonlinear_arith)
            requires
                disc >= 0,
                s > 0,
        ;
        crate::fixed::lemma_isqrt_props(disc * s);
        assert(sq >= 0);
        let n1 = fsub(fneg(half_b), sq);
        let n2 = fadd(fneg(half_b), sq);
        crate::fixed::lemma_clip_monotone(fneg(half_b) - sq, fneg(half_b) + sq);
        assert(n1 <= n2);
        crate::fixed::lemma_fdiv_monotone(n1, n2, a);
        assert(fdiv(n1, a) <= fdiv(n2, a));
    }
}

impl Hittable {
    /// Build a sphere from a center, a positive radius and a material.
    pub fn sphere(center: Vec3, radius: Fx, material: Material) -> (r: Hittable)
        requires
            radius@ > 0,
        ensures
            r == (Hittable { center, radius, material }),
    {
        Hittable { center, radius, material }
    }

    /// Test the surface against a ray over the interval (t_min, t_max].
    pub fn hit(&self, r: &Ray, t_min: Fx, t_max: Fx) -> (res: Option<Hit_Record>)
        ensures
            hit_opt_view(res) == hittable_hit(*self, r@, t_min@, t_max@),
    {
        let oc = r.origin.const_sub(&self.center);
        let a = Vec3::dot(&r.direction, &r.direction);
        let half_b = Vec3::dot(&oc, &r.direction);
        let c = Vec3::dot(&oc, &oc).sub(self.radius.mul(self.radius));
        let disc = half_b.mul(half_b).sub(a.mul(c));
        if a.raw() == 0 || disc.raw() < 0 {
            None
        } else {
            let sq = disc.sqrt();
            let t1 = half_b.neg().sub(sq).div(a);
            let t2 = half_b.neg().add(sq).div(a);
            if t_min.lt(t1) && t1.le(t_max) {
                let p = r.at(t1);
                Some(
                    Hit_Record {
                        t: t1,
                        p,
                        normal: p.const_sub(&self.center).div(self.radius),
                        material: self.material,
                    },
                )
            } else if t_min.lt(t2) && t2.le(t_max) {
                let p = r.at(t2);
                Some(
                    Hit_Record {
                        t: t2,
                        p,
                        normal: p.const_sub(&self.center).div(self.radius),
                        material: self.material,
                    },
                )
            } else {
                None
            }
        }
    }
}

} // verus!
