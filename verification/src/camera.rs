//! The camera: viewport geometry and per-sample ray generation with a
//! thin-lens aperture.

use crate::fixed::{fmul, Fx, SCALE};
use crate::random::RandomSource;
use crate::ray::{Ray, RayV};
use crate::vec3::{
    v3zero, vadd, vcross, vlen_sq, vscale, vsub, vunit, V3i, Vec3,
};
use vstd::prelude::*;

verus! {

/// The camera's precomputed viewport frame.
pub struct Camera {
    pub origin: Vec3,
    pub lower_left_corner: Vec3,
    pub horizontal: Vec3,
    pub vertical: Vec3,
    pub u: Vec3,
    pub v: Vec3,
    pub w: Vec3,
    pub lens_radius: Fx,
}

/// The ray a camera casts for screen coordinates (s, t) and a point
/// `disk` of the unit disk chosen by the lens.
pub open spec fn get_ray_spec(cam: Camera, s: int, t: int, disk: V3i) -> RayV {
    let rd = vscale(disk, cam.lens_radius@);
    let offset = vadd(vscale(cam.u@, rd.x), vscale(cam.v@, rd.y));
    RayV {
        origin: vadd(cam.origin@, offset),
        direction: vsub(
            vsub(
                vadd(
                    vadd(cam.lower_left_corner@, vscale(cam.horizontal@, s)),
                    vscale(cam.vertical@, t),
                ),
                cam.origin@,
            ),
            offset,
        ),
    }
}

/// A point of the open unit disk (third component zero): the first two
/// components are drawn uniformly in [-1, 1) until the squared length
/// falls below one; after a bounded run of rejections the center is
/// returned, so the function is total for every source.
pub fn random_in_unit_disk(rng: &mut RandomSource) -> (p: Vec3)
    ensures
        vlen_sq(p@) < SCALE as int,
        *final(rng) == *old(rng),
        *old(rng) == RandomSource::Zero ==> p@ == v3zero(),
{
    let mut tries: usize = 0;
    while tries < 64
        invariant
            *rng == *old(rng),
        decreases 64 - tries,
    {
        let two = Fx::from_units(2);
        let corner = Vec3::new(Fx::one(), Fx::one(), Fx::zero());
        let a = rng.next_unit();
        let b = rng.next_unit();
        let p = Vec3::new(a, b, Fx::zero()).mul(two).sub(corner);
        if Vec3::dot(&p, &p).lt(Fx::one()) {
            proof {
                if *old(rng) == RandomSource::Zero {
                    assert(p@ == (V3i { x: -(SCALE as int), y: -(SCALE as int), z: 0 }));
                    assert((-(SCALE as int)) * (-(SCALE as int)) == 1000000000000int)
                        by (nonlinear_arith);
                    assert(crate::fixed::iabs(2000000000000int) / crate::fixed::iabs(
                        1000000int,
                    ) == 2000000int);
                    assert(crate::fixed::tdiv(2000000000000int, 1000000int) == 2000000int);
                    assert(vlen_sq(p@) == 2 * (SCALE as int));
                }
            }
            return p;
        }
        tries = tries + 1;
    }
    Vec3::default()
}

impl Camera {
    /// Build a camera looking from `look_from` toward `look_at`, with
    /// `vup` fixing the roll. `half_height` is the tangent of half the
    /// vertical field-of-view angle, precomputed by the caller, since
    /// the trigonometry is outside this library's arithmetic;
    /// `half_width` follows from it by the aspect ratio.
    pub fn camera(
        look_from: Vec3,
        look_at: Vec3,
        vup: Vec3,
        half_height: Fx,
        aspect: Fx,
        aperture: Fx,
        focus_dist: Fx,
    ) -> (r: Camera)
        ensures
            r.origin@ == look_from@,
            r.w@ == vunit(vsub(look_from@, look_at@)),
            r.u@ == vunit(vcross(vup@, vunit(vsub(look_from@, look_at@)))),
            r.v@ == vcross(r.w@, r.u@),
            r.lens_radius@ == crate::fixed::fdiv(aperture@, 2 * (SCALE as int)),
            r.lower_left_corner@ == vsub(
                vsub(
                    vsub(
                        look_from@,
                        vscale(r.u@, fmul(fmul(aspect@, half_height@), focus_dist@)),
                    ),
                    vscale(r.v@, fmul(half_height@, focus_dist@)),
                ),
                vscale(r.w@, focus_dist@),
            ),
            r.horizontal@ == vscale(
                r.u@,
                fmul(fmul(2 * (SCALE as int), fmul(aspect@, half_height@)), focus_dist@),
            ),
            r.vertical@ == vscale(r.v@, fmul(fmul(2 * (SCALE as int), half_height@), focus_dist@)),
    {
        let two = Fx::from_units(2);
        let lens_radius = aperture.div(two);
        let half_width = aspect.mul(half_height);
        let origin = look_from;
        let w = look_from.sub(look_at).unit_vector();
        let u = Vec3::cross(&vup, &w).unit_vector();
        let v = Vec3::cross(&w, &u);
        let lower_left_corner = origin.sub(u.mul(half_width.mul(focus_dist))).sub(
            v.mul(half_height.mul(focus_dist)),
        ).sub(w.mul(focus_dist));
        let horizontal = u.mul(two.mul(half_width).mul(focus_dist));
        let vertical = v.mul(two.mul(half_height).mul(focus_dist));
        Camera { origin, lower_left_corner, horizontal, vertical, u, v, w, lens_radius }
    }

    /// The ray through screen coordinates (s, t), its origin jittered
    /// within the lens aperture by a draw from the unit disk.
    pub fn get_ray(&self, s: Fx, t: Fx, rng: &mut RandomSource) -> (r: Ray)
        ensures
            *final(rng) == *old(rng),
            *old(rng) == RandomSource::Zero ==> r@ == get_ray_spec(*self, s@, t@, v3zero()),
            exists|d: V3i|
                vlen_sq(d) < SCALE as int && #[trigger] get_ray_spec(*self, s@, t@, d) == r@,
    {
        let disk = random_in_unit_disk(rng);
        let rd = disk.mul(self.lens_radius);
        let offset = self.u.mul(rd.x()).add(self.v.mul(rd.y()));
        let r = Ray::new(
            self.origin.add(offset),
            self.lower_left_corner.add(self.horizontal.mul(s)).add(self.vertical.mul(t)).sub(
                self.origin,
            ).sub(offset),
        );
        proof {
            assert(vlen_sq(disk@) < SCALE as int && get_ray_spec(*self, s@, t@, disk@) == r@);
        }
        r
    }
}

} // verus!
