//! Materials and their scattering behavior: diffuse bounce, mirror
//! reflection with roughness, and refraction with the Schlick
//! reflectance approximation.

use crate::fixed::{fadd, fdiv, fmul, fneg, fsub, fsqrt, Fx, SCALE};
use crate::hittable::Hit_Record;
use crate::random::RandomSource;
use crate::ray::{Ray, RayV};
use crate::vec3::{
    v3zero, vadd, vdot, vlen, vlen_sq, vneg, vscale, vsub, vunit, V3i, Vec3,
};
use vstd::prelude::*;

verus! {

/// The scattering behavior of a surface: diffuse, reflective with a
/// roughness, or transparent with a refractive index.
#[derive(Clone, Copy, Debug, PartialEq, Eq, Structural)]
pub enum Material {
    Lambertian { albedo: Vec3 },
    Metal { albedo: Vec3, fuzz: Fx },
    Dielectric { ref_index: Fx },
}

impl Default for Material {
    /// A diffuse material with a black albedo.
    fn default() -> (r: Material)
        ensures
            r matches Material::Lambertian { albedo } && albedo@ == v3zero(),
    {
        Material::Lambertian { albedo: Vec3::default() }
    }
}

/// Mirror reflection: v - 2 (v . n) n.
pub open spec fn reflect_spec(v: V3i, n: V3i) -> V3i {
    vsub(v, vscale(n, fmul(2 * (SCALE as int), vdot(v, n))))
}

/// The refraction discriminant 1 - ratio^2 (1 - (uv . n)^2), where uv is
/// the unit incoming direction; refraction succeeds when it is positive.
pub open spec fn refract_disc(v: V3i, n: V3i, ratio: int) -> int {
    let dt = vdot(vunit(v), n);
    fsub(SCALE as int, fmul(fmul(ratio, ratio), fsub(SCALE as int, fmul(dt, dt))))
}

/// The refracted direction ratio (uv - n (uv . n)) - n sqrt(disc).
pub open spec fn refract_dir(v: V3i, n: V3i, ratio: int) -> V3i {
    let uv = vunit(v);
    let dt = vdot(uv, n);
    vsub(vscale(vsub(uv, vscale(n, dt)), ratio), vscale(n, fsqrt(refract_disc(v, n, ratio))))
}

/// Refraction of `v` about the outward normal `n` at the given ratio of
/// refractive indices: the bent direction, or nothing under total
/// internal reflection.
pub open spec fn refract_spec(v: V3i, n: V3i, ratio: int) -> Option<V3i> {
    if refract_disc(v, n, ratio) > 0 {
        Some(refract_dir(v, n, ratio))
    } else {
        None
    }
}

/// The fifth power, rounded at every multiplication.
pub open spec fn pow5(x: int) -> int {
    fmul(fmul(fmul(fmul(x, x), x), x), x)
}

/// Schlick's approximation of the Fresnel reflectance:
/// r0 + (1 - r0) (1 - cosine)^5 with r0 = ((1 - n) / (1 + n))^2.
pub open spec fn schlick_spec(cosine: int, ref_index: int) -> int {
    let r0 = fdiv(fsub(SCALE as int, ref_index), fadd(SCALE as int, ref_index));
    let r0s = fmul(r0, r0);
    fadd(r0s, fmul(fsub(SCALE as int, r0s), pow5(fsub(SCALE as int, cosine))))
}

/// What scattering produces at the model level: an attenuation color and
/// the outgoing ray, or nothing when the sample is absorbed.
pub open spec fn scat_opt_view(res: Option<(Vec3, Ray)>) -> Option<(V3i, RayV)> {
    match res {
        Some(pair) => Some((pair.0@, pair.1@)),
        None => None,
    }
}

/// The scattering rule of each material, as a function of the incoming
/// ray, the hit point and normal, one point `ball` of the unit ball and
/// one uniform draw `u` in [0, 1).
pub open spec fn scatter_spec(
    m: Material,
    ray: RayV,
    p: V3i,
    normal: V3i,
    ball: V3i,
    u: int,
) -> Option<(V3i, RayV)> {
    match m {
        Material::Lambertian { albedo } => {
            let target = vadd(vadd(p, normal), ball);
            Some((albedo@, RayV { origin: p, direction: vsub(target, p) }))
        },
        Material::Metal { albedo, fuzz } => {
            let f = if fuzz@ < SCALE as int {
                fuzz@
            } else {
                SCALE as int
            };
            let dir = vadd(reflect_spec(vunit(ray.direction), normal), vscale(ball, f));
            if vdot(dir, normal) > 0 {
                Some((albedo@, RayV { origin: p, direction: dir }))
            } else {
                None
            }
        },
        Material::Dielectric { ref_index } => {
            let ddn = vdot(ray.direction, normal);
            let reflected = reflect_spec(ray.direction, normal);
            let outward = if ddn > 0 {
                vneg(normal)
            } else {
                normal
            };
            let ratio = if ddn > 0 {
                ref_index@
            } else {
                fdiv(SCALE as int, ref_index@)
            };
            let cosine = if ddn > 0 {
                fdiv(fmul(ref_index@, ddn), vlen(ray.direction))
            } else {
                fdiv(fneg(ddn), vlen(ray.direction))
            };
            let prob = match refract_spec(ray.direction, outward, ratio) {
                Some(_) => schlick_spec(cosine, ref_index@),
                None => SCALE as int,
            };
            let dir = if u < prob {
                reflected
            } else {
                match refract_spec(ray.direction, outward, ratio) {
                    Some(rd) => rd,
                    None => reflected,
                }
            };
            Some(
                (
                    V3i { x: SCALE as int, y: SCALE as int, z: SCALE as int },
                    RayV { origin: p, direction: dir },
                ),
            )
        },
    }
}

/// Mirror reflection of `v` about `n`.
pub fn reflect(v: &Vec3, n: &Vec3) -> (r: Vec3)
    ensures
        r@ == reflect_spec(v@, n@),
{
    let two = Fx::from_units(2);
    let d = Vec3::dot(v, n);
    v.const_sub(&n.mul(two.mul(d)))
}

/// Refraction of `v` about the outward normal `n`, or nothing under
/// total internal reflection.
pub fn refract(v: &Vec3, n: &Vec3, ni_over_nt: Fx) -> (res: Option<Vec3>)
    ensures
        (match res {
            Some(r) => refract_spec(v@, n@, ni_over_nt@) == Some(r@),
            None => refract_spec(v@, n@, ni_over_nt@) is None,
        }),
{
    let one = Fx::one();
    let uv = v.unit_vector();
    let dt = Vec3::dot(&uv, n);
    let disc = one.sub(ni_over_nt.mul(ni_over_nt).mul(one.sub(dt.mul(dt))));
    if disc.raw() > 0 {
        let refracted = uv.sub(n.mul(dt)).mul(ni_over_nt).sub(n.mul(disc.sqrt()));
        Some(refracted)
    } else {
        None
    }
}

/// Schlick's reflectance approximation.
pub fn schlick(cosine: Fx, ref_index: Fx) -> (r: Fx)
    ensures
        r@ == schlick_spec(cosine@, ref_index@),
{
    let one = Fx::one();
    let r0 = one.sub(ref_index).div(one.add(ref_index));
    let r0s = r0.mul(r0);
    let omc = one.sub(cosine);
    let p = omc.mul(omc).mul(omc).mul(omc).mul(omc);
    r0s.add(one.sub(r0s).mul(p))
}

/// A point of the open unit ball: components are drawn uniformly in
/// [-1, 1) until the squared length falls below one; after a bounded run
/// of rejections the center of the ball is returned, so the function is
/// total for every source.
pub fn random_in_unit_sphere(rng: &mut RandomSource) -> (p: Vec3)
    ensures
        vlen_sq(p@) < SCALE as int,
        *final(rng) == *old(rng),
        *old(rng) == RandomSource::Zero ==> p@ == v3zero(),
{
    let mut tries: usize = 0;
    while tries < 64
        invariant
            *rng == *old(rng),
        decreases 64 - tries,
    {
        let two = Fx::from_units(2);
        let ones = Vec3::new(Fx::one(), Fx::one(), Fx::one());
        let a = rng.next_unit();
        let b = rng.next_unit();
        let c = rng.next_unit();
        let p = Vec3::new(a, b, c).mul(two).sub(ones);
        if p.length_squared().lt(Fx::one()) {
            proof {
                if *old(rng) == RandomSource::Zero {
                    assert(p@ == (V3i {
                        x: -(SCALE as int),
                        y: -(SCALE as int),
                        z: -(SCALE as int),
                    }));
                    assert((-(SCALE as int)) * (-(SCALE as int)) == 1000000000000int)
                        by (nonlinear_arith);
                    assert(crate::fixed::iabs(3000000000000int) / crate::fixed::iabs(
                        1000000int,
                    ) == 3000000int);
                    assert(crate::fixed::tdiv(3000000000000int, 1000000int) == 3000000int);
                    assert(vlen_sq(p@) == 3 * (SCALE as int));
                }
            }
            return p;
        }
        tries = tries + 1;
    }
    Vec3::default()
}

/// Scattering from explicit random inputs: one point of the unit ball
/// and one uniform draw; the result is exactly `scatter_spec`.
pub fn scatter_with(
    material: &Material,
    ray_in: &Ray,
    rec: &Hit_Record,
    ball: Vec3,
    u: Fx,
) -> (res: Option<(Vec3, Ray)>)
    ensures
        scat_opt_view(res) == scatter_spec(*material, ray_in@, rec@.p, rec@.normal, ball@, u@),
{
    match material {
        Material::Lambertian { albedo } => {
            let target = rec.p.add(rec.normal).add(ball);
            let scattered = Ray::new(rec.p, target.sub(rec.p));
            Some((*albedo, scattered))
        },
        Material::Metal { albedo, fuzz } => {
            let one = Fx::one();
            let f = if fuzz.lt(one) {
                *fuzz
            } else {
                one
            };
            let reflected = reflect(&ray_in.direction.unit_vector(), &rec.normal);
            let dir = reflected.add(ball.mul(f));
            let d = Vec3::dot(&dir, &rec.normal);
            if d.raw() > 0 {
                Some((*albedo, Ray::new(rec.p, dir)))
            } else {
                None
            }
        },
        Material::Dielectric { ref_index } => {
            let one = Fx::one();
            let ddn = Vec3::dot(&ray_in.direction, &rec.normal);
            let reflected = reflect(&ray_in.direction, &rec.normal);
            let entering = ddn.raw() <= 0;
            let outward = if entering {
                rec.normal
            } else {
                rec.normal.neg()
            };
            let ratio = if entering {
                one.div(*ref_index)
            } else {
                *ref_index
            };
            let len = ray_in.direction.length();
            let cosine = if entering {
                ddn.neg().div(len)
            } else {
                ref_index.mul(ddn).div(len)
            };
            let refr = refract(&ray_in.direction, &outward, ratio);
            let prob = match refr {
                Some(_) => schlick(cosine, *ref_index),
                None => one,
            };
            let dir = if u.lt(prob) {
                reflected
            } else {
                match refr {
                    Some(rd) => rd,
                    None => reflected,
                }
            };
            Some((Vec3::new(one, one, one), Ray::new(rec.p, dir)))
        },
    }
}

/// A metal with zero roughness adds no jitter: whatever point of the
/// unit ball is drawn, the scattered direction is the pure mirror
/// reflection of the unit incoming direction, and the sample is
/// absorbed exactly when that reflection leaves at or below the
/// surface.
pub proof fn lemma_metal_no_fuzz(m: Material, ray: RayV, p: V3i, normal: V3i, ball: V3i, u: int)
    requires
        m matches Material::Metal { albedo, fuzz } && fuzz@ == 0,
    ensures
        (match m {
            Material::Metal { albedo, fuzz } => scatter_spec(m, ray, p, normal, ball, u) == (
            if vdot(reflect_spec(vunit(ray.direction), normal), normal) > 0 {
                Some(
                    (
                        albedo@,
                        RayV { origin: p, direction: reflect_spec(vunit(ray.direction), normal) },
                    ),
                )
            } else {
                None::<(V3i, RayV)>
            }),
            _ => true,
        }),
{
    match m {
        Material::Metal { albedo, fuzz } => {
            crate::fixed::lemma_fmul_zero(ball.x);
            crate::fixed::lemma_fmul_zero(ball.y);
            crate::fixed::lemma_fmul_zero(ball.z);
            assert(vscale(ball, 0) == v3zero());
            let reflected = reflect_spec(vunit(ray.direction), normal);
            assert(vadd(reflected, v3zero()) == reflected);
        },
        _ => {},
    }
}

/// A refractive index of exactly one bends nothing: where the unit
/// incoming direction meets the surface head-on from outside, the
/// refraction discriminant is positive, the Schlick reflectance
/// vanishes, and every draw chooses transmission with the refracted
/// direction equal to the unit incoming direction.
pub proof fn lemma_dielectric_index_one(
    m: Material,
    ray: RayV,
    p: V3i,
    normal: V3i,
    ball: V3i,
    u: int,
)
    requires
        m matches Material::Dielectric { ref_index } && ref_index@ == SCALE as int,
        vdot(ray.direction, normal) <= 0,
        vdot(vunit(ray.direction), normal) == -(SCALE as int),
        crate::fixed::fdiv(
            fneg(vdot(ray.direction, normal)),
            crate::vec3::vlen(ray.direction),
        ) == SCALE as int,
        0 <= u,
        -(SCALE as int) <= vunit(ray.direction).x <= SCALE as int,
        -(SCALE as int) <= vunit(ray.direction).y <= SCALE as int,
        -(SCALE as int) <= vunit(ray.direction).z <= SCALE as int,
        -(SCALE as int) <= normal.x <= SCALE as int,
        -(SCALE as int) <= normal.y <= SCALE as int,
        -(SCALE as int) <= normal.z <= SCALE as int,
    ensures
        scatter_spec(m, ray, p, normal, ball, u) == Some(
            (
                V3i { x: SCALE as int, y: SCALE as int, z: SCALE as int },
                RayV { origin: p, direction: vunit(ray.direction) },
            ),
        ),
{
    match m {
        Material::Dielectric { ref_index } => {
            let s = SCALE as int;
            let uv = vunit(ray.direction);
            let dt = vdot(uv, normal);
            crate::fixed::lemma_tdiv_multiple(s, s);
            assert(crate::fixed::fdiv(s, s) == s);
            crate::fixed::lemma_fmul_units(s);
            crate::fixed::lemma_fmul_units(-s);
            assert(fmul(dt, dt) == s);
            assert(fmul(fmul(s, s), fsub(s, s)) == 0);
            assert(refract_disc(ray.direction, normal, s) == s);
            // The refracted direction collapses to the unit incoming
            // direction, component by component.
            crate::fixed::lemma_fmul_units(normal.x);
            crate::fixed::lemma_fmul_units(normal.y);
            crate::fixed::lemma_fmul_units(normal.z);
            assert(vscale(normal, dt) == vneg(normal));
            assert(vsub(uv, vneg(normal)) == (V3i {
                x: uv.x + normal.x,
                y: uv.y + normal.y,
                z: uv.z + normal.z,
            }));
            crate::fixed::lemma_fmul_units(uv.x + normal.x);
            crate::fixed::lemma_fmul_units(uv.y + normal.y);
            crate::fixed::lemma_fmul_units(uv.z + normal.z);
            assert((s) * (s) <= s * s && s * s < (((s + 1)) * ((s + 1))) && 0 <= s)
                by (nonlinear_arith)
                requires
                    0 <= s,
            ;
            assert(crate::fixed::is_isqrt(s * s, s));
            crate::fixed::lemma_isqrt_unique(s * s, s);
            assert(fsqrt(s) == s);
            assert(refract_dir(ray.direction, normal, s) == uv);
            // The reflectance vanishes at cosine one and index one.
            crate::fixed::lemma_fmul_zero(0);
            vstd::arithmetic::div_mod::lemma_div_of0(2 * s);
            assert(crate::fixed::fdiv(fsub(s, s), fadd(s, s)) == 0);
            crate::fixed::lemma_fmul_zero(s);
            assert(pow5(fsub(s, s)) == 0);
            assert(schlick_spec(s, s) == 0);
        },
        _ => {},
    }
}

/// Scattering with draws taken from the given source. A diffuse or
/// transparent material always scatters; a metal absorbs exactly the
/// samples whose perturbed reflection falls at or below the surface.
pub fn scatter(
    material: &Material,
    ray_in: &Ray,
    rec: &Hit_Record,
    rng: &mut RandomSource,
) -> (res: Option<(Vec3, Ray)>)
    ensures
        *final(rng) == *old(rng),
        *old(rng) == RandomSource::Zero ==> scat_opt_view(res) == scatter_spec(
            *material,
            ray_in@,
            rec@.p,
            rec@.normal,
            v3zero(),
            0,
        ),
        exists|b: V3i, uu: int|
            vlen_sq(b) < SCALE as int && 0 <= uu < SCALE as int && #[trigger] scatter_spec(
                *material,
                ray_in@,
                rec@.p,
                rec@.normal,
                b,
                uu,
            ) == scat_opt_view(res),
        material matches Material::Lambertian { albedo } ==> (match res {
            Some(pair) => pair.0@ == albedo@,
            None => false,
        }),
        material matches Material::Dielectric { ref_index } ==> (match res {
            Some(pair) => pair.0@ == (V3i {
                x: SCALE as int,
                y: SCALE as int,
                z: SCALE as int,
            }),
            None => false,
        }),
        material matches Material::Metal { albedo, fuzz } ==> (match res {
            Some(pair) => pair.0@ == albedo@ && vdot(pair.1@.direction, rec@.normal) > 0,
            None => true,
        }),
{
    let ball = random_in_unit_sphere(rng);
    let u = rng.next_unit();
    let res = scatter_with(material, ray_in, rec, ball, u);
    proof {
        assert(vlen_sq(ball@) < SCALE as int && 0 <= u@ < SCALE as int && scatter_spec(
            *material,
            ray_in@,
            rec@.p,
            rec@.normal,
            ball@,
            u@,
        ) == scat_opt_view(res));
    }
    res
}

} // verus!
