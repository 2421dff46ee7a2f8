//! The sampler loop: per-pixel multi-sample accumulation, averaging and
//! gamma correction, producing a row-major pixel grid from the top row
//! down.

use crate::camera::{get_ray_spec, Camera};
use crate::color::{color, color_zero};
use crate::fixed::{
    clip, fadd, fdiv, fmul, fsqrt, lemma_fmul_nonneg, lemma_isqrt_props, tdiv, Fx, SCALE,
};
use crate::hittable::Hittable;
use crate::random::RandomSource;
use crate::scene::Scene;
use crate::vec3::{v3zero, vadd, vdiv_scalar, V3i, Vec3};
use vstd::prelude::*;

verus! {

/// One color component mapped to an output integer: gamma-2 correction
/// by the square root of the non-negative part, scaled by 255.99,
/// truncated to an integer and clamped the way a float-to-int cast is.
pub open spec fn pix_comp(c: int) -> int {
    let g = fsqrt(if c < 0 { 0 } else { c });
    let v = tdiv(fmul(255_990_000, g), SCALE as int);
    if v > 2147483647 {
        2147483647
    } else {
        v
    }
}

/// The color of the sample drawn for column `i` and row `j` (counted
/// from the bottom) under the zero source: jitter and lens draws are 0.
pub open spec fn sample_color_zero(
    ss: Seq<Hittable>,
    cam: Camera,
    w: int,
    h: int,
    i: int,
    j: int,
) -> V3i {
    let u = fdiv(fadd(clip(i * (SCALE as int)), 0), clip(w * (SCALE as int)));
    let v = fdiv(fadd(clip(j * (SCALE as int)), 0), clip(h * (SCALE as int)));
    color_zero(ss, get_ray_spec(cam, u, v, v3zero()), 0)
}

/// `n` copies of a color summed, as the sampling loop accumulates them.
pub open spec fn acc_color(c: V3i, n: int) -> V3i
    decreases n,
{
    if n <= 0 {
        v3zero()
    } else {
        vadd(acc_color(c, n - 1), c)
    }
}

/// The finished pixel for column `i` and row `j` under the zero source.
pub open spec fn pixel_zero(
    ss: Seq<Hittable>,
    cam: Camera,
    w: int,
    h: int,
    samples: int,
    i: int,
    j: int,
) -> (i32, i32, i32) {
    let avg = vdiv_scalar(
        acc_color(sample_color_zero(ss, cam, w, h, i, j), samples),
        clip(samples * (SCALE as int)),
    );
    (pix_comp(avg.x) as i32, pix_comp(avg.y) as i32, pix_comp(avg.z) as i32)
}

/// Map one averaged color component to its output integer.
fn to_component(c: Fx) -> (r: i32)
    ensures
        r as int == pix_comp(c@),
{
    let g = if c.raw() < 0 {
        Fx::zero()
    } else {
        c
    };
    let gr = g.sqrt();
    let scaled = Fx::from_raw(255_990_000).mul(gr);
    proof {
        lemma_isqrt_props(g@ * (SCALE as int));
        lemma_fmul_nonneg(255_990_000, gr@);
    }
    let sr: i64 = scaled.raw();
    let q: u64 = (sr as u64) / (SCALE as u64);
    proof {
        assert(tdiv(scaled@, SCALE as int) == q as int);
    }
    if q > 2147483647u64 {
        2147483647i32
    } else {
        q as i32
    }
}

/// Render the scene through the camera at `width` by `height` pixels
/// with `samples` rays per pixel, row-major from the top row down: each
/// sample's screen coordinates carry one uniform jitter per axis, the
/// accumulated color is averaged and gamma-corrected, and under the
/// zero source every pixel equals `pixel_zero`.
pub fn render(
    world: &Scene,
    cam: &Camera,
    width: usize,
    height: usize,
    samples: usize,
    rng: &mut RandomSource,
) -> (pix: Vec<(i32, i32, i32)>)
    requires
        width <= 1000000,
        height <= 1000000,
        samples <= 1000000,
    ensures
        pix@.len() == width * height,
        *final(rng) == *old(rng),
        *old(rng) == RandomSource::Zero ==> forall|a: int, b: int|
            0 <= a < height && 0 <= b < width ==> pix@[a * (width as int) + b] == #[trigger] pixel_zero(
                world.surfaces@,
                *cam,
                width as int,
                height as int,
                samples as int,
                b,
                (height as int) - 1 - a,
            ),
{
    let ghost ss = world.surfaces@;
    let mut pix: Vec<(i32, i32, i32)> = Vec::new();
    let mut row: usize = 0;
    while row < height
        invariant
            row <= height,
            width <= 1000000,
            height <= 1000000,
            samples <= 1000000,
            ss == world.surfaces@,
            pix@.len() == row * width,
            *rng == *old(rng),
            *old(rng) == RandomSource::Zero ==> forall|a: int, b: int|
                0 <= a < row && 0 <= b < width ==> pix@[a * (width as int) + b] == #[trigger] pixel_zero(
                    ss,
                    *cam,
                    width as int,
                    height as int,
                    samples as int,
                    b,
                    (height as int) - 1 - a,
                ),
        decreases height - row,
    {
        let j: usize = height - 1 - row;
        let mut i: usize = 0;
        while i < width
            invariant
                i <= width,
                row < height,
                j == height - 1 - row,
                width <= 1000000,
                height <= 1000000,
                samples <= 1000000,
                ss == world.surfaces@,
                pix@.len() == row * width + i,
                *rng == *old(rng),
                *old(rng) == RandomSource::Zero ==> forall|a: int, b: int|
                    0 <= a < row && 0 <= b < width ==> pix@[a * (width as int) + b] == #[trigger] pixel_zero(
                        ss,
                        *cam,
                        width as int,
                        height as int,
                        samples as int,
                        b,
                        (height as int) - 1 - a,
                    ),
                *old(rng) == RandomSource::Zero ==> forall|b: int|
                    0 <= b < i ==> pix@[(row as int) * (width as int) + b] == #[trigger] pixel_zero(
                        ss,
                        *cam,
                        width as int,
                        height as int,
                        samples as int,
                        b,
                        j as int,
                    ),
            decreases width - i,
        {
            let mut col = Vec3::default();
            let mut s: usize = 0;
            while s < samples
                invariant
                    s <= samples,
                    i < width,
                    j < height,
                    width <= 1000000,
                    height <= 1000000,
                    ss == world.surfaces@,
                    *rng == *old(rng),
                    *old(rng) == RandomSource::Zero ==> col@ == acc_color(
                        sample_color_zero(
                            ss,
                            *cam,
                            width as int,
                            height as int,
                            i as int,
                            j as int,
                        ),
                        s as int,
                    ),
                decreases samples - s,
            {
                let du = rng.next_unit();
                let dv = rng.next_unit();
                let u = Fx::from_units(i as i64).add(du).div(Fx::from_units(width as i64));
                let v = Fx::from_units(j as i64).add(dv).div(Fx::from_units(height as i64));
                let ray = cam.get_ray(u, v, rng);
                let c = color(&ray, world, 0, rng);
                col = col.add(c);
                s = s + 1;
            }
            let avg = col.div(Fx::from_units(samples as i64));
            let px = (to_component(avg.x()), to_component(avg.y()), to_component(avg.z()));
            let ghost old_pix = pix@;
            pix.push(px);
            proof {
                if *old(rng) == RandomSource::Zero {
                    assert(px == pixel_zero(
                        ss,
                        *cam,
                        width as int,
                        height as int,
                        samples as int,
                        i as int,
                        j as int,
                    ));
                    assert forall|a: int, b: int| 0 <= a < row && 0 <= b < width implies pix@[a
                        * (width as int) + b] == #[trigger] pixel_zero(
                        ss,
                        *cam,
                        width as int,
                        height as int,
                        samples as int,
                        b,
                        (height as int) - 1 - a,
                    ) by {
                        assert(0 <= a * (width as int) + b < (row as int) * (width as int))
                            by (nonlinear_arith)
                            requires
                                0 <= a < row as int,
                                0 <= b < width as int,
                        ;
                        assert(pix@[a * (width as int) + b] == old_pix[a * (width as int) + b]);
                    }
                    assert forall|b: int| 0 <= b < i + 1 implies pix@[(row as int) * (width
                        as int) + b] == #[trigger] pixel_zero(
                        ss,
                        *cam,
                        width as int,
                        height as int,
                        samples as int,
                        b,
                        j as int,
                    ) by {
                        if b < i as int {
                            assert(pix@[(row as int) * (width as int) + b] == old_pix[(row as int)
                                * (width as int) + b]);
                        } else {
                            assert((row as int) * (width as int) + b == old_pix.len());
                        }
                    }
                }
            }
            i = i + 1;
        }
        proof {
            assert((row as int + 1) * (width as int) == (row as int) * (width as int) + (width
                as int)) by (nonlinear_arith);
            if *old(rng) == RandomSource::Zero {
                assert forall|a: int, b: int| 0 <= a < row + 1 && 0 <= b < width implies pix@[a
                    * (width as int) + b] == #[trigger] pixel_zero(
                    ss,
                    *cam,
                    width as int,
                    height as int,
                    samples as int,
                    b,
                    (height as int) - 1 - a,
                ) by {
                    if a == row as int {
                        assert((height as int) - 1 - a == j as int);
                    }
                }
            }
        }
        row = row + 1;
    }
    proof {
        assert((height as int) * (width as int) == (width as int) * (height as int))
            by (nonlinear_arith);
    }
    pix
}

} // verus!
