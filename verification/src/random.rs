//! The source of randomness, passed explicitly to every function that
//! draws, so that a run can be made deterministic for testing.

use crate::fixed::{Fx, SCALE};
use vstd::prelude::*;

verus! {

/// Relies on rand::thread_rng and rand::Rng::gen_range: one integer drawn
/// uniformly from [lo, hi) by the thread-local generator.
#[verifier::external_body]
fn draw_in_range(lo: i64, hi: i64) -> (r: i64)
    requires
        lo < hi,
    ensures
        lo <= r < hi,
{
    let mut rng = rand::thread_rng();
    rand::Rng::gen_range(&mut rng, lo..hi)
}

/// Where uniform draws come from: the system generator, or the constant
/// zero for deterministic runs.
#[derive(Clone, Copy, Debug, PartialEq, Eq, Structural)]
pub enum RandomSource {
    /// Every draw is 0; a run with this source is fully deterministic.
    Zero,
    /// Draws come from the thread-local system generator.
    System,
}

impl RandomSource {
    /// One draw, uniform in [0, 1) when the source is the system
    /// generator, and 0 from the zero source.
    pub fn next_unit(&mut self) -> (r: Fx)
        ensures
            0 <= r@ < SCALE as int,
            *final(self) == *old(self),
            *old(self) == RandomSource::Zero ==> r@ == 0,
    {
        match self {
            RandomSource::Zero => Fx::zero(),
            RandomSource::System => {
                let d: i64 = draw_in_range(0, SCALE);
                Fx::from_raw(d)
            },
        }
    }
}

} // verus!
