//! A deterministic random stream, threaded explicitly through every sampler:
//! two walks from the same seed draw the same values.

use vstd::prelude::*;

verus! {

use crate::SCALE;
use crate::vec3::Vec3;
use crate::vec3::bounded;

/// Multiplier of the linear congruential step.
pub const LCG_MUL: u64 = 6364136223846793005;
/// Increment of the linear congruential step.
pub const LCG_ADD: u64 = 1442695040888963407;

/// The successor state of the stream: a linear congruential step modulo the
/// word size.
pub open spec fn lcg_next(s: u64) -> u64 {
    s.wrapping_mul(LCG_MUL).wrapping_add(LCG_ADD)
}

/// The fixed-point draw in `[0, SCALE)` that a state yields.
pub open spec fn draw_of(s: u64) -> i64 {
    (((s >> 20) % (SCALE as u64)) as i64)
}

/// A worker-owned random stream; no global state anywhere.
#[derive(Clone, Copy, PartialEq, Eq, Structural, Debug)]
pub struct Rng {
    pub state: u64,
}

impl Rng {
    pub fn new(seed: u64) -> (r: Rng)
        ensures
            r.state == seed,
    {
        Rng { state: seed }
    }

    /// Advances the stream one step.
    pub fn next_state(&mut self) -> (r: u64)
        ensures
            final(self).state == lcg_next(old(self).state),
            r == final(self).state,
    {
        self.state = self.state.wrapping_mul(LCG_MUL).wrapping_add(LCG_ADD);
        self.state
    }

    /// A draw from `[0, SCALE)`, pinned to the stream state.
    pub fn rand_unit(&mut self) -> (r: i64)
        ensures
            final(self).state == lcg_next(old(self).state),
            r == draw_of(final(self).state),
            0 <= r < SCALE,
    {
        let s = self.next_state();
        ((s >> 20) % (SCALE as u64)) as i64
    }

    /// A draw from `[-SCALE, SCALE)`: twice a unit draw, recentered.
    pub fn rand_signed(&mut self) -> (r: i64)
        ensures
            final(self).state == lcg_next(old(self).state),
            r == 2 * draw_of(final(self).state) - SCALE,
            -SCALE <= r < SCALE,
    {
        let u = self.rand_unit();
        2 * u - SCALE
    }

    /// A point of the unit square, two consecutive draws.
    pub fn rand_square(&mut self) -> (r: (i64, i64))
        ensures
            final(self).state == lcg_next(lcg_next(old(self).state)),
            r.0 == draw_of(lcg_next(old(self).state)),
            r.1 == draw_of(final(self).state),
            0 <= r.0 < SCALE,
            0 <= r.1 < SCALE,
    {
        let a = self.rand_unit();
        let b = self.rand_unit();
        (a, b)
    }

    /// A nonzero local-frame vector in the upper half space: the hemisphere
    /// sample every diffuse bounce is built from.
    pub fn rand_local_hemisphere(&mut self) -> (r: Vec3)
        ensures
            final(self).state == lcg_next(lcg_next(lcg_next(old(self).state))),
            r.x == 2 * draw_of(lcg_next(old(self).state)) - SCALE,
            r.y == 2 * draw_of(lcg_next(lcg_next(old(self).state))) - SCALE,
            r.z == draw_of(lcg_next(lcg_next(lcg_next(old(self).state)))) + 1,
            bounded(r, SCALE as int),
            1 <= r.z <= SCALE,
    {
        let x = self.rand_signed();
        let y = self.rand_signed();
        let zu = self.rand_unit();
        Vec3 { x, y, z: zu + 1 }
    }
}

} // verus!
