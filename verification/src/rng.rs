use vstd::prelude::*;
use crate::fx::{Fx, FX_ONE};

verus! {

/// Multiplier of the linear congruential step.
pub const LCG_MUL: u64 = 6364136223846793005;

/// Increment of the linear congruential step.
pub const LCG_ADD: u64 = 1442695040888963407;

/// One step of the linear congruential generator: multiply and add,
/// wrapping modulo 2^64.
pub open spec fn lcg_next(s: u64) -> u64 {
    vstd::wrapping::u64_specs::wrapping_add(vstd::wrapping::u64_specs::wrapping_mul(s, LCG_MUL), LCG_ADD)
}

/// The 16 top bits of the next state: a raw fixed-point value in [0, 1).
pub open spec fn lcg_unit(s: u64) -> int {
    (lcg_next(s) as int) / 0x1000000000000
}

/// A deterministic pseudo-random number generator with an explicit,
/// seedable state.
///
/// Every stochastic choice of the renderer (scattering, axis selection,
/// free-flight sampling, pixel jitter) draws from a generator handed in by
/// the caller, so runs are reproducible for a fixed seed.
#[derive(Clone, Copy, PartialEq, Eq, Structural, Debug)]
pub struct Lcg {
    pub state: u64,
}

/// Relies on rand::random::<u64>: a fresh seed drawn from the process-wide
/// generator. Nothing is promised of the value.
#[verifier::external_body]
fn fresh_seed() -> u64 {
    rand::random::<u64>()
}

impl Lcg {
    /// A generator starting from the given seed.
    pub fn new(seed: u64) -> (r: Lcg)
        ensures
            r.state == seed,
    {
        Lcg { state: seed }
    }

    /// A generator seeded from the outside random source; the state is
    /// arbitrary.
    pub fn from_entropy() -> Lcg {
        Lcg { state: fresh_seed() }
    }

    /// Advance the state and return it.
    pub fn next_u64(&mut self) -> (r: u64)
        ensures
            final(self).state == lcg_next(old(self).state),
            r == final(self).state,
    {
        let s = self.state.wrapping_mul(LCG_MUL).wrapping_add(LCG_ADD);
        self.state = s;
        s
    }

    /// A scalar in [0, 1): sixteen fresh bits on the fixed-point grid.
    pub fn next_unit(&mut self) -> (r: Fx)
        ensures
            final(self).state == lcg_next(old(self).state),
            r@ == lcg_unit(old(self).state),
            0 <= r@ < FX_ONE as int,
    {
        let s = self.next_u64();
        let top: u64 = s / 0x1000000000000;
        Fx { raw: top as i64 }
    }

    /// A scalar in [-1, 1).
    pub fn next_sym(&mut self) -> (r: Fx)
        ensures
            final(self).state == lcg_next(old(self).state),
            r@ == 2 * lcg_unit(old(self).state) - FX_ONE as int,
            -(FX_ONE as int) <= r@ < FX_ONE as int,
    {
        let u = self.next_unit();
        Fx { raw: 2 * u.raw - FX_ONE }
    }

    /// An index below `n`.
    pub fn next_index(&mut self, n: usize) -> (r: usize)
        requires
            n >= 1,
        ensures
            final(self).state == lcg_next(old(self).state),
            r == lcg_next(old(self).state) as int % n as int,
            r < n,
    {
        let s = self.next_u64();
        (s % (n as u64)) as usize
    }

    /// A scalar in [lo, hi): `lo` plus a unit fraction of the width.
    pub fn next_in_range(&mut self, lo: Fx, hi: Fx) -> (r: Fx)
        requires
            lo@ <= hi@,
        ensures
            final(self).state == lcg_next(old(self).state),
            r == crate::fx::fx_add(
                lo,
                crate::fx::fx_mul(crate::fx::fx_sub(hi, lo), Fx { raw: lcg_unit(old(self).state) as i64 }),
            ),
            lo@ <= r@ <= hi@,
    {
        let u = self.next_unit();
        let width = hi.sub(lo);
        proof {
            crate::fx::lemma_mul_unit_range(width, u);
        }
        lo.add(width.mul(u))
    }
}

} // verus!
