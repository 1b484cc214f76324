//! Deterministic seeded pseudo-random generator.
//!
//! The generation pipeline must be bit-identical across two runs with the
//! same seed, so the generator's whole behaviour is pinned down by spec
//! functions: every draw is an exact function of the seed and of the call
//! order.

use vstd::prelude::*;

verus! {

/// A xorshift-style generator; the state after each draw and the value drawn
/// are exact functions of the previous state.
pub struct Rng {
    state: u64,
}

/// One state-advance step of the generator.
pub open spec fn spec_step(s: u64) -> u64 {
    let a = s ^ (s << 13);
    let b = a ^ (a >> 7);
    b ^ (b << 17)
}

/// The state a freshly seeded generator starts from.
pub open spec fn spec_seeded(seed: u64) -> u64 {
    seed ^ 0x9E3779B97F4A7C15u64
}

/// One mixing step as a plain function, for salting lattice noise.
pub fn mix(s: u64) -> (r: u64)
    ensures
        r == spec_step(s),
{
    let a: u64 = s ^ (s << 13u64);
    let b: u64 = a ^ (a >> 7u64);
    b ^ (b << 17u64)
}

impl Rng {
    pub closed spec fn view(self) -> u64 {
        self.state
    }

    pub fn seeded(seed: u64) -> (r: Rng)
        ensures
            r@ == spec_seeded(seed),
    {
        Rng { state: seed ^ 0x9E3779B97F4A7C15u64 }
    }

    /// Draws a raw 64-bit value; the result equals the new state.
    pub fn next_u64(&mut self) -> (r: u64)
        ensures
            final(self)@ == spec_step(old(self)@),
            r == spec_step(old(self)@),
    {
        let s0: u64 = self.state;
        let a: u64 = s0 ^ (s0 << 13u64);
        let b: u64 = a ^ (a >> 7u64);
        let c: u64 = b ^ (b << 17u64);
        self.state = c;
        c
    }

    /// Draws a value in `[0, bound)`.
    pub fn next_below(&mut self, bound: u64) -> (r: u64)
        requires
            bound > 0,
        ensures
            final(self)@ == spec_step(old(self)@),
            r == spec_step(old(self)@) % bound,
            r < bound,
    {
        let x = self.next_u64();
        x % bound
    }

    /// Draws an integer in `[lo, hi)`.
    pub fn next_range(&mut self, lo: i64, hi: i64) -> (r: i64)
        requires
            lo < hi,
            hi - lo <= 0x7FFF_FFFF_FFFF_FFFF,
        ensures
            final(self)@ == spec_step(old(self)@),
            r == lo + spec_step(old(self)@) % ((hi - lo) as u64),
            lo <= r < hi,
    {
        let span: u64 = (hi - lo) as u64;
        let x = self.next_below(span);
        lo + x as i64
    }
}

} // verus!
