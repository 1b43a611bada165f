//! A small deterministic pseudo-random generator: a 64-bit linear
//! congruential step. It drives the glitch scheduler's shuffles and sleep
//! picks; every draw is a pure function of the seed, so a session replays
//! exactly from the same seed.

use vstd::prelude::*;

verus! {

/// One generator step: multiply, add, reduce modulo 2^64.
pub open spec fn next_state(s: u64) -> u64 {
    ((s * 6364136223846793005 + 1442695040888963407) % 0x1_0000_0000_0000_0000) as u64
}

/// The value a generator in state `s` draws from the inclusive range
/// `[lo, hi]`.
pub open spec fn range_draw(s: u64, lo: u64, hi: u64) -> u64
    recommends
        lo <= hi,
        hi - lo < u64::MAX,
{
    (lo + next_state(s) as int % (hi - lo + 1)) as u64
}

pub struct Rng64 {
    state: u64,
}

impl Rng64 {
    pub closed spec fn state_spec(self) -> u64 {
        self.state
    }

    pub fn new(seed: u64) -> (rng: Self)
        ensures
            rng.state_spec() == seed,
    {
        Rng64 { state: seed }
    }

    /// Steps the generator and returns the new state as the draw.
    pub fn next(&mut self) -> (r: u64)
        ensures
            final(self).state_spec() == next_state(old(self).state_spec()),
            r == final(self).state_spec(),
    {
        let wide: u128 = (self.state as u128) * 6364136223846793005u128 + 1442695040888963407u128;
        let lo: u64 = (wide % 0x1_0000_0000_0000_0000u128) as u64;
        self.state = lo;
        lo
    }

    /// A draw reduced below `n`.
    pub fn next_below(&mut self, n: u64) -> (r: u64)
        requires
            1 <= n,
        ensures
            final(self).state_spec() == next_state(old(self).state_spec()),
            r == next_state(old(self).state_spec()) as int % n as int,
            r < n,
    {
        let d = self.next();
        d % n
    }

    /// A draw from the inclusive range `[lo, hi]`.
    pub fn next_in_range(&mut self, lo: u64, hi: u64) -> (r: u64)
        requires
            lo <= hi,
            hi - lo < u64::MAX,
        ensures
            final(self).state_spec() == next_state(old(self).state_spec()),
            r == range_draw(old(self).state_spec(), lo, hi),
            lo <= r <= hi,
    {
        let span = hi - lo + 1;
        let d = self.next_below(span);
        lo + d
    }
}

} // verus!
