//! The shared pseudo-random source: a xorshift generator whose draws are
//! sequential and fully determined by the seed.
use vstd::prelude::*;

verus! {

/// Pseudo-random generator state. The state is never zero.
#[derive(Clone, Copy, Debug, PartialEq, Eq, Structural)]
pub struct Rng {
    state: u64,
}

/// One xorshift64 step.
pub open spec fn xorshift(x: u64) -> u64 {
    let a = x ^ (x << 13u64);
    let b = a ^ (a >> 7u64);
    b ^ (b << 17u64)
}

/// The state after `k` steps from `x`.
pub open spec fn xorshift_n(x: u64, k: nat) -> u64
    decreases k,
{
    if k == 0 {
        x
    } else {
        xorshift(xorshift_n(x, (k - 1) as nat))
    }
}

impl Rng {
    /// The current state.
    pub closed spec fn state(self) -> u64 {
        self.state
    }

    /// A generator seeded with `seed`; a zero seed is replaced by a fixed
    /// non-zero value, since zero is a fixed point of the step.
    pub fn new(seed: u64) -> (r: Rng)
        ensures
            r.state() == (if seed == 0 { 0x9E37_79B9_7F4A_7C15u64 } else { seed }),
    {
        if seed == 0 {
            Rng { state: 0x9E37_79B9_7F4A_7C15u64 }
        } else {
            Rng { state: seed }
        }
    }

    /// Advances the state by one step and returns the new state.
    pub fn next_u64(&mut self) -> (r: u64)
        ensures
            r == xorshift(old(self).state()),
            final(self).state() == r,
    {
        let x = self.state;
        let a = x ^ (x << 13u64);
        let b = a ^ (a >> 7u64);
        let c = b ^ (b << 17u64);
        self.state = c;
        c
    }

    /// A number in `[lo, hi)` taken from the next draw.
    pub fn gen_range(&mut self, lo: u64, hi: u64) -> (r: u64)
        requires
            lo < hi,
        ensures
            lo <= r < hi,
            r == lo + xorshift(old(self).state()) % ((hi - lo) as u64),
            final(self).state() == xorshift(old(self).state()),
    {
        let x = self.next_u64();
        lo + x % (hi - lo)
    }

    /// A Bernoulli trial that succeeds with probability `ppm` / 1_000_000.
    /// A probability of one million or more always succeeds, zero never does.
    pub fn gen_ppm(&mut self, ppm: u64) -> (r: bool)
        ensures
            r == (xorshift(old(self).state()) % 1_000_000 < ppm),
            ppm >= 1_000_000 ==> r,
            ppm == 0 ==> !r,
            final(self).state() == xorshift(old(self).state()),
    {
        let x = self.next_u64();
        x % 1_000_000 < ppm
    }
}

} // verus!
