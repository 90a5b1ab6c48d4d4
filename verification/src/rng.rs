//! Small deterministic pseudo-random number generator (xorshift64) behind the
//! seeded piece randomizer.

use vstd::prelude::*;

verus! {

/// State used in place of a zero seed, which xorshift cannot leave.
pub const ZERO_SEED_STATE: u64 = 0x9E37_79B9_7F4A_7C15;

/// One xorshift64 step.
pub open spec fn xorshift_step(s: u64) -> u64 {
    let a = s ^ (s << 13u64);
    let b = a ^ (a >> 7u64);
    b ^ (b << 17u64)
}

/// The state a generator seeded with `seed` starts from.
pub open spec fn seed_state(seed: u64) -> u64 {
    if seed == 0 {
        ZERO_SEED_STATE
    } else {
        seed
    }
}

/// The value `next_below(n)` draws from a generator in state `s`.
pub open spec fn draw_below(s: u64, n: u32) -> u32 {
    (xorshift_step(s) % (n as u64)) as u32
}

#[derive(Copy, Clone, PartialEq, Eq, Debug)]
pub struct Rng {
    state: u64,
}

impl View for Rng {
    type V = u64;

    closed spec fn view(&self) -> u64 {
        self.state
    }
}

impl Rng {
    pub fn new(seed: u64) -> (r: Rng)
        ensures
            r@ == seed_state(seed),
    {
        let state = if seed == 0 {
            ZERO_SEED_STATE
        } else {
            seed
        };
        Rng { state }
    }

    /// Advances the generator and returns its new state.
    pub fn next_u64(&mut self) -> (r: u64)
        ensures
            r == xorshift_step(old(self)@),
            final(self)@ == r,
    {
        let s = self.state;
        let a = s ^ (s << 13u64);
        let b = a ^ (a >> 7u64);
        let c = b ^ (b << 17u64);
        self.state = c;
        c
    }

    /// A value in `0..n`, taken from the next state.
    pub fn next_below(&mut self, n: u32) -> (r: u32)
        requires
            n > 0,
        ensures
            r == draw_below(old(self)@, n),
            r < n,
            final(self)@ == xorshift_step(old(self)@),
    {
        let x = self.next_u64();
        (x % (n as u64)) as u32
    }
}

} // verus!
