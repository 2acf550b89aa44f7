//! Deterministic pseudo-random number generator (xorshift32).
//!
//! A game session seeds one `Prng` from an external entropy source and
//! advances it with every random decision; for a given seed the whole
//! sequence of draws is reproducible.
use vstd::prelude::*;

verus! {

/// The xorshift32 state transition: three shift-xor rounds.
pub open spec fn spec_next_state(s: u32) -> u32 {
    let a = s ^ (s << 13);
    let b = a ^ (a >> 17);
    b ^ (b << 5)
}

/// Deterministic pseudo-random generator with 32 bits of state.
#[derive(Clone, Copy, PartialEq, Eq, Structural, Debug)]
pub struct Prng {
    pub state: u32,
}

impl Prng {
    /// Seeds the generator; equal seeds give equal draw sequences.
    pub fn new(seed: u32) -> (p: Prng)
        ensures
            p.state == seed,
    {
        Prng { state: seed }
    }

    /// Advances the state one xorshift32 round and returns it.
    pub fn next(&mut self) -> (r: u32)
        ensures
            final(self).state == spec_next_state(old(self).state),
            r == spec_next_state(old(self).state),
    {
        let a = self.state ^ (self.state << 13u32);
        let b = a ^ (a >> 17u32);
        let c = b ^ (b << 5u32);
        self.state = c;
        c
    }

    /// Draws a value uniformly distributed over `[0, n)`.
    pub fn next_range(&mut self, n: u8) -> (r: u8)
        requires
            n > 0,
        ensures
            final(self).state == spec_next_state(old(self).state),
            r == spec_next_state(old(self).state) % (n as u32),
            r < n,
    {
        let v = self.next();
        (v % (n as u32)) as u8
    }
}

} // verus!
