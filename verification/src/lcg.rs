//! A linear congruential generator that turns one seed byte into a
//! replayable stream of bytes.

use vstd::prelude::*;
use crate::constants::{LCG_A, LCG_C};

verus! {

/// The state that follows `state`: `state * A + C` modulo 2^64.
pub open spec fn lcg_step(state: u64) -> u64 {
    ((state as int * LCG_A as int + LCG_C as int) % 0x1_0000_0000_0000_0000) as u64
}

/// The byte that a state yields: its bits 16 to 23.
pub open spec fn lcg_output(state: u64) -> u8 {
    ((state >> 16) & 0xff) as u8
}

/// The state of a generator seeded with `seed` after `n` draws.
pub open spec fn lcg_state_after(seed: u8, n: nat) -> u64
    decreases n,
{
    if n == 0 {
        seed as u64
    } else {
        lcg_step(lcg_state_after(seed, (n - 1) as nat))
    }
}

/// The first `n` bytes drawn from a generator seeded with `seed`.
pub open spec fn lcg_stream(seed: u8, n: nat) -> Seq<u8> {
    Seq::new(n, |i: int| lcg_output(lcg_state_after(seed, (i + 1) as nat)))
}

/// Generator state. Its output is a function of the seed and of the number
/// of draws made so far, and of nothing else.
pub struct Lcg {
    state: u64,
}

impl Lcg {
    /// The current 64-bit state.
    pub closed spec fn state(&self) -> u64 {
        self.state
    }

    /// A generator whose state is the seed, zero-extended.
    pub fn new(seed: u8) -> (g: Lcg)
        ensures
            g.state() == seed as u64,
            g.state() == lcg_state_after(seed, 0),
    {
        Lcg { state: seed as u64 }
    }

    /// Advances the state once and returns the byte of the new state.
    pub fn next(&mut self) -> (b: u8)
        ensures
            final(self).state() == lcg_step(old(self).state()),
            b == lcg_output(final(self).state()),
    {
        let product: u64 = self.state.wrapping_mul(LCG_A);
        let updated: u64 = product.wrapping_add(LCG_C);
        proof {
            let m: int = 0x1_0000_0000_0000_0000;
            let s: int = self.state as int;
            let a: int = LCG_A as int;
            let c: int = LCG_C as int;
            assert(product as int == (s * a) % m);
            assert(updated as int == (product as int + c) % m);
            vstd::arithmetic::div_mod::lemma_add_mod_noop(s * a, c, m);
            assert(c % m == c);
            assert(((s * a) % m + c) % m == (s * a + c) % m);
        }
        self.state = updated;
        let shifted: u64 = (updated >> 16) & 0xff;
        assert(shifted <= 0xff) by (bit_vector)
            requires
                shifted == (updated >> 16) & 0xff,
        ;
        shifted as u8
    }
}

} // verus!
