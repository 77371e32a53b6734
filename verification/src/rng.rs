//! A small deterministic pseudo-random number generator (PCG-XSH-RR 64/32).
//!
//! The engine only needs a source of uniform randoms; keeping the generator
//! an explicit, fully specified value (rather than a hidden global) is what
//! makes simulation runs reproducible: every draw is a function of the
//! generator's state alone, so two runs from the same seed coincide.

use vstd::prelude::*;

verus! {

/// The LCG multiplier of the PCG-XSH-RR 64/32 generator.
pub const PCG_MULTIPLIER: u64 = 6364136223846793005;

/// Deterministic pseudo-random number generator state.
///
/// The fields are plain integers, so the exact value of every future draw
/// is determined by (and provable from) the current state.
#[derive(Clone, Copy, Debug, PartialEq, Eq, Structural)]
pub struct Prng {
    pub state: u64,
    pub increment: u64,
}

/// One step of the underlying linear congruential generator.
pub open spec fn pcg_step_state(state: u64, increment: u64) -> u64 {
    vstd::wrapping::u64_specs::wrapping_add(
        vstd::wrapping::u64_specs::wrapping_mul(state, PCG_MULTIPLIER),
        increment,
    )
}

/// Right rotation of a 32-bit value; `rot` is taken modulo 32.
pub open spec fn rotate_right_u32(x: u32, rot: u32) -> u32 {
    let r = rot & 31;
    if r == 0 {
        x
    } else {
        (x >> r) | (x << ((32 - r) as u32))
    }
}

/// The XSH-RR output permutation applied to a generator state.
pub open spec fn pcg_output(state: u64) -> u32 {
    let xorshifted = (((state >> 18) ^ state) >> 27) as u32;
    let rot = (state >> 59) as u32;
    rotate_right_u32(xorshifted, rot)
}

/// The generator value produced by seeding with `(seed, stream)`.
pub open spec fn prng_seeded(seed: u64, stream: u64) -> Prng {
    let increment = (stream << 1) | 1;
    let state0 = vstd::wrapping::u64_specs::wrapping_add(seed, increment);
    Prng { state: pcg_step_state(state0, increment), increment }
}

impl Prng {
    /// The generator after one draw.
    pub open spec fn spec_step(self) -> Prng {
        Prng { state: pcg_step_state(self.state, self.increment), increment: self.increment }
    }

    /// The 32-bit value of the next draw.
    pub open spec fn spec_peek_u32(self) -> u32 {
        pcg_output(self.state)
    }

    /// The generator after `n` draws.
    pub open spec fn spec_step_n(self, n: nat) -> Prng
        decreases n,
    {
        if n == 0 {
            self
        } else {
            self.spec_step().spec_step_n((n - 1) as nat)
        }
    }

    /// The 64-bit value of the next two draws taken together
    /// (low word first, as `rand_core` composes 32-bit generators).
    pub open spec fn spec_peek_u64(self) -> u64 {
        (self.spec_peek_u32() as u64) | ((self.spec_step().spec_peek_u32() as u64) << 32)
    }

    /// The result of the next bounded draw: two 32-bit draws reduced
    /// modulo `n`.
    pub open spec fn spec_peek_below(self, n: u64) -> u64 {
        self.spec_peek_u64() % n
    }

    /// Seeds a generator from a seed and a stream selector, exactly as the
    /// PCG reference construction does.
    pub fn new(seed: u64, stream: u64) -> (r: Prng)
        ensures
            r == prng_seeded(seed, stream),
    {
        let increment: u64 = (stream << 1) | 1;
        let state0: u64 = seed.wrapping_add(increment);
        let state: u64 = state0.wrapping_mul(PCG_MULTIPLIER).wrapping_add(increment);
        Prng { state, increment }
    }

    /// Draws the next 32-bit value and advances the state.
    pub fn next_u32(&mut self) -> (r: u32)
        ensures
            r == old(self).spec_peek_u32(),
            *final(self) == old(self).spec_step(),
    {
        let state = self.state;
        self.state = state.wrapping_mul(PCG_MULTIPLIER).wrapping_add(self.increment);
        let xorshifted: u32 = #[verifier::truncate] ((((state >> 18u64) ^ state) >> 27u64) as u32);
        let rot: u32 = #[verifier::truncate] ((state >> 59u64) as u32);
        let r: u32 = rot & 31;
        assert(r <= 31) by (bit_vector)
            requires r == rot & 31;
        if r == 0 {
            xorshifted
        } else {
            (xorshifted >> r) | (xorshifted << (32 - r))
        }
    }

    /// Draws the next 64-bit value (two 32-bit draws, low word first).
    pub fn next_u64(&mut self) -> (r: u64)
        ensures
            r == old(self).spec_peek_u64(),
            *final(self) == old(self).spec_step_n(2),
    {
        proof {
            reveal_with_fuel(Prng::spec_step_n, 3);
        }
        let lo = self.next_u32();
        let hi = self.next_u32();
        (lo as u64) | ((hi as u64) << 32)
    }

    /// Draws a value uniformly-distributed enough for trail noise in
    /// `[0, n)`: a 64-bit draw reduced modulo `n`.
    pub fn below(&mut self, n: u64) -> (r: u64)
        requires
            n >= 1,
        ensures
            r == old(self).spec_peek_below(n),
            r < n,
            *final(self) == old(self).spec_step_n(2),
    {
        let v = self.next_u64();
        v % n
    }
}

} // verus!
