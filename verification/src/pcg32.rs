//! A PCG random number generator (XSH RR 64/32 (LCG) variant), the
//! combination officially known as `pcg32`.
//!
//! The generator is a 64-bit linear congruential generator with an explicitly
//! chosen stream; the 32-bit output is produced by the PCG-XSH-RR output
//! function ("xorshift high bits, then random rotation"). The advance and the
//! output are deliberately separate operations: `step` moves the state, while
//! `next_u32` reads the current state without moving it, so a caller that
//! hands the generator on can make the next reader observe a fresh draw by
//! stepping exactly once in between.

use vstd::prelude::*;

verus! {

/// The default multiplier used by PCG for 64-bit state.
pub const MULTIPLIER: u64 = 6364136223846793005;

/// The generator state: a 64-bit LCG state together with the stream
/// increment, which is always odd.
#[derive(Clone, PartialEq, Eq)]
pub struct Lcg64Xsh32 {
    state: u64,
    increment: u64,
}

/// [`Lcg64Xsh32`] is also officially known as `pcg32`.
pub type Pcg32 = Lcg64Xsh32;

impl View for Lcg64Xsh32 {
    type V = (u64, u64);

    /// The mathematical model of a generator: the pair `(state, increment)`.
    closed spec fn view(&self) -> (u64, u64) {
        (self.state, self.increment)
    }
}

/// One LCG advance: `state * MULTIPLIER + increment`, wrapping at 2^64.
/// The increment never changes.
pub open spec fn pcg_step_spec(p: (u64, u64)) -> (u64, u64) {
    (p.0.wrapping_mul(MULTIPLIER).wrapping_add(p.1), p.1)
}

/// The state a freshly seeded generator holds: the increment is the stream
/// with its top bit discarded and the low bit forced odd; the seed is moved
/// away from its initial value by adding the increment and stepping once.
pub open spec fn pcg_init_spec(seed: u64, stream: u64) -> (u64, u64) {
    let increment = (stream << 1u64) | 1u64;
    pcg_step_spec((seed.wrapping_add(increment), increment))
}

/// A right rotation of a 32-bit word by `r % 32` places.
pub open spec fn rotr32(x: u32, r: u32) -> u32 {
    let k = r % 32;
    if k == 0 {
        x
    } else {
        (x >> k) | (x << ((32 - k) as u32))
    }
}

/// The XSH-RR output function for 64-bit state and 32-bit output: the top
/// five state bits select a rotation that is applied to a xorshifted high
/// word. The state itself is left untouched.
pub open spec fn pcg_output_spec(state: u64) -> u32 {
    let rot = (state >> 59u64) as u32;
    let xsh = (((state >> 18u64) ^ state) >> 27u64) as u32;
    rotr32(xsh, rot)
}

impl Lcg64Xsh32 {
    /// Construct an instance compatible with PCG seed and stream.
    ///
    /// Note that the highest bit of the `stream` parameter is discarded
    /// to simplify upholding internal invariants.
    ///
    /// Note that two generators with different stream parameters may be
    /// closely correlated.
    pub fn new(state: u64, stream: u64) -> (r: Self)
        ensures
            r@ == pcg_init_spec(state, stream),
    {
        // The increment must be odd, hence we discard one bit:
        let increment = (stream << 1u64) | 1;
        Lcg64Xsh32::from_state_incr(state, increment)
    }

    fn from_state_incr(state: u64, increment: u64) -> (r: Self)
        ensures
            r@ == pcg_step_spec((state.wrapping_add(increment), increment)),
    {
        let mut pcg = Lcg64Xsh32 { state, increment };
        // Move away from initial value:
        pcg.state = pcg.state.wrapping_add(pcg.increment);
        pcg.step();
        pcg
    }

    /// Advance the LCG one round, preparing it for the next output.
    pub fn step(&mut self)
        ensures
            final(self)@ == pcg_step_spec(old(self)@),
    {
        self.state = self
            .state
            .wrapping_mul(MULTIPLIER)
            .wrapping_add(self.increment);
    }

    /// Apply the output function to the PRNG state without advancing it:
    /// two reads with no `step` in between return the same value.
    pub fn next_u32(&mut self) -> (r: u32)
        ensures
            *final(self) == *old(self),
            r == pcg_output_spec(old(self)@.0),
    {
        let state = self.state;

        // Output function XSH RR: xorshift high (bits), followed by a random
        // rotate. The shift amounts are fixed by the 64-bit state and 32-bit
        // output widths: the top 64 - 5 bits select the rotation, the
        // xorshift distance is (5 + 32) / 2, and 64 - 32 - 5 spare bits are
        // dropped.
        let rot = (state >> 59u64) as u32;
        let xsh = (((state >> 18u64) ^ state) >> 27u64) as u32;

        // Right rotation of `xsh` by `rot % 32` places.
        let k = rot % 32;
        if k == 0 {
            xsh
        } else {
            (xsh >> k) | (xsh << (32 - k))
        }
    }
}

} // verus!
