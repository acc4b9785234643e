//! The stochastic source.
//!
//! Sampling decisions (pixel jitter, scatter directions, the dielectric's
//! reflect-or-refract draw) consume values from an explicit deterministic
//! generator, so a render driven by a fixed seed is reproducible and every
//! consumer is verified for every value the generator can produce.  Fresh
//! entropy for a seed comes from the `rand` crate through one trusted
//! wrapper.

use vstd::prelude::*;

use crate::fixed::FX_ONE;

verus! {

/// The xorshift multiplier finishing each draw.
pub const MIX_MUL: u64 = 2685821657736338717;

/// The state-update step of the generator (an xorshift of three rounds).
pub open spec fn next_state_s(s: u64) -> u64 {
    let a = s ^ (s >> 12u64);
    let b = a ^ (a << 25u64);
    b ^ (b >> 27u64)
}

/// The value a draw hands out, given the state after the update.
pub open spec fn mix_s(s: u64) -> u64 {
    s.wrapping_mul(MIX_MUL)
}

/// The low 32 bits of a draw, reinterpreted as a fixed-point value in
/// [0, 1).
pub open spec fn unit_from_s(w: u64) -> int {
    (w & 0xFFFF_FFFFu64) as int
}

/// A small deterministic pseudo-random generator.
#[derive(Clone, Copy, PartialEq, Eq, Structural, Debug)]
pub struct Prng {
    pub state: u64,
}

impl Prng {
    /// Start from a seed; a zero seed is replaced so the state never
    /// becomes the generator's fixed point.
    pub fn new(seed: u64) -> (r: Prng)
        ensures
            r.state == (if seed == 0 {
                0x9E3779B97F4A7C15u64
            } else {
                seed
            }),
    {
        if seed == 0 {
            Prng { state: 0x9E3779B97F4A7C15 }
        } else {
            Prng { state: seed }
        }
    }

    /// Seed from the process's entropy source.
    pub fn from_entropy() -> (r: Prng)
        ensures
            r.state != 0,
    {
        let seed = entropy_seed();
        Self::new(seed)
    }

    /// One draw: update the state, hand out the mixed value.
    pub fn next_u64(&mut self) -> (r: u64)
        ensures
            final(self).state == next_state_s(old(self).state),
            r == mix_s(final(self).state),
    {
        let mut s = self.state;
        s = s ^ (s >> 12);
        s = s ^ (s << 25);
        s = s ^ (s >> 27);
        self.state = s;
        s.wrapping_mul(MIX_MUL)
    }

    /// A fixed-point value in [0, 1).
    pub fn next_unit(&mut self) -> (r: i128)
        ensures
            final(self).state == next_state_s(old(self).state),
            r == unit_from_s(mix_s(final(self).state)),
            0 <= r < FX_ONE,
    {
        let w = self.next_u64();
        let low = w & 0xFFFF_FFFF;
        proof {
            assert(w & 0xFFFF_FFFFu64 < 0x1_0000_0000u64) by (bit_vector);
        }
        low as i128
    }

    /// A fixed-point value in [-1, 1): twice a unit draw, less one.
    pub fn next_symmetric(&mut self) -> (r: i128)
        ensures
            final(self).state == next_state_s(old(self).state),
            r == 2 * unit_from_s(mix_s(final(self).state)) - FX_ONE,
            -FX_ONE <= r < FX_ONE,
    {
        let u = self.next_unit();
        2 * u - FX_ONE
    }
}

/// Relies on rand::random: one machine-entropy draw, used only to seed the
/// deterministic generator.
#[verifier::external_body]
fn entropy_seed() -> u64 {
    rand::random::<u64>()
}

} // verus!
