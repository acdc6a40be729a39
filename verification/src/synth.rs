//! The seeded pseudo-random generator behind the synthetic swipes used to test
//! and tune the decoder. Everything is seeded, so accuracy numbers are
//! reproducible.

use vstd::prelude::*;

verus! {

/// The seed is mixed with this constant so that seed 0 does not start in the
/// all-zero state.
pub const SEED_MIX: u64 = 0x9E37_79B9_7F4A_7C15;

/// The output multiplier of xorshift64*.
pub const OUT_MUL: u64 = 0x2545_F491_4F6C_DD1D;

/// One xorshift64 step of the state.
pub open spec fn xorshift_step(x: u64) -> u64 {
    let x1 = x ^ (x >> 12u64);
    let x2 = x1 ^ ((x1 << 25u64) as u64);
    x2 ^ (x2 >> 27u64)
}

/// The output drawn from the stepped state: the state times `OUT_MUL`,
/// modulo 2^64.
pub open spec fn xorshift_output(stepped: u64) -> u64 {
    ((stepped as int * OUT_MUL as int) % 0x1_0000_0000_0000_0000) as u64
}

/// A small, fast, deterministic PRNG (xorshift64*). Not cryptographic.
#[derive(Debug, Clone)]
pub struct Rng {
    state: u64,
}

impl View for Rng {
    type V = u64;

    /// The generator's state word.
    closed spec fn view(&self) -> u64 {
        self.state
    }
}

impl Rng {
    pub fn new(seed: u64) -> (r: Self)
        ensures
            r@ == seed ^ SEED_MIX,
    {
        // Avoid the all-zero state.
        Rng { state: seed ^ 0x9E37_79B9_7F4A_7C15 }
    }

    /// The next 64 random bits.
    pub fn next_u64(&mut self) -> (r: u64)
        ensures
            final(self)@ == xorshift_step(old(self)@),
            r == xorshift_output(xorshift_step(old(self)@)),
    {
        let mut x = self.state;
        x ^= x >> 12;
        x ^= x << 25;
        x ^= x >> 27;
        self.state = x;
        x.wrapping_mul(0x2545_F491_4F6C_DD1D)
    }
}

/// Zero is the generator's only fixed point it can never leave: a nonzero
/// state steps to a nonzero state, so a stream seeded anywhere but at
/// `SEED_MIX` never collapses into the constant all-zero stream.
pub proof fn law_nonzero_state_stays_nonzero(x: u64)
    requires
        x != 0,
    ensures
        xorshift_step(x) != 0,
{
    let x1 = x ^ (x >> 12u64);
    let x2 = x1 ^ ((x1 << 25u64) as u64);
    let x3 = x2 ^ (x2 >> 27u64);
    assert(x1 != 0) by (bit_vector)
        requires
            x != 0,
            x1 == x ^ (x >> 12u64),
    ;
    assert(x2 != 0) by (bit_vector)
        requires
            x1 != 0,
            x2 == x1 ^ ((x1 << 25u64) as u64),
    ;
    assert(x3 != 0) by (bit_vector)
        requires
            x2 != 0,
            x3 == x2 ^ (x2 >> 27u64),
    ;
}

/// A nonzero state draws a nonzero output: the output multiplier is odd, so
/// multiplying by it modulo 2^64 sends no nonzero word to zero. With the
/// state law above, a stream seeded anywhere but at `SEED_MIX` never draws 0.
pub proof fn law_nonzero_state_draws_nonzero(x: u64)
    requires
        x != 0,
    ensures
        xorshift_output(xorshift_step(x)) != 0,
{
    law_nonzero_state_stays_nonzero(x);
    let s = xorshift_step(x);
    assert(((s as int * 0x2545_F491_4F6C_DD1Du64 as int) % 0x1_0000_0000_0000_0000) as u64 != 0)
        by (bit_vector)
        requires
            s != 0,
    ;
}

/// The all-zero state is absorbing: it steps to itself.
pub proof fn law_zero_state_is_absorbing()
    ensures
        xorshift_step(0) == 0,
        xorshift_output(0) == 0,
{
    assert(xorshift_step(0) == 0) by (bit_vector);
}

} // verus!
