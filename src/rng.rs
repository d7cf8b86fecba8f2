//! The per-instance deterministic random stream.
use vstd::prelude::*;
use crate::fixed::SCALE;

verus! {

pub const LCG_MUL: u64 = 6364136223846793005;

pub const LCG_INC: u64 = 1442695040888963407;

/// One step of the linear congruential generator.
pub open spec fn next_state(s: u64) -> u64 {
    ((s as int * LCG_MUL as int + LCG_INC as int) % 0x1_0000_0000_0000_0000int) as u64
}

/// The uniform draw in `[0, SCALE)` produced by the step out of state `s`.
pub open spec fn unit_of(s: u64) -> i64 {
    ((next_state(s) as int / 0x1_0000_0000int) % SCALE as int) as i64
}

/// A seeded pseudo-random stream; every draw advances it by one step.
#[derive(Clone, Copy, Debug, PartialEq, Eq, Structural)]
pub struct Rng {
    pub state: u64,
}

impl Rng {
    pub fn new(seed: u64) -> (r: Rng)
        ensures
            r.state == seed,
    {
        Rng { state: seed }
    }

    /// Draws a uniform fixed-point value in `[0, 1)`.
    pub fn next_unit(&mut self) -> (r: i64)
        ensures
            r == unit_of(old(self).state),
            0 <= r < SCALE,
            final(self).state == next_state(old(self).state),
    {
        let s = self.state as u128;
        assert(s * (LCG_MUL as u128) <= 0xffff_ffff_ffff_ffffu128 * 0xffff_ffff_ffff_ffffu128)
            by (nonlinear_arith)
            requires
                s <= 0xffff_ffff_ffff_ffffu128,
        ;
        let t: u128 = (s * (LCG_MUL as u128) + (LCG_INC as u128)) % 0x1_0000_0000_0000_0000u128;
        let n = t as u64;
        self.state = n;
        ((n / 0x1_0000_0000u64) % (SCALE as u64)) as i64
    }
}

} // verus!
