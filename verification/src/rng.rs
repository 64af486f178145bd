//! Deterministic uniform source.
//!
//! The tracer only needs a collaborator that hands out uniform scalars in
//! `[0, 1]`; no statistical strength is demanded of it. A seeded linear
//! congruential generator fills that role with a state transition that is
//! itself verified, so every draw is pinned down by the seed. Callers that
//! want fresh images seed it from whatever entropy they have.

use vstd::prelude::*;
use crate::fixed::Fx;
use crate::fixed::fx;
use crate::fixed::fxadd;
use crate::fixed::fxsub;
use crate::fixed::fxmul;
use crate::fixed::lemma_fxmul_unit;
use crate::fixed::FX_MAX;
use crate::fixed::SCALE;

verus! {

/// Multiplier of the linear congruential step.
pub const LCG_MUL: u64 = 6364136223846793005;

/// Increment of the linear congruential step.
pub const LCG_INC: u64 = 1442695040888963407;

/// One step of the generator state.
#[verifier::opaque]
pub open spec fn lcg_next(s: u64) -> u64 {
    (((s as nat) * (LCG_MUL as nat) + (LCG_INC as nat)) % 0x1_0000_0000_0000_0000) as u64
}

/// The unit-interval scalar produced from the state reached after `s`.
#[verifier::opaque]
pub open spec fn unit_of(s: u64) -> Fx {
    fx(((lcg_next(s) >> 33) % 1_000_001) as int)
}

/// The scalar drawn in `[min, max]` from the state reached after `s`.
pub open spec fn unit_in_of(s: u64, min: Fx, max: Fx) -> Fx {
    fxadd(min, fxmul(fxsub(max, min), unit_of(s)))
}

/// Three consecutive state transitions.
pub open spec fn lcg3(s: u64) -> u64 {
    lcg_next(lcg_next(lcg_next(s)))
}

/// A seeded uniform source of scalars in `[0, 1]`.
pub struct Rand {
    pub state: u64,
}

impl Rand {
    pub fn new(seed: u64) -> (r: Rand)
        ensures
            r.state == seed,
    {
        Rand { state: seed }
    }

    /// Uniform scalar in `[0, 1]`.
    pub fn next_unit(&mut self) -> (f: Fx)
        ensures
            final(self).state == lcg_next(old(self).state),
            f == unit_of(old(self).state),
            0 <= f.val() <= SCALE,
    {
        proof {
            reveal(lcg_next);
            reveal(unit_of);
            assert((self.state as nat) * (LCG_MUL as nat) + (LCG_INC as nat)
                < 0x1_0000_0000_0000_0000_0000_0000_0000_0000) by (nonlinear_arith)
                requires
                    self.state <= 0xffff_ffff_ffff_ffffu64,
            ;
        }
        let s2: u64 = (((self.state as u128) * (LCG_MUL as u128) + (LCG_INC as u128))
            % 0x1_0000_0000_0000_0000u128) as u64;
        self.state = s2;
        let units: u64 = (s2 >> 33) % 1_000_001;
        Fx::from_scaled(units as i64)
    }

    /// Uniform scalar computed as `min + (max - min) * unit`.
    pub fn next_in(&mut self, min: Fx, max: Fx) -> (f: Fx)
        ensures
            final(self).state == lcg_next(old(self).state),
            f == unit_in_of(old(self).state, min, max),
            (-FX_MAX <= min.val() && min.val() <= max.val() && max.val() <= FX_MAX)
                ==> min.val() <= f.val() <= max.val(),
    {
        let u = self.next_unit();
        let d = max.sub(min);
        proof {
            if -FX_MAX <= min.val() && min.val() <= max.val() && max.val() <= FX_MAX {
                lemma_fxmul_unit(d, u);
            }
        }
        min.add(d.mul(u))
    }
}

} // verus!
