//! Source of random draws for sampling and scattering. A draw is a scalar in
//! `[0, 1)` (raw units `[0, SCALE)`). The `System` source takes its bits from
//! the `rand` crate; the `Fixed` source returns the same value on every draw,
//! which makes a whole render a deterministic function and is what tests use.

use vstd::prelude::*;
use crate::fixed::SCALE;

verus! {

/// Relies on rand::random: draws a machine word from the thread-local
/// generator; nothing is promised of the value.
#[verifier::external_body]
fn random_u64() -> u64 {
    rand::random::<u64>()
}

/// Where random draws come from.
pub enum Entropy {
    /// Fresh pseudo-random bits on every draw.
    System,
    /// Every draw returns this raw value (in `[0, SCALE)`).
    Fixed(i64),
}

impl Entropy {
    /// A fixed source is well formed when its constant is a valid draw.
    pub open spec fn wf(&self) -> bool {
        match *self {
            Entropy::Fixed(v) => 0 <= v < SCALE,
            Entropy::System => true,
        }
    }

    /// Whether this is a fixed source.
    pub open spec fn is_fixed(&self) -> bool {
        match *self {
            Entropy::Fixed(_) => true,
            Entropy::System => false,
        }
    }

    /// The constant a fixed source returns on every draw.
    pub open spec fn fixed_val(&self) -> int {
        match *self {
            Entropy::Fixed(v) => v as int,
            Entropy::System => 0,
        }
    }

    /// What a draw from this source may return.
    pub open spec fn yields(&self, r: int) -> bool {
        match *self {
            Entropy::Fixed(v) => r == v,
            Entropy::System => 0 <= r < SCALE,
        }
    }

    /// One draw: a scalar in `[0, 1)`, i.e. raw units in `[0, SCALE)`.
    pub fn next_unit(&self) -> (r: i64)
        requires
            self.wf(),
        ensures
            0 <= r < SCALE,
            self.yields(r as int),
    {
        match self {
            Entropy::System => {
                let raw = random_u64();
                (raw % (SCALE as u64)) as i64
            },
            Entropy::Fixed(v) => *v,
        }
    }
}

} // verus!
