//! The two-valued logic level shared by every signal.

use vstd::prelude::*;

verus! {

/// Logic level of a crank, cam or top-dead-center signal.
#[derive(Eq, PartialEq, Structural, Clone, Copy, Debug)]
pub enum Level {
    Low,
    High,
}

impl Level {
    /// The other level.
    pub open spec fn flipped(self) -> Level {
        match self {
            Level::Low => Level::High,
            Level::High => Level::Low,
        }
    }

    /// `self` after `n` toggles.
    pub open spec fn toggled(self, n: int) -> Level {
        if n % 2 == 0 {
            self
        } else {
            self.flipped()
        }
    }
}

impl core::ops::Not for Level {
    type Output = Level;

    fn not(self) -> (r: Level) {
        if self == Level::High {
            Level::Low
        } else {
            Level::High
        }
    }
}

impl vstd::std_specs::ops::NotSpecImpl for Level {
    open spec fn obeys_not_spec() -> bool {
        true
    }

    open spec fn not_req(self) -> bool {
        true
    }

    open spec fn not_spec(self) -> Level {
        self.flipped()
    }
}

/// Complementing twice gives the level back.
pub proof fn lemma_flipped_twice(l: Level)
    ensures
        l.flipped().flipped() == l,
        l.flipped() != l,
{
}

} // verus!
