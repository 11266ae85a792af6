//! The verdict on a landing, by impact speed.

use vstd::prelude::*;
use crate::fixed::{Fixed, SCALE};

verus! {

/// Speeds below this are a perfect landing: 1.2.
pub const PERFECT_BELOW: i128 = 1_200_000_000_000_000;

/// Speeds up to this are a good landing: 10.
pub const GOOD_UP_TO: i128 = 10_000_000_000_000_000;

/// Speeds up to this leave the crew alive and the craft damaged: 60.
pub const SURVIVABLE_UP_TO: i128 = 60_000_000_000_000_000;

/// Crater depth per unit of impact speed: 0.227.
pub const CRATER_PER_SPEED: i128 = 227_000_000_000_000;

/// How a landing ended.
#[derive(Clone, Copy, Debug, PartialEq, Eq, Structural)]
pub enum OutcomeCategory {
    /// The landing could not have been softer.
    Perfect,
    /// The landing did no harm.
    Good,
    /// The crew survives; the craft will not fly again.
    Stranded,
    /// Nothing survives; the impact leaves a crater of the given depth.
    Crater { depth: Fixed },
}

/// The model of an [`OutcomeCategory`].
pub enum Verdict {
    Perfect,
    Good,
    Stranded,
    Crater { depth: int },
}

impl View for OutcomeCategory {
    type V = Verdict;

    open spec fn view(&self) -> Verdict {
        match *self {
            OutcomeCategory::Perfect => Verdict::Perfect,
            OutcomeCategory::Good => Verdict::Good,
            OutcomeCategory::Stranded => Verdict::Stranded,
            OutcomeCategory::Crater { depth } => Verdict::Crater { depth: depth@ },
        }
    }
}

/// The verdict on an impact at `speed`. The crater depth is `speed` times
/// [`CRATER_PER_SPEED`], rounded down to the last digit.
pub open spec fn verdict(speed: int) -> Verdict {
    if speed < PERFECT_BELOW {
        Verdict::Perfect
    } else if speed <= GOOD_UP_TO {
        Verdict::Good
    } else if speed <= SURVIVABLE_UP_TO {
        Verdict::Stranded
    } else {
        Verdict::Crater { depth: speed * CRATER_PER_SPEED / (SCALE as int) }
    }
}

/// Passes the verdict on a landing at `impact_speed`.
pub fn classify(impact_speed: Fixed) -> (category: OutcomeCategory)
    ensures
        category@ == verdict(impact_speed@),
{
    if impact_speed.raw < PERFECT_BELOW {
        OutcomeCategory::Perfect
    } else if impact_speed.raw <= GOOD_UP_TO {
        OutcomeCategory::Good
    } else if impact_speed.raw <= SURVIVABLE_UP_TO {
        OutcomeCategory::Stranded
    } else {
        // more than sixty times 0.227 and less than the speed itself
        let whole: i128 = impact_speed.raw / SCALE;
        let rest: i128 = impact_speed.raw - whole * SCALE;
        let depth: i128 = whole * CRATER_PER_SPEED + rest * CRATER_PER_SPEED / SCALE;
        OutcomeCategory::Crater { depth: Fixed { raw: depth } }
    }
}

} // verus!
