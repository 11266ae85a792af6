//! Whole-number readings for display: instrument panel and landing report.
//!
//! A reading drops the fractional digits: it rounds towards zero. A reading
//! without a sign shows zero for a negative value.

use vstd::prelude::*;
use crate::fixed::{Fixed, SCALE};
use crate::lander::{Craft, Lander};
use crate::outcome::{OutcomeCategory, Verdict, classify, verdict};
use crate::stepper::{impact_speed, speed_on_impact};

verus! {

/// Feet in a mile.
pub const FEET_PER_MILE: i128 = 5280;

/// Miles per hour in a mile per second.
pub const MPH_PER_VELOCITY: i128 = 3600;

/// The whole part of `x` units of the last digit, rounded towards zero.
pub open spec fn whole_part(x: int) -> int {
    if x >= 0 {
        x / (SCALE as int)
    } else {
        -((-x) / (SCALE as int))
    }
}

/// What `x` units of the last digit hold beyond their whole part; it has
/// the sign of `x`.
pub open spec fn fraction_part(x: int) -> int {
    x - whole_part(x) * SCALE
}

/// `x`, or zero where `x` is negative.
pub open spec fn unsigned(x: int) -> int {
    if x < 0 {
        0
    } else {
        x
    }
}

/// The instrument panel at the start of a command period.
#[derive(Clone, Copy, Debug, PartialEq, Eq, Structural)]
pub struct Readout {
    /// Whole seconds on the mission clock.
    pub seconds: u128,
    /// Whole miles of altitude.
    pub miles: i128,
    /// Whole feet of altitude beyond the whole miles.
    pub feet: i128,
    /// Whole miles per hour of velocity.
    pub mph: i128,
    /// Whole pounds of fuel.
    pub fuel: i128,
}

impl Readout {
    /// Whether this is the panel of `craft`.
    pub open spec fn shows(self, craft: Craft) -> bool {
        &&& self.seconds == unsigned(whole_part(craft.phys.elapsed_time))
        &&& self.miles == whole_part(craft.phys.altitude)
        &&& self.feet == whole_part(FEET_PER_MILE * fraction_part(craft.phys.altitude))
        &&& self.mph == whole_part(MPH_PER_VELOCITY * craft.phys.velocity)
        &&& self.fuel == whole_part(craft.fuel)
    }
}

/// The landing report.
#[derive(Clone, Copy, Debug, PartialEq, Eq, Structural)]
pub struct LandingReport {
    /// Whole seconds on the mission clock.
    pub seconds: u128,
    /// Whole miles per hour of impact speed.
    pub mph: i128,
    /// The verdict on the landing.
    pub category: OutcomeCategory,
    /// Whole feet of crater depth; zero unless the verdict is a crater.
    pub crater_feet: u128,
}

impl LandingReport {
    /// Whether this is the report on a landing at `impact_speed` with
    /// `elapsed_time` on the clock.
    pub open spec fn reports(self, impact_speed: int, elapsed_time: int) -> bool {
        &&& self.seconds == unsigned(whole_part(elapsed_time))
        &&& self.mph == whole_part(impact_speed)
        &&& self.category@ == verdict(impact_speed)
        &&& self.crater_feet == match verdict(impact_speed) {
            Verdict::Crater { depth } => unsigned(whole_part(depth)),
            _ => 0,
        }
    }
}

/// The whole part of a number.
fn truncated(x: Fixed) -> (w: i128)
    ensures
        w == whole_part(x@),
{
    x.raw / SCALE
}

/// The whole part of a number, or zero for a negative number.
fn truncated_unsigned(x: Fixed) -> (w: u128)
    ensures
        w == unsigned(whole_part(x@)),
{
    if x.raw < 0 {
        0
    } else {
        (x.raw / SCALE) as u128
    }
}

/// Reads the instrument panel.
pub fn status(lem: &Lander) -> (panel: Readout)
    ensures
        panel.shows(lem@),
{
    let phys = lem.phys();
    let altitude: i128 = phys.altitude.raw;
    let miles: i128 = altitude / SCALE;
    let beyond: i128 = altitude - miles * SCALE;
    let feet: i128 = (beyond * FEET_PER_MILE) / SCALE;
    let velocity: i128 = phys.velocity.raw;
    // 3600 v / S, taken apart so that nothing leaves the range
    let whole: i128 = velocity / SCALE;
    let rest: i128 = velocity - whole * SCALE;
    let mph: i128 = whole * MPH_PER_VELOCITY + (rest * MPH_PER_VELOCITY) / SCALE;
    Readout {
        seconds: truncated_unsigned(phys.elapsed_time),
        miles,
        feet,
        mph,
        fuel: truncated(lem.fuel()),
    }
}

/// Draws up the landing report.
pub fn landing_report(impact_speed: Fixed, elapsed_time: Fixed) -> (report: LandingReport)
    ensures
        report.reports(impact_speed@, elapsed_time@),
{
    let category = classify(impact_speed);
    let crater_feet: u128 = match category {
        OutcomeCategory::Crater { depth } => truncated_unsigned(depth),
        _ => 0,
    };
    LandingReport {
        seconds: truncated_unsigned(elapsed_time),
        mph: truncated(impact_speed),
        category,
        crater_feet,
    }
}

/// Draws up the landing report of a craft that has reached the surface;
/// nothing where its impact speed cannot be represented.
pub fn end_game(lem: &Lander) -> (report: Option<LandingReport>)
    ensures
        match speed_on_impact(lem@) {
            Some(speed) => report matches Some(found) && found.reports(
                speed,
                lem@.phys.elapsed_time,
            ),
            None => report is None,
        },
{
    let speed = impact_speed(lem)?;
    Some(landing_report(speed, lem.phys().elapsed_time))
}

} // verus!
