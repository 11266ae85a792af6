//! One command period: a burn rate is held for ten seconds, and the period is
//! worked off in steps until it is used up or the craft is on the surface.
//!
//! A session awaits a command, steps through the period, and then either
//! awaits the next command ([`PeriodOutcome::Continuing`]) or has ended: the
//! craft has landed under control ([`PeriodOutcome::Landed`]) or has run out
//! of fuel and fallen ([`PeriodOutcome::OutOfFuel`]). [`next_move`] decides
//! what the next step is, by an ordered list of guards; [`run_period`]
//! carries the steps out.

use vstd::prelude::*;
use crate::fixed::{Fixed, difference, lift, product};
use crate::lander::{Craft, Fault, Kinematics, Lander, Motion, REFINEMENT_LIMIT};

verus! {

/// The length of a command period: 10.
pub const PERIOD: i128 = 10_000_000_000_000_000;

/// A command period with no more than this left is over: 0.001.
pub const PERIOD_SLACK: i128 = 1_000_000_000_000;

/// Impact speed per unit of velocity: 3600.
pub const SPEED_PER_VELOCITY: i128 = 3_600_000_000_000_000_000;

/// The largest burn rate that the engine delivers: 200.
pub const MAX_BURN_RATE: i128 = 200_000_000_000_000_000;

/// The next step inside a command period.
#[derive(Clone, Copy, Debug, PartialEq, Eq, Structural)]
pub enum Move {
    /// The fuel is gone: the craft falls to the surface.
    FreeFall,
    /// The period is used up: the next command is due.
    EndPeriod,
    /// A burn of length `estimate` would end at or below the surface: the
    /// moment of impact is to be refined from that estimate.
    Touchdown { estimate: Fixed, corrected: bool },
    /// A burn of length `burn_time` takes the craft to `next`, above the
    /// surface.
    Advance { burn_time: Fixed, next: Kinematics, corrected: bool },
}

/// The model of a [`Move`].
pub enum Course {
    FreeFall,
    EndPeriod,
    Touchdown { estimate: int, corrected: bool },
    Advance { burn_time: int, next: Motion, corrected: bool },
}

impl Course {
    /// Whether the burn time of this step comes from the correction for a
    /// reversal of the velocity.
    pub open spec fn corrected(self) -> bool {
        match self {
            Course::Touchdown { corrected, .. } => corrected,
            Course::Advance { corrected, .. } => corrected,
            _ => false,
        }
    }
}

impl View for Move {
    type V = Course;

    open spec fn view(&self) -> Course {
        match *self {
            Move::FreeFall => Course::FreeFall,
            Move::EndPeriod => Course::EndPeriod,
            Move::Touchdown { estimate, corrected } => Course::Touchdown {
                estimate: estimate@,
                corrected,
            },
            Move::Advance { burn_time, next, corrected } => Course::Advance {
                burn_time: burn_time@,
                next: next@,
                corrected,
            },
        }
    }
}

/// The model of an optional [`Move`].
pub open spec fn lift_move(o: Option<Move>) -> Option<Course> {
    match o {
        Some(m) => Some(m@),
        None => None,
    }
}

/// How a command period ended.
#[derive(Clone, Copy, Debug, PartialEq, Eq, Structural)]
pub enum PeriodOutcome {
    /// The craft is still above the surface and has fuel or time left.
    Continuing,
    /// The craft reached the surface under its own control.
    Landed { impact_speed: Fixed, elapsed_time: Fixed },
    /// The fuel ran out at `fuel_out_at` and the craft fell to the surface.
    OutOfFuel { fuel_out_at: Fixed, impact_speed: Fixed, elapsed_time: Fixed },
}

/// The model of a [`PeriodOutcome`].
pub enum Ending {
    Continuing,
    Landed { impact_speed: int, elapsed_time: int },
    OutOfFuel { fuel_out_at: int, impact_speed: int, elapsed_time: int },
}

impl View for PeriodOutcome {
    type V = Ending;

    open spec fn view(&self) -> Ending {
        match *self {
            PeriodOutcome::Continuing => Ending::Continuing,
            PeriodOutcome::Landed { impact_speed, elapsed_time } => Ending::Landed {
                impact_speed: impact_speed@,
                elapsed_time: elapsed_time@,
            },
            PeriodOutcome::OutOfFuel { fuel_out_at, impact_speed, elapsed_time } => Ending::OutOfFuel {
                fuel_out_at: fuel_out_at@,
                impact_speed: impact_speed@,
                elapsed_time: elapsed_time@,
            },
        }
    }
}

/// The motion that a burn at `rate` leads to when it lasts for what is
/// `left` of the period, or for as long as the fuel allows.
pub open spec fn candidate(craft: Craft, rate: int, left: int) -> Option<Motion> {
    match craft.burn_time(rate, left) {
        Some(time) => craft.dynamics(rate, time),
        None => None,
    }
}

/// Whether the burn turns a positive velocity into a negative one.
pub open spec fn reverses(craft: Craft, rate: int, left: int) -> bool {
    &&& craft.phys.velocity > 0
    &&& candidate(craft, rate, left) matches Some(next)
    &&& next.velocity < 0
}

/// The next step of a craft under a burn at `rate` with `left` of the
/// period to go. The guards, in order:
/// 1. out of fuel: free fall;
/// 2. no more than [`PERIOD_SLACK`] left: the period ends;
/// 3. the candidate motion is at or below the surface: touchdown;
/// 4. the burn reverses the velocity: the burn time becomes the time at
///    which the burn has brought the velocity to zero, with its margin, the
///    burn is integrated again, and the corrected motion decides between
///    touchdown and advance; the corrected time is not cut to what is left
///    of the period, so the step may overrun it;
/// 5. otherwise: advance to the candidate.
pub open spec fn course(craft: Craft, rate: int, left: int) -> Option<Course> {
    if craft.out_of_fuel() {
        Some(Course::FreeFall)
    } else if left <= PERIOD_SLACK {
        Some(Course::EndPeriod)
    } else {
        match (craft.burn_time(rate, left), candidate(craft, rate, left)) {
            (Some(time), Some(next)) => if next.altitude <= 0 {
                Some(Course::Touchdown { estimate: time, corrected: false })
            } else if reverses(craft, rate, left) {
                match craft.upward_burn_time(rate) {
                    Some(time) => match craft.dynamics(rate, time) {
                        Some(next) => if next.altitude <= 0 {
                            Some(Course::Touchdown { estimate: time, corrected: true })
                        } else {
                            Some(Course::Advance { burn_time: time, next, corrected: true })
                        },
                        None => None,
                    },
                    None => None,
                }
            } else {
                Some(Course::Advance { burn_time: time, next, corrected: false })
            },
            _ => None,
        }
    }
}

/// The speed at which a craft that has reached the surface hits it.
pub open spec fn speed_on_impact(craft: Craft) -> Option<int> {
    product(Some(craft.phys.velocity), Some(SPEED_PER_VELOCITY as int))
}

/// The end of a descent under control: impact refinement from `estimate`,
/// then the report.
pub open spec fn landed(craft: Craft, rate: int, estimate: int) -> Result<(Craft, Ending), Fault> {
    match craft.refined(rate, estimate, REFINEMENT_LIMIT as nat) {
        Ok(down) => match speed_on_impact(down) {
            Some(speed) => Ok(
                (down, Ending::Landed { impact_speed: speed, elapsed_time: down.phys.elapsed_time }),
            ),
            None => Err(Fault::Unrepresentable),
        },
        Err(fault) => Err(fault),
    }
}

/// The end of a descent without fuel: free fall, then the report.
pub open spec fn crashed(craft: Craft) -> Result<(Craft, Ending), Fault> {
    match craft.fallen() {
        Some(down) => match speed_on_impact(down) {
            Some(speed) => Ok(
                (
                    down,
                    Ending::OutOfFuel {
                        fuel_out_at: craft.phys.elapsed_time,
                        impact_speed: speed,
                        elapsed_time: down.phys.elapsed_time,
                    },
                ),
            ),
            None => Err(Fault::Unrepresentable),
        },
        None => Err(Fault::Unrepresentable),
    }
}

/// What is left of a period, as a measure: never negative.
pub open spec fn span(left: int) -> int {
    if left < 0 {
        0
    } else {
        left
    }
}

/// The craft and the ending after the steps of [`course`] have been carried
/// out, one after the other, with `left` of the period to go. A step that
/// would advance by no time, or back in time, is a fault.
pub open spec fn run(craft: Craft, rate: int, left: int) -> Result<(Craft, Ending), Fault>
    decreases span(left),
{
    match course(craft, rate, left) {
        Some(Course::FreeFall) => crashed(craft),
        Some(Course::EndPeriod) => Ok((craft, Ending::Continuing)),
        Some(Course::Touchdown { estimate, .. }) => landed(craft, rate, estimate),
        Some(Course::Advance { burn_time, next, .. }) => if burn_time <= 0 {
            Err(Fault::Unrepresentable)
        } else {
            match (craft.advanced(rate, burn_time, next), difference(Some(left), Some(burn_time))) {
                (Some(onward), Some(rest)) => run(onward, rate, rest),
                _ => Err(Fault::Unrepresentable),
            }
        },
        None => Err(Fault::Unrepresentable),
    }
}

/// Whether `burn_rate` is a command that the engine can follow: between
/// zero and [`MAX_BURN_RATE`].
pub fn burn_rate_allowed(burn_rate: Fixed) -> (allowed: bool)
    ensures
        allowed == (0 <= burn_rate@ <= MAX_BURN_RATE),
{
    0 <= burn_rate.raw && burn_rate.raw <= MAX_BURN_RATE
}

/// Decides the next step inside a command period.
pub fn next_move(lem: &Lander, burn_rate: Fixed, this_period: Fixed) -> (m: Option<Move>)
    ensures
        lift_move(m) == course(lem@, burn_rate@, this_period@),
        m matches Some(step) ==> (step@.corrected() ==> reverses(lem@, burn_rate@, this_period@)),
        m matches Some(Move::Advance { burn_time, next, corrected }) ==> (corrected ==> Some(
            burn_time@,
        ) == lem@.upward_burn_time(burn_rate@) && Some(next@) == lem@.dynamics(
            burn_rate@,
            burn_time@,
        )),
{
    if lem.out_of_fuel() {
        return Some(Move::FreeFall);
    }
    if this_period.raw <= PERIOD_SLACK {
        return Some(Move::EndPeriod);
    }
    let burn_time = lem.calc_burn_time(burn_rate, this_period)?;
    let new_phys = lem.calc_dynamics(burn_rate, burn_time)?;
    if new_phys.altitude.raw <= 0 {
        return Some(Move::Touchdown { estimate: burn_time, corrected: false });
    }
    if lem.phys().velocity.raw > 0 && new_phys.velocity.raw < 0 {
        let burn_time = lem.calc_upward_burn_time(burn_rate)?;
        let new_phys = lem.calc_dynamics(burn_rate, burn_time)?;
        if new_phys.altitude.raw <= 0 {
            return Some(Move::Touchdown { estimate: burn_time, corrected: true });
        }
        return Some(Move::Advance { burn_time, next: new_phys, corrected: true });
    }
    Some(Move::Advance { burn_time, next: new_phys, corrected: false })
}

/// The speed at which `lem`, having reached the surface, hits it.
pub fn impact_speed(lem: &Lander) -> (speed: Option<Fixed>)
    ensures
        lift(speed) == speed_on_impact(lem@),
{
    lem.phys().velocity.times(Fixed { raw: SPEED_PER_VELOCITY })
}

/// Brings the craft down under a burn at `burn_rate`: the moment of impact
/// is refined from the estimate `burn_time`. On an error the craft is left
/// as it was.
pub fn landing(lem: &mut Lander, burn_rate: Fixed, burn_time: Fixed) -> (r: Result<
    PeriodOutcome,
    Fault,
>)
    ensures
        match landed(old(lem)@, burn_rate@, burn_time@) {
            Ok((craft, ending)) => r matches Ok(outcome) && outcome@ == ending && final(lem)@
                == craft,
            Err(fault) => r == Err::<PeriodOutcome, Fault>(fault) && *final(lem) == *old(lem),
        },
        final(lem)@.wf(),
        final(lem)@.phys.elapsed_time >= old(lem)@.phys.elapsed_time,
{
    let start = lem.snapshot();
    match lem.calc_impact(burn_rate, burn_time) {
        Ok(()) => match impact_speed(lem) {
            Some(impact_speed) => Ok(
                PeriodOutcome::Landed { impact_speed, elapsed_time: lem.phys().elapsed_time },
            ),
            None => {
                *lem = start;
                Err(Fault::Unrepresentable)
            },
        },
        Err(fault) => Err(fault),
    }
}

/// Brings a craft without fuel down in free fall. On an error the craft is
/// left as it was.
pub fn out_of_fuel(lem: &mut Lander) -> (r: Result<PeriodOutcome, Fault>)
    ensures
        match crashed(old(lem)@) {
            Ok((craft, ending)) => r matches Ok(outcome) && outcome@ == ending && final(lem)@
                == craft,
            Err(fault) => r == Err::<PeriodOutcome, Fault>(fault) && *final(lem) == *old(lem),
        },
        final(lem)@.wf(),
        final(lem)@.phys.elapsed_time >= old(lem)@.phys.elapsed_time,
{
    let start = lem.snapshot();
    let fuel_out_at = lem.phys().elapsed_time;
    if !lem.free_fall() {
        return Err(Fault::Unrepresentable);
    }
    match impact_speed(lem) {
        Some(impact_speed) => Ok(
            PeriodOutcome::OutOfFuel {
                fuel_out_at,
                impact_speed,
                elapsed_time: lem.phys().elapsed_time,
            },
        ),
        None => {
            *lem = start;
            Err(Fault::Unrepresentable)
        },
    }
}

/// Holds `burn_rate` for one command period, or until the craft is on the
/// surface. On an error the craft is left as it was.
pub fn run_period(lem: &mut Lander, burn_rate: Fixed) -> (r: Result<PeriodOutcome, Fault>)
    ensures
        match run(old(lem)@, burn_rate@, PERIOD as int) {
            Ok((craft, ending)) => r matches Ok(outcome) && outcome@ == ending && final(lem)@
                == craft,
            Err(fault) => r == Err::<PeriodOutcome, Fault>(fault) && *final(lem) == *old(lem),
        },
        final(lem)@.wf(),
        final(lem)@.phys.elapsed_time >= old(lem)@.phys.elapsed_time,
{
    proof {
        crate::laws::lemma_clock_never_runs_back_in_a_period(lem@, burn_rate@, PERIOD as int);
    }
    let start = lem.snapshot();
    let mut this_period = Fixed { raw: PERIOD };
    loop
        invariant
            start == *old(lem),
            start@.wf(),
            lem@.wf(),
            run(start@, burn_rate@, PERIOD as int) == run(lem@, burn_rate@, this_period@),
            run(start@, burn_rate@, PERIOD as int) matches Ok((after, ending))
                ==> after.phys.elapsed_time >= start@.phys.elapsed_time,
        decreases span(this_period@),
    {
        let step = match next_move(lem, burn_rate, this_period) {
            Some(step) => step,
            None => {
                *lem = start;
                return Err(Fault::Unrepresentable);
            },
        };
        match step {
            Move::FreeFall => {
                let ended = out_of_fuel(lem);
                if ended.is_err() {
                    *lem = start;
                }
                return ended;
            },
            Move::EndPeriod => {
                return Ok(PeriodOutcome::Continuing);
            },
            Move::Touchdown { estimate, .. } => {
                let ended = landing(lem, burn_rate, estimate);
                if ended.is_err() {
                    *lem = start;
                }
                return ended;
            },
            Move::Advance { burn_time, next, .. } => {
                if burn_time.raw <= 0 {
                    *lem = start;
                    return Err(Fault::Unrepresentable);
                }
                match lem.update_status(burn_rate, burn_time, &next, this_period) {
                    Some(rest) => {
                        this_period = rest;
                    },
                    None => {
                        *lem = start;
                        return Err(Fault::Unrepresentable);
                    },
                }
            },
        }
    }
}

} // verus!
