//! A session: one craft from its first command to the surface.
//!
//! A session awaits a command for as long as the craft is in flight. Once
//! the craft is down, under control or out of fuel, the verdict on the
//! landing is passed, once, and the session is over: it takes no more
//! commands.

use vstd::prelude::*;
use crate::fixed::Fixed;
use crate::lander::{Craft, Fault, Lander};
use crate::outcome::{OutcomeCategory, Verdict, classify, verdict};
use crate::stepper::{Ending, PERIOD, PeriodOutcome, run, run_period};

verus! {

/// Why a session did not carry a command out.
#[derive(Clone, Copy, Debug, PartialEq, Eq, Structural)]
pub enum Refusal {
    /// The craft is down: the session is over.
    Over,
    /// The period could not be completed; the session stands where it stood.
    Failed(Fault),
}

/// One craft from its first command to the surface.
#[derive(Clone, Copy, Debug, PartialEq, Eq, Structural)]
pub struct Session {
    lem: Lander,
    verdict: Option<OutcomeCategory>,
}

/// The model of a [`Session`]: the craft, and the verdict once it is down.
pub struct Log {
    pub craft: Craft,
    pub verdict: Option<Verdict>,
}

impl Log {
    /// Whether the craft is down.
    pub open spec fn over(self) -> bool {
        self.verdict is Some
    }
}

/// The verdict that the end of a period calls for: none while the craft is
/// in flight, else the verdict on its impact speed.
pub open spec fn judged(ending: Ending) -> Option<Verdict> {
    match ending {
        Ending::Continuing => None,
        Ending::Landed { impact_speed, .. } => Some(verdict(impact_speed)),
        Ending::OutOfFuel { impact_speed, .. } => Some(verdict(impact_speed)),
    }
}

/// The session after the command `rate`, and how the period ended. A
/// session that is over refuses the command; a period that fails leaves the
/// session as it was.
pub open spec fn commanded(log: Log, rate: int) -> Result<(Log, Ending), Refusal> {
    if log.over() {
        Err(Refusal::Over)
    } else {
        match run(log.craft, rate, PERIOD as int) {
            Ok((craft, ending)) => Ok((Log { craft, verdict: judged(ending) }, ending)),
            Err(fault) => Err(Refusal::Failed(fault)),
        }
    }
}

impl View for Session {
    type V = Log;

    closed spec fn view(&self) -> Log {
        Log {
            craft: self.lem@,
            verdict: match self.verdict {
                Some(category) => Some(category@),
                None => None,
            },
        }
    }
}

impl Session {
    /// A session with `lem` in flight.
    pub fn begin(lem: Lander) -> (session: Session)
        ensures
            session@ == (Log { craft: lem@, verdict: None }),
    {
        Session { lem, verdict: None }
    }

    /// The craft as it is now.
    pub fn lander(&self) -> (lem: Lander)
        ensures
            lem@ == self@.craft,
    {
        self.lem
    }

    /// The verdict on the landing, once the craft is down.
    pub fn verdict(&self) -> (found: Option<OutcomeCategory>)
        ensures
            match found {
                Some(category) => self@.verdict == Some(category@),
                None => self@.verdict is None,
            },
    {
        self.verdict
    }

    /// Whether the craft is down.
    pub fn is_over(&self) -> (over: bool)
        ensures
            over == self@.over(),
    {
        self.verdict.is_some()
    }

    /// Holds `burn_rate` for one command period, or until the craft is down.
    /// Once it is down, every further command is refused.
    pub fn run_period(&mut self, burn_rate: Fixed) -> (r: Result<PeriodOutcome, Refusal>)
        ensures
            match commanded(old(self)@, burn_rate@) {
                Ok((log, ending)) => r matches Ok(outcome) && outcome@ == ending && final(self)@
                    == log,
                Err(refusal) => r == Err::<PeriodOutcome, Refusal>(refusal) && *final(self) == *old(
                    self,
                ),
            },
    {
        if self.verdict.is_some() {
            return Err(Refusal::Over);
        }
        let mut lem = self.lem;
        match run_period(&mut lem, burn_rate) {
            Ok(outcome) => {
                let verdict = match outcome {
                    PeriodOutcome::Continuing => None,
                    PeriodOutcome::Landed { impact_speed, .. } => Some(classify(impact_speed)),
                    PeriodOutcome::OutOfFuel { impact_speed, .. } => Some(classify(impact_speed)),
                };
                *self = Session { lem, verdict };
                Ok(outcome)
            },
            Err(fault) => Err(Refusal::Failed(fault)),
        }
    }
}

/// A session that is over refuses every command and stays as it is; a
/// session is over exactly from the period on in which the craft came down.
pub proof fn lemma_landing_ends_the_session(log: Log, rate: int)
    ensures
        log.over() ==> commanded(log, rate) == Err::<(Log, Ending), Refusal>(Refusal::Over),
        commanded(log, rate) matches Ok((after, ending)) ==> (after.over() <==> !(ending
            is Continuing)),
{
}

} // verus!
