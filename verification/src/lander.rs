//! The craft: its state, the integration of one burn, the planning of burn
//! times, the commitment of a step, and the refinement of the impact.
//!
//! Velocity is positive towards the surface, altitude is the height above
//! it, and gravity is a constant acceleration. The model of a [`Lander`] is
//! a [`Craft`], a record of unbounded integers (units of the last digit), and every
//! operation is specified by a function on that model. A model function
//! yields nothing exactly where some quantity that the operation forms
//! cannot be represented.

use vstd::prelude::*;
use crate::fixed::{
    Fixed, SCALE, difference, lift, opposite, product, quotient, quotient_up, representable, root,
    root_up, sum,
};
use crate::series::{
    altitude_mass_factor, altitude_series, velocity_mass_factor, velocity_series, whole,
};

verus! {

/// Acceleration towards the surface: 0.001.
pub const GRAVITY: i128 = 1_000_000_000_000;

/// The craft counts as out of fuel below this much fuel: 0.001.
pub const FUEL_RESERVE: i128 = 1_000_000_000_000;

/// Time added to a corrected burn time so that the next step starts past
/// the turning point: 0.05.
pub const APEX_MARGIN: i128 = 50_000_000_000_000;

/// Impact refinement stops once the estimated time to the surface is below
/// this: 0.005.
pub const IMPACT_TOLERANCE: i128 = 5_000_000_000_000;

/// The largest number of refinement steps that [`Lander::calc_impact`] takes.
pub const REFINEMENT_LIMIT: u32 = 64;

/// Why a simulation step could not be completed.
#[derive(Clone, Copy, Debug, PartialEq, Eq, Structural)]
pub enum Fault {
    /// A quantity left the representable range, a divisor was zero, a
    /// square root was taken of a negative number, or a step inside a
    /// command period would not have moved time forward.
    Unrepresentable,
    /// Impact refinement did not converge within the steps allowed.
    Diverged,
}

/// Instantaneous motion and the mission clock.
#[derive(Clone, Copy, Debug, PartialEq, Eq, Structural)]
pub struct Kinematics {
    /// Positive towards the surface.
    pub velocity: Fixed,
    /// The height above the surface.
    pub altitude: Fixed,
    /// The time since the session began.
    pub elapsed_time: Fixed,
}

/// The model of a [`Kinematics`].
pub struct Motion {
    pub velocity: int,
    pub altitude: int,
    pub elapsed_time: int,
}

impl View for Kinematics {
    type V = Motion;

    open spec fn view(&self) -> Motion {
        Motion {
            velocity: self.velocity@,
            altitude: self.altitude@,
            elapsed_time: self.elapsed_time@,
        }
    }
}

/// The model of an optional [`Kinematics`].
pub open spec fn lift_motion(o: Option<Kinematics>) -> Option<Motion> {
    match o {
        Some(k) => Some(k@),
        None => None,
    }
}

/// The model of a [`Lander`].
pub struct Craft {
    pub capsule_mass: int,
    pub fuel: int,
    pub total_mass: int,
    pub fuel_isp: int,
    pub phys: Motion,
}

impl Craft {
    /// Fuel is never negative, the total mass is the dry mass plus the fuel,
    /// and the exhaust velocity is positive.
    pub open spec fn wf(self) -> bool {
        &&& self.fuel >= 0
        &&& self.total_mass == self.capsule_mass + self.fuel
        &&& self.fuel_isp > 0
    }

    /// Whether what is left in the tanks is below [`FUEL_RESERVE`].
    pub open spec fn out_of_fuel(self) -> bool {
        self.fuel < FUEL_RESERVE
    }

    /// The fraction of the total mass that a burn at `rate` for `time`
    /// consumes.
    pub open spec fn mass_fraction(self, rate: int, time: int) -> Option<int> {
        quotient(product(Some(rate), Some(time)), Some(self.total_mass))
    }

    /// Velocity after `time`: `v + g t + c L(q)`, with `c` the exhaust
    /// velocity and `L` the velocity series.
    pub open spec fn velocity_after(self, time: int, q: int) -> Option<int> {
        sum(
            sum(Some(self.phys.velocity), product(Some(GRAVITY as int), Some(time))),
            product(Some(self.fuel_isp), velocity_series(q)),
        )
    }

    /// Altitude after `time`: `h - g (t^2 / 2) - v t + c t A(q)`, with `c`
    /// the exhaust velocity and `A` the altitude series.
    pub open spec fn altitude_after(self, time: int, q: int) -> Option<int> {
        let fall = product(
            Some(GRAVITY as int),
            quotient(product(Some(time), Some(time)), whole(2)),
        );
        let drift = product(Some(self.phys.velocity), Some(time));
        let rise = product(product(Some(self.fuel_isp), Some(time)), altitude_series(q));
        sum(difference(difference(Some(self.phys.altitude), fall), drift), rise)
    }

    /// The motion at the end of a burn at `rate` for `time`; the clock is
    /// left as it is.
    pub open spec fn dynamics(self, rate: int, time: int) -> Option<Motion> {
        match self.mass_fraction(rate, time) {
            Some(q) => match (self.velocity_after(time, q), self.altitude_after(time, q)) {
                (Some(velocity), Some(altitude)) => Some(
                    Motion { velocity, altitude, elapsed_time: self.phys.elapsed_time },
                ),
                _ => None,
            },
            None => None,
        }
    }

    /// The burn time for a requested `time` at `rate`, cut short to what
    /// the fuel allows.
    pub open spec fn burn_time(self, rate: int, time: int) -> Option<int> {
        clamped_time(self.fuel, rate, time)
    }

    /// The time after which a burn at `rate` has brought the descent of the
    /// craft to a halt, with a margin.
    pub open spec fn upward_burn_time(self, rate: int) -> Option<int> {
        apex_time(self.total_mass, self.phys.velocity, rate, self.fuel_isp)
    }

    /// The craft after a burn at `rate` for `time` that has taken it to the
    /// velocity and altitude of `next`: the clock has advanced by `time`, the
    /// fuel burned has left the tanks, which never hold less than nothing,
    /// and the total mass has followed.
    pub open spec fn advanced(self, rate: int, time: int, next: Motion) -> Option<Craft> {
        let fuel = match difference(Some(self.fuel), product(Some(rate), Some(time))) {
            Some(left) => Some(
                if left < 0 {
                    0
                } else {
                    left
                },
            ),
            None => None,
        };
        match (
            sum(Some(self.phys.elapsed_time), Some(time)),
            fuel,
            sum(Some(self.capsule_mass), fuel),
        ) {
            (Some(elapsed_time), Some(fuel), Some(total_mass)) => Some(
                Craft {
                    capsule_mass: self.capsule_mass,
                    fuel,
                    total_mass,
                    fuel_isp: self.fuel_isp,
                    phys: Motion { velocity: next.velocity, altitude: next.altitude, elapsed_time },
                },
            ),
            _ => None,
        }
    }

    /// The time to the surface if the acceleration stayed what it is now
    /// under a burn at `rate`: `2 h / (v + sqrt(v^2 + 2 h (g - c (r / m))))`.
    pub open spec fn time_to_surface(self, rate: int) -> Option<int> {
        let thrust = product(Some(self.fuel_isp), quotient(Some(rate), Some(self.total_mass)));
        let pull = difference(Some(GRAVITY as int), thrust);
        let square = product(Some(self.phys.velocity), Some(self.phys.velocity));
        let span = product(product(whole(2), Some(self.phys.altitude)), pull);
        let speed = sum(Some(self.phys.velocity), root(sum(square, span)));
        product(whole(2), quotient(Some(self.phys.altitude), speed))
    }

    /// The craft after a burn at `rate` for `time` has been integrated and
    /// committed.
    pub open spec fn stepped(self, rate: int, time: int) -> Option<Craft> {
        match self.dynamics(rate, time) {
            Some(next) => self.advanced(rate, time, next),
            None => None,
        }
    }

    /// The craft after impact refinement from `estimate` with at most
    /// `limit` steps. While the estimate is at least [`IMPACT_TOLERANCE`], a
    /// new estimate of the time to the surface is formed and a burn of that
    /// length is committed; an estimate that is negative ends the refinement
    /// and is not committed.
    pub open spec fn refined(self, rate: int, estimate: int, limit: nat) -> Result<Craft, Fault>
        decreases limit,
    {
        if estimate < IMPACT_TOLERANCE {
            Ok(self)
        } else if limit == 0 {
            Err(Fault::Diverged)
        } else {
            match self.time_to_surface(rate) {
                Some(time) => if time < 0 {
                    Ok(self)
                } else {
                    match self.stepped(rate, time) {
                        Some(craft) => craft.refined(rate, time, (limit - 1) as nat),
                        None => Err(Fault::Unrepresentable),
                    }
                },
                None => Err(Fault::Unrepresentable),
            }
        }
    }

    /// The time that a craft without thrust needs to reach the surface:
    /// `(-v + sqrt(v^2 + 2 h g)) / g`, and never less than nothing.
    pub open spec fn fall_time(self) -> Option<int> {
        let square = product(Some(self.phys.velocity), Some(self.phys.velocity));
        let span = product(product(whole(2), Some(self.phys.altitude)), Some(GRAVITY as int));
        match quotient(
            sum(opposite(Some(self.phys.velocity)), root(sum(square, span))),
            Some(GRAVITY as int),
        ) {
            Some(time) => Some(
                if time < 0 {
                    0
                } else {
                    time
                },
            ),
            None => None,
        }
    }

    /// The craft after falling to the surface without thrust: velocity and
    /// clock have moved on by the fall time, the altitude is left as it is.
    pub open spec fn fallen(self) -> Option<Craft> {
        let time = self.fall_time();
        match (
            sum(Some(self.phys.velocity), product(Some(GRAVITY as int), time)),
            sum(Some(self.phys.elapsed_time), time),
        ) {
            (Some(velocity), Some(elapsed_time)) => Some(
                Craft {
                    phys: Motion { velocity, altitude: self.phys.altitude, elapsed_time },
                    ..self
                },
            ),
            _ => None,
        }
    }
}

/// The requested `time` if a burn at `rate` of that length needs no more
/// than `fuel`, else the time after which that burn has used `fuel` up.
pub open spec fn clamped_time(fuel: int, rate: int, time: int) -> Option<int> {
    match product(Some(rate), Some(time)) {
        Some(need) => if fuel < need {
            quotient(Some(fuel), Some(rate))
        } else {
            Some(time)
        },
        None => None,
    }
}

/// The time at which a burn at `rate` has brought a positive velocity
/// down to zero, plus [`APEX_MARGIN`]:
/// `m v / (c r (f + s))` with `f = (1 - m g / (c r)) / 2` and
/// `s = sqrt(f^2 + v / c)`. Where `f` is negative the same time is taken
/// in the form `m (s - f) / r`, which loses no digits to the difference of
/// `s` and `-f`. The root, `v / c` and the last quotient are rounded up, so
/// that the time does not fall short of the turning point.
pub open spec fn apex_time(total_mass: int, velocity: int, rate: int, exhaust_velocity: int) -> Option<
    int,
> {
    let turn = turning_time(total_mass, velocity, rate, exhaust_velocity);
    sum(turn, Some(APEX_MARGIN as int))
}

/// The `f` of [`apex_time`]: half of one less the ratio of weight to thrust.
pub open spec fn thrust_factor(total_mass: int, rate: int, exhaust_velocity: int) -> Option<int> {
    let thrust = product(Some(exhaust_velocity), Some(rate));
    let weight = product(Some(total_mass), Some(GRAVITY as int));
    quotient(difference(whole(1), quotient(weight, thrust)), whole(2))
}

/// The `s` of [`apex_time`]: the root of `f^2 + v / c`, rounded up.
pub open spec fn thrust_spread(total_mass: int, velocity: int, rate: int, exhaust_velocity: int) -> Option<
    int,
> {
    let factor = thrust_factor(total_mass, rate, exhaust_velocity);
    root_up(sum(product(factor, factor), quotient_up(Some(velocity), Some(exhaust_velocity))))
}

/// The dividend of the last quotient of [`apex_time`]: `m (s - f)` where `f`
/// is negative, `m v` otherwise. The turning time is positive exactly where
/// this product does not round to nothing.
pub open spec fn turning_weight(total_mass: int, velocity: int, rate: int, exhaust_velocity: int) -> Option<
    int,
> {
    let factor = thrust_factor(total_mass, rate, exhaust_velocity);
    let spread = thrust_spread(total_mass, velocity, rate, exhaust_velocity);
    match factor {
        Some(f) => if f < 0 {
            product(Some(total_mass), difference(spread, factor))
        } else {
            product(Some(total_mass), Some(velocity))
        },
        None => None,
    }
}

/// [`apex_time`] without its margin.
pub open spec fn turning_time(total_mass: int, velocity: int, rate: int, exhaust_velocity: int) -> Option<
    int,
> {
    let thrust = product(Some(exhaust_velocity), Some(rate));
    let factor = thrust_factor(total_mass, rate, exhaust_velocity);
    let spread = thrust_spread(total_mass, velocity, rate, exhaust_velocity);
    let weight = turning_weight(total_mass, velocity, rate, exhaust_velocity);
    match factor {
        Some(f) => if f < 0 {
            quotient_up(weight, Some(rate))
        } else {
            quotient_up(weight, product(thrust, sum(factor, spread)))
        },
        None => None,
    }
}

/// Why a session could not be set up.
#[derive(Clone, Copy, Debug, PartialEq, Eq, Structural)]
pub enum ConfigError {
    /// The exhaust velocity is zero or negative.
    ExhaustVelocity,
    /// The initial fuel is negative.
    Fuel,
    /// The dry mass and the fuel together are zero, negative, or beyond the
    /// representable range.
    Mass,
}

/// A thrust-controlled craft descending under constant gravity.
#[derive(Clone, Copy, Debug, PartialEq, Eq, Structural)]
pub struct Lander {
    capsule_mass: Fixed,
    fuel: Fixed,
    total_mass: Fixed,
    fuel_isp: Fixed,
    phys: Kinematics,
}

impl View for Lander {
    type V = Craft;

    closed spec fn view(&self) -> Craft {
        Craft {
            capsule_mass: self.capsule_mass@,
            fuel: self.fuel@,
            total_mass: self.total_mass@,
            fuel_isp: self.fuel_isp@,
            phys: self.phys@,
        }
    }
}

impl Lander {
    #[verifier::type_invariant]
    spec fn well_formed(self) -> bool {
        self@.wf()
    }

    /// The error, if any, with which [`Lander::new_session`] rejects a
    /// configuration.
    pub open spec fn rejection(dry_mass: int, initial_fuel: int, exhaust_velocity: int) -> Option<
        ConfigError,
    > {
        if exhaust_velocity <= 0 {
            Some(ConfigError::ExhaustVelocity)
        } else if initial_fuel < 0 {
            Some(ConfigError::Fuel)
        } else if dry_mass + initial_fuel <= 0 || !representable(dry_mass + initial_fuel) {
            Some(ConfigError::Mass)
        } else {
            None
        }
    }

    /// A craft at the start of a session, with the clock at zero.
    pub fn new_session(
        dry_mass: Fixed,
        initial_fuel: Fixed,
        initial_velocity: Fixed,
        initial_altitude: Fixed,
        exhaust_velocity: Fixed,
    ) -> (r: Result<Lander, ConfigError>)
        ensures
            match r {
                Ok(lander) => {
                    &&& Lander::rejection(dry_mass@, initial_fuel@, exhaust_velocity@) is None
                    &&& lander@ == Craft {
                        capsule_mass: dry_mass@,
                        fuel: initial_fuel@,
                        total_mass: dry_mass@ + initial_fuel@,
                        fuel_isp: exhaust_velocity@,
                        phys: Motion {
                            velocity: initial_velocity@,
                            altitude: initial_altitude@,
                            elapsed_time: 0,
                        },
                    }
                    &&& lander@.wf()
                },
                Err(e) => Lander::rejection(dry_mass@, initial_fuel@, exhaust_velocity@) == Some(e),
            },
    {
        if exhaust_velocity.raw <= 0 {
            return Err(ConfigError::ExhaustVelocity);
        }
        if initial_fuel.raw < 0 {
            return Err(ConfigError::Fuel);
        }
        match dry_mass.plus(initial_fuel) {
            Some(total_mass) => {
                if total_mass.raw <= 0 {
                    return Err(ConfigError::Mass);
                }
                Ok(
                    Lander {
                        capsule_mass: dry_mass,
                        fuel: initial_fuel,
                        total_mass,
                        fuel_isp: exhaust_velocity,
                        phys: Kinematics {
                            velocity: initial_velocity,
                            altitude: initial_altitude,
                            elapsed_time: Fixed { raw: 0 },
                        },
                    },
                )
            },
            None => Err(ConfigError::Mass),
        }
    }

    /// A copy of the craft as it is now.
    pub fn snapshot(&self) -> (copy: Lander)
        ensures
            copy == *self,
            copy@.wf(),
    {
        proof {
            use_type_invariant(self);
        }
        *self
    }

    /// The mass of the craft without fuel.
    pub fn capsule_mass(&self) -> (f: Fixed)
        ensures
            f@ == self@.capsule_mass,
    {
        self.capsule_mass
    }

    /// The fuel left; never negative.
    pub fn fuel(&self) -> (f: Fixed)
        ensures
            f@ == self@.fuel,
            f@ >= 0,
    {
        proof {
            use_type_invariant(self);
        }
        self.fuel
    }

    /// The mass of the craft with its fuel.
    pub fn total_mass(&self) -> (f: Fixed)
        ensures
            f@ == self@.total_mass,
            f@ == self@.capsule_mass + self@.fuel,
    {
        proof {
            use_type_invariant(self);
        }
        self.total_mass
    }

    /// The exhaust velocity; always positive.
    pub fn fuel_isp(&self) -> (f: Fixed)
        ensures
            f@ == self@.fuel_isp,
            f@ > 0,
    {
        proof {
            use_type_invariant(self);
        }
        self.fuel_isp
    }

    /// Velocity, altitude and clock.
    pub fn phys(&self) -> (k: Kinematics)
        ensures
            k@ == self@.phys,
    {
        self.phys
    }

    /// Whether the fuel left is below [`FUEL_RESERVE`].
    pub fn out_of_fuel(&self) -> (b: bool)
        ensures
            b == self@.out_of_fuel(),
    {
        self.fuel.raw < FUEL_RESERVE
    }

    /// The fraction of the total mass that a burn at `burn_rate` for
    /// `burn_time` consumes.
    pub fn calc_mass_change(&self, burn_rate: Fixed, burn_time: Fixed) -> (q: Option<Fixed>)
        ensures
            lift(q) == self@.mass_fraction(burn_rate@, burn_time@),
    {
        burn_rate.times(burn_time)?.over(self.total_mass)
    }

    /// The velocity after a burn of `burn_time` that consumes the mass
    /// fraction `q`.
    pub fn calc_velocity(&self, burn_time: Fixed, q: Fixed) -> (v: Option<Fixed>)
        ensures
            lift(v) == self@.velocity_after(burn_time@, q@),
    {
        let pull = Fixed { raw: GRAVITY }.times(burn_time)?;
        let push = self.fuel_isp.times(velocity_mass_factor(q)?)?;
        self.phys.velocity.plus(pull)?.plus(push)
    }

    /// The altitude after a burn of `burn_time` that consumes the mass
    /// fraction `q`.
    pub fn calc_altitude(&self, burn_time: Fixed, q: Fixed) -> (h: Option<Fixed>)
        ensures
            lift(h) == self@.altitude_after(burn_time@, q@),
    {
        let half_square = burn_time.times(burn_time)?.over(Fixed { raw: 2 * SCALE })?;
        let fall = Fixed { raw: GRAVITY }.times(half_square)?;
        let drift = self.phys.velocity.times(burn_time)?;
        let rise = self.fuel_isp.times(burn_time)?.times(altitude_mass_factor(q)?)?;
        self.phys.altitude.minus(fall)?.minus(drift)?.plus(rise)
    }

    /// The motion at the end of a burn at `burn_rate` for `burn_time`. The
    /// craft is not changed, and the clock of the result is the craft's.
    pub fn calc_dynamics(&self, burn_rate: Fixed, burn_time: Fixed) -> (k: Option<Kinematics>)
        ensures
            lift_motion(k) == self@.dynamics(burn_rate@, burn_time@),
    {
        let q = self.calc_mass_change(burn_rate, burn_time)?;
        let velocity = self.calc_velocity(burn_time, q)?;
        let altitude = self.calc_altitude(burn_time, q)?;
        Some(Kinematics { velocity, altitude, elapsed_time: self.phys.elapsed_time })
    }

    /// `burn_time`, or the time for which the fuel lasts at `burn_rate`
    /// where that is shorter.
    pub fn calc_burn_time(&self, burn_rate: Fixed, burn_time: Fixed) -> (t: Option<Fixed>)
        ensures
            lift(t) == self@.burn_time(burn_rate@, burn_time@),
    {
        let need = burn_rate.times(burn_time)?;
        if self.fuel.raw < need.raw {
            self.fuel.over(burn_rate)
        } else {
            Some(burn_time)
        }
    }

    /// The time after which a burn at `burn_rate` has brought the descent
    /// to a halt, with a margin of [`APEX_MARGIN`]. For a craft that moves
    /// towards the surface under a positive burn rate the time is never
    /// short of the margin, and past it exactly where the product of the
    /// mass and the velocity (or, under a thrust below the weight, of the
    /// mass and `s - f`) does not round to nothing; a mass of at least one
    /// is enough for that.
    pub fn calc_upward_burn_time(&self, burn_rate: Fixed) -> (t: Option<Fixed>)
        ensures
            lift(t) == self@.upward_burn_time(burn_rate@),
            self@.total_mass >= 0 && self@.phys.velocity > 0 && burn_rate@ > 0 ==> (t matches Some(
                time,
            ) ==> {
                &&& time@ >= APEX_MARGIN
                &&& turning_weight(
                    self@.total_mass,
                    self@.phys.velocity,
                    burn_rate@,
                    self@.fuel_isp,
                ) matches Some(weight)
                &&& time@ > APEX_MARGIN <==> weight > 0
                &&& self@.total_mass >= SCALE ==> weight > 0
            }),
    {
        proof {
            use_type_invariant(self);
            if self@.total_mass >= 0 && self@.phys.velocity > 0 && burn_rate@ > 0 {
                crate::laws::lemma_correction_is_past_the_margin(
                    self@.total_mass,
                    self@.phys.velocity,
                    burn_rate@,
                    self@.fuel_isp,
                );
            }
        }
        let thrust = self.fuel_isp.times(burn_rate)?;
        let weight = self.total_mass.times(Fixed { raw: GRAVITY })?;
        let one = Fixed { raw: SCALE };
        let two = Fixed { raw: 2 * SCALE };
        let factor = one.minus(weight.over(thrust)?)?.over(two)?;
        let ratio = self.phys.velocity.over_up(self.fuel_isp)?;
        let spread = factor.times(factor)?.plus(ratio)?.sqrt_up()?;
        let turn = if factor.raw < 0 {
            self.total_mass.times(spread.minus(factor)?)?.over_up(burn_rate)?
        } else {
            let momentum = self.total_mass.times(self.phys.velocity)?;
            momentum.over_up(thrust.times(factor.plus(spread)?)?)?
        };
        turn.plus(Fixed { raw: APEX_MARGIN })
    }

    /// Commits a step: on success the craft is the advanced one, otherwise
    /// it is left as it was.
    fn commit(&mut self, burn_rate: Fixed, burn_time: Fixed, new_phys: &Kinematics) -> (done: bool)
        ensures
            match old(self)@.advanced(burn_rate@, burn_time@, new_phys@) {
                Some(craft) => done && final(self)@ == craft,
                None => !done && *final(self) == *old(self),
            },
            final(self)@.wf(),
    {
        proof {
            use_type_invariant(&*self);
        }
        let elapsed_time = match self.phys.elapsed_time.plus(burn_time) {
            Some(t) => t,
            None => {
                return false;
            },
        };
        let left = match burn_rate.times(burn_time) {
            Some(burned) => match self.fuel.minus(burned) {
                Some(left) => left,
                None => {
                    return false;
                },
            },
            None => {
                return false;
            },
        };
        let fuel = if left.raw < 0 {
            Fixed { raw: 0 }
        } else {
            left
        };
        let total_mass = match self.capsule_mass.plus(fuel) {
            Some(m) => m,
            None => {
                return false;
            },
        };
        *self = Lander {
            capsule_mass: self.capsule_mass,
            fuel,
            total_mass,
            fuel_isp: self.fuel_isp,
            phys: Kinematics {
                velocity: new_phys.velocity,
                altitude: new_phys.altitude,
                elapsed_time,
            },
        };
        true
    }

    /// Commits a burn at `burn_rate` for `burn_time` that has taken the
    /// craft to the velocity and altitude of `new_phys`, and returns what is
    /// then left of `time`, the remainder of the command period. The fuel
    /// never goes below zero. Where the step or the remainder cannot be
    /// represented, nothing changes.
    pub fn update_status(
        &mut self,
        burn_rate: Fixed,
        burn_time: Fixed,
        new_phys: &Kinematics,
        time: Fixed,
    ) -> (left: Option<Fixed>)
        ensures
            match (
                old(self)@.advanced(burn_rate@, burn_time@, new_phys@),
                difference(Some(time@), Some(burn_time@)),
            ) {
                (Some(craft), Some(rest)) => final(self)@ == craft && lift(left) == Some(rest),
                _ => left is None && *final(self) == *old(self),
            },
            final(self)@.wf(),
    {
        proof {
            use_type_invariant(&*self);
        }
        let rest = time.minus(burn_time)?;
        if self.commit(burn_rate, burn_time, new_phys) {
            Some(rest)
        } else {
            None
        }
    }

    /// Refines the moment of impact: while the estimated time to the surface
    /// is at least [`IMPACT_TOLERANCE`], a new estimate is formed and a burn
    /// of that length is committed, for at most [`REFINEMENT_LIMIT`] steps. A
    /// negative estimate ends the refinement and is not committed, so the
    /// clock never runs back. On an error the craft is left as it was.
    pub fn calc_impact(&mut self, burn_rate: Fixed, iter_time: Fixed) -> (r: Result<(), Fault>)
        ensures
            match old(self)@.refined(burn_rate@, iter_time@, REFINEMENT_LIMIT as nat) {
                Ok(craft) => r is Ok && final(self)@ == craft,
                Err(fault) => r == Err::<(), Fault>(fault) && *final(self) == *old(self),
            },
            final(self)@.wf(),
            final(self)@.phys.elapsed_time >= old(self)@.phys.elapsed_time,
    {
        self.calc_impact_within(burn_rate, iter_time, REFINEMENT_LIMIT)
    }

    /// Impact refinement with at most `limit` steps. On an error the craft
    /// is left as it was.
    pub fn calc_impact_within(&mut self, burn_rate: Fixed, iter_time: Fixed, limit: u32) -> (r:
        Result<(), Fault>)
        ensures
            match old(self)@.refined(burn_rate@, iter_time@, limit as nat) {
                Ok(craft) => r is Ok && final(self)@ == craft,
                Err(fault) => r == Err::<(), Fault>(fault) && *final(self) == *old(self),
            },
            final(self)@.wf(),
            final(self)@.phys.elapsed_time >= old(self)@.phys.elapsed_time,
    {
        proof {
            crate::laws::lemma_refinement_keeps_craft_sound(
                self@,
                burn_rate@,
                iter_time@,
                limit as nat,
            );
        }
        let start = self.snapshot();
        let mut estimate = iter_time;
        let mut steps: u32 = 0;
        while estimate.raw >= IMPACT_TOLERANCE
            invariant
                steps <= limit,
                start == *old(self),
                self@.wf(),
                start@.wf(),
                start@.refined(burn_rate@, iter_time@, limit as nat) == self@.refined(
                    burn_rate@,
                    estimate@,
                    (limit - steps) as nat,
                ),
                start@.refined(burn_rate@, iter_time@, limit as nat) matches Ok(after)
                    ==> after.phys.elapsed_time >= start@.phys.elapsed_time,
            decreases limit - steps,
        {
            if steps == limit {
                *self = start;
                return Err(Fault::Diverged);
            }
            let time = match self.time_to_impact(burn_rate) {
                Some(time) => time,
                None => {
                    *self = start;
                    return Err(Fault::Unrepresentable);
                },
            };
            if time.raw < 0 {
                return Ok(());
            }
            let done = match self.calc_dynamics(burn_rate, time) {
                Some(next) => self.commit(burn_rate, time, &next),
                None => false,
            };
            if !done {
                *self = start;
                return Err(Fault::Unrepresentable);
            }
            estimate = time;
            steps = steps + 1;
        }
        Ok(())
    }

    /// The estimate of the time to the surface that impact refinement uses.
    pub fn time_to_impact(&self, burn_rate: Fixed) -> (t: Option<Fixed>)
        ensures
            lift(t) == self@.time_to_surface(burn_rate@),
    {
        let two = Fixed { raw: 2 * SCALE };
        let thrust = self.fuel_isp.times(burn_rate.over(self.total_mass)?)?;
        let pull = Fixed { raw: GRAVITY }.minus(thrust)?;
        let square = self.phys.velocity.times(self.phys.velocity)?;
        let span = two.times(self.phys.altitude)?.times(pull)?;
        let speed = self.phys.velocity.plus(square.plus(span)?.sqrt()?)?;
        two.times(self.phys.altitude.over(speed)?)
    }

    /// Lets a craft without thrust fall to the surface: velocity and clock
    /// move on by the fall time. Where that cannot be represented, nothing
    /// changes.
    pub fn free_fall(&mut self) -> (done: bool)
        ensures
            match old(self)@.fallen() {
                Some(craft) => done && final(self)@ == craft,
                None => !done && *final(self) == *old(self),
            },
            final(self)@.wf(),
            final(self)@.phys.elapsed_time >= old(self)@.phys.elapsed_time,
            final(self)@.phys.velocity >= old(self)@.phys.velocity,
    {
        proof {
            use_type_invariant(&*self);
            crate::laws::lemma_fall_moves_the_clock_on(self@);
        }
        match self.seconds_to_impact() {
            Some(time) => match Fixed::from_raw(GRAVITY).times(time) {
                Some(gain) => match (
                    self.phys.velocity.plus(gain),
                    self.phys.elapsed_time.plus(time),
                ) {
                    (Some(velocity), Some(elapsed_time)) => {
                        *self = Lander {
                            capsule_mass: self.capsule_mass,
                            fuel: self.fuel,
                            total_mass: self.total_mass,
                            fuel_isp: self.fuel_isp,
                            phys: Kinematics {
                                velocity,
                                altitude: self.phys.altitude,
                                elapsed_time,
                            },
                        };
                        true
                    },
                    _ => false,
                },
                None => false,
            },
            None => false,
        }
    }

    /// The time that the craft would need to reach the surface without
    /// thrust; never negative.
    pub fn seconds_to_impact(&self) -> (t: Option<Fixed>)
        ensures
            lift(t) == self@.fall_time(),
            t matches Some(time) ==> time@ >= 0,
    {
        let square = self.phys.velocity.times(self.phys.velocity)?;
        let two = Fixed { raw: 2 * SCALE };
        let span = two.times(self.phys.altitude)?.times(Fixed { raw: GRAVITY })?;
        let reach = square.plus(span)?.sqrt()?;
        let time = self.phys.velocity.negated()?.plus(reach)?.over(Fixed { raw: GRAVITY })?;
        if time.raw < 0 {
            Some(Fixed { raw: 0 })
        } else {
            Some(time)
        }
    }
}

} // verus!
