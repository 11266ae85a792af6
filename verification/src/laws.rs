//! What holds of every craft, every command and every step.

use vstd::prelude::*;
use vstd::arithmetic::div_mod::lemma_div_is_ordered;
use crate::accuracy::lemma_series_signs;
use crate::fixed::{
    SCALE, difference, lemma_floor, lemma_quotient_up_bounds, lemma_root_up_bounds, product,
    quotient, quotient_up, representable, sum,
};
use crate::lander::{
    APEX_MARGIN, Craft, FUEL_RESERVE, GRAVITY, IMPACT_TOLERANCE, Motion, REFINEMENT_LIMIT, apex_time,
    clamped_time, thrust_factor, thrust_spread, turning_time, turning_weight,
};
use crate::series::{altitude_series, velocity_series, whole};
use crate::stepper::{
    Course, Ending, MAX_BURN_RATE, PERIOD_SLACK, course, crashed, reverses, run, span,
    speed_on_impact,
};

verus! {

/// Both series vanish where no mass is burned.
pub proof fn lemma_series_vanish()
    ensures
        velocity_series(0) == Some(0int),
        altitude_series(0) == Some(0int),
{
    assert(product(Some(0int), Some(0int)) == Some(0int));
}

/// The mass fraction of a burn is the exact fraction `r t / m` rounded
/// down, for a positive total mass, with a loss of less than a unit of the
/// last digit and as much of the fuel burned per unit of mass.
pub proof fn lemma_mass_fraction_bounds(craft: Craft, rate: int, time: int)
    requires
        craft.total_mass > 0,
    ensures
        craft.mass_fraction(rate, time) matches Some(q) ==> craft.total_mass * q <= rate * time
            < craft.total_mass * (q + 1) + SCALE,
{
    if let Some(q) = craft.mass_fraction(rate, time) {
        let s = SCALE as int;
        let burned = rate * time / s;
        lemma_floor(rate * time, s);
        lemma_floor(burned * s, craft.total_mass);
        assert(craft.total_mass * (q + 1) == craft.total_mass * q + craft.total_mass)
            by (nonlinear_arith);
    }
}

/// Without thrust the craft is in free fall: where the motion after `time`
/// can be represented, the velocity has grown by `g t` and the altitude has
/// shrunk by `g (t^2 / 2) + v t`, whatever the masses and the exhaust
/// velocity are.
pub proof fn lemma_coasting(craft: Craft, time: int)
    ensures
        craft.dynamics(0, time) matches Some(next) ==> {
            &&& next.velocity == craft.phys.velocity + GRAVITY * time / (SCALE as int)
            &&& next.altitude == craft.phys.altitude - GRAVITY * (time * time / (SCALE as int) / 2)
                / (SCALE as int) - craft.phys.velocity * time / (SCALE as int)
            &&& next.elapsed_time == craft.phys.elapsed_time
        },
{
    if craft.dynamics(0, time) is Some {
        lemma_series_vanish();
        assert(0 * time == 0) by (nonlinear_arith);
        assert(product(Some(0int), Some(time)) == Some(0int));
        assert(0int / craft.total_mass == 0) by (nonlinear_arith)
            requires
                craft.total_mass != 0,
        ;
        assert(craft.mass_fraction(0, time) == Some(0int));
        assert(craft.fuel_isp * 0 == 0) by (nonlinear_arith);
        assert(product(Some(craft.fuel_isp), Some(0int)) == Some(0int));
        assert(craft.velocity_after(time, 0) is Some);
        assert(craft.altitude_after(time, 0) is Some);
        let thrust = product(Some(craft.fuel_isp), Some(time));
        assert(thrust is Some);
        let push = thrust->0;
        assert(push * 0 == 0) by (nonlinear_arith);
        assert(product(thrust, Some(0int)) == Some(0int));
        let square = product(Some(time), Some(time));
        assert(square is Some);
        let squared = square->0;
        assert(squared * SCALE / (2 * SCALE) == squared / 2);
        assert(quotient(square, whole(2)) == Some(squared / 2));
    }
}

/// Thrust brakes: a burn that consumes a mass fraction between zero and one
/// leaves the craft no faster and no lower than free fall for the same
/// time would.
pub proof fn lemma_thrust_brakes(craft: Craft, time: int, q: int)
    requires
        craft.fuel_isp >= 0,
        time >= 0,
        0 <= q <= SCALE,
    ensures
        craft.velocity_after(time, q) matches Some(velocity) ==> velocity <= craft.phys.velocity
            + GRAVITY * time / (SCALE as int),
        craft.altitude_after(time, q) matches Some(altitude) ==> altitude >= craft.phys.altitude
            - GRAVITY * (time * time / (SCALE as int) / 2) / (SCALE as int) - craft.phys.velocity
            * time / (SCALE as int),
{
    let s = SCALE as int;
    lemma_series_signs(q);
    let braking = velocity_series(q)->0;
    let lifting = altitude_series(q)->0;
    if craft.velocity_after(time, q) is Some {
        assert(craft.fuel_isp * braking <= 0) by (nonlinear_arith)
            requires
                craft.fuel_isp >= 0,
                braking <= 0,
        ;
        lemma_div_is_ordered(craft.fuel_isp * braking, 0, s);
    }
    if craft.altitude_after(time, q) is Some {
        let reach = craft.fuel_isp * time / s;
        assert(0 <= craft.fuel_isp * time) by (nonlinear_arith)
            requires
                craft.fuel_isp >= 0,
                time >= 0,
        ;
        lemma_div_is_ordered(0, craft.fuel_isp * time, s);
        assert(0 <= reach * lifting) by (nonlinear_arith)
            requires
                reach >= 0,
                lifting >= 0,
        ;
        lemma_div_is_ordered(0, reach * lifting, s);
        let square = product(Some(time), Some(time));
        let squared = square->0;
        assert(squared * SCALE / (2 * SCALE) == squared / 2);
    }
}

/// A clamped burn time never asks for more fuel than there is, is never
/// longer than the time requested, and is not negative where that time is
/// not.
pub proof fn lemma_burn_within_fuel(fuel: int, rate: int, time: int)
    requires
        rate > 0,
        fuel >= 0,
        representable(fuel),
    ensures
        clamped_time(fuel, rate, time) matches Some(granted) ==> {
            &&& granted <= time
            &&& time >= 0 ==> granted >= 0
            &&& product(Some(rate), Some(granted)) matches Some(used)
            &&& used <= fuel
        },
{
    if let Some(need) = product(Some(rate), Some(time)) {
        if fuel < need {
            if let Some(granted) = quotient(Some(fuel), Some(rate)) {
                let s = SCALE as int;
                lemma_floor(fuel * s, rate);
                lemma_floor(rate * time, s);
                lemma_floor(rate * granted, s);
                assert(granted >= 0 && granted <= time) by (nonlinear_arith)
                    requires
                        rate > 0,
                        fuel >= 0,
                        s > 0,
                        fuel < need,
                        s * need <= rate * time,
                        rate * granted <= fuel * s < rate * granted + rate,
                ;
                assert(0 <= rate * granted) by (nonlinear_arith)
                    requires
                        rate > 0,
                        granted >= 0,
                ;
                lemma_div_is_ordered(0, rate * granted, s);
                lemma_div_is_ordered(rate * granted, fuel * s, s);
                assert(fuel * s / s == fuel) by (nonlinear_arith)
                    requires
                        s > 0,
                ;
            }
        }
    }
}

/// A burn that was cut short for want of fuel leaves less than the burn
/// uses in the shortest time that can be told, plus a unit of the last
/// digit.
pub proof fn lemma_clamped_burn_empties(fuel: int, rate: int, time: int)
    requires
        rate > 0,
        fuel >= 0,
        representable(fuel),
        product(Some(rate), Some(time)) matches Some(need) && fuel < need,
    ensures
        clamped_time(fuel, rate, time) matches Some(granted) ==> {
            &&& product(Some(rate), Some(granted)) matches Some(used)
            &&& (fuel - used) * SCALE < rate + SCALE
        },
{
    lemma_burn_within_fuel(fuel, rate, time);
    if let Some(granted) = clamped_time(fuel, rate, time) {
        let s = SCALE as int;
        let used = rate * granted / s;
        lemma_floor(fuel * s, rate);
        lemma_floor(rate * granted, s);
        assert((fuel - used) * s < rate + s) by (nonlinear_arith)
            requires
                fuel * s < rate * granted + rate,
                rate * granted < s * used + s,
        ;
    }
}

/// With fuel above the reserve and time left in the period, an allowed
/// burn rate is granted a burn time that is positive.
pub proof fn lemma_allowed_burn_advances(fuel: int, rate: int, left: int)
    requires
        representable(fuel),
        fuel >= FUEL_RESERVE,
        left > PERIOD_SLACK,
        0 <= rate <= MAX_BURN_RATE,
    ensures
        clamped_time(fuel, rate, left) matches Some(granted) ==> 0 < granted <= left,
{
    if let Some(need) = product(Some(rate), Some(left)) {
        if fuel < need {
            let s = SCALE as int;
            if rate == 0 {
                assert(rate * left == 0) by (nonlinear_arith)
                    requires
                        rate == 0,
                ;
            } else {
                lemma_burn_within_fuel(fuel, rate, left);
                lemma_floor(fuel * s, rate);
                assert(fuel * s / rate > 0) by (nonlinear_arith)
                    requires
                        0 < rate <= 200_000_000_000_000_000,
                        fuel >= 1_000_000_000_000,
                        s == 1_000_000_000_000_000,
                        fuel * s < rate * (fuel * s / rate) + rate,
                ;
            }
        }
    }
}

/// Under an allowed burn rate, a step that was cut short for want of fuel
/// leaves the craft out of fuel.
pub proof fn lemma_clamped_burn_ends_in_free_fall(craft: Craft, rate: int, time: int, next: Motion)
    requires
        craft.wf(),
        representable(craft.fuel),
        0 < rate <= MAX_BURN_RATE,
        product(Some(rate), Some(time)) matches Some(need) && craft.fuel < need,
    ensures
        craft.burn_time(rate, time) matches Some(granted) ==> (craft.advanced(
            rate,
            granted,
            next,
        ) matches Some(after) ==> after.out_of_fuel()),
{
    lemma_clamped_burn_empties(craft.fuel, rate, time);
}

/// A burn whose time was granted by the clamp consumes a fraction of the
/// total mass between zero and one, for a sound craft with a dry mass that
/// is not negative.
pub proof fn lemma_granted_fraction(craft: Craft, rate: int, time: int)
    requires
        craft.wf(),
        representable(craft.fuel),
        craft.capsule_mass >= 0,
        craft.total_mass > 0,
        rate >= 0,
        time >= 0,
    ensures
        craft.burn_time(rate, time) matches Some(granted) ==> (craft.mass_fraction(
            rate,
            granted,
        ) matches Some(q) && 0 <= q <= SCALE),
{
    if let Some(granted) = craft.burn_time(rate, time) {
        let s = SCALE as int;
        let used = rate * granted / s;
        if rate > 0 {
            lemma_burn_within_fuel(craft.fuel, rate, time);
            assert(0 <= rate * granted) by (nonlinear_arith)
                requires
                    rate > 0,
                    granted >= 0,
            ;
            lemma_div_is_ordered(0, rate * granted, s);
        } else {
            assert(rate * granted == 0) by (nonlinear_arith)
                requires
                    rate == 0,
            ;
        }
        let m = craft.total_mass;
        assert(0 <= used * s <= m * s) by (nonlinear_arith)
            requires
                0 <= used <= m,
                s > 0,
        ;
        lemma_div_is_ordered(0, used * s, m);
        lemma_div_is_ordered(used * s, m * s, m);
        assert(0int / m == 0 && m * s / m == s) by (nonlinear_arith)
            requires
                m > 0,
        ;
    }
}

/// A quotient that is rounded up, of a dividend that is not negative by a
/// positive divisor, is not negative, and positive exactly where the
/// dividend is.
pub proof fn lemma_quotient_up_sign(a: int, b: int)
    requires
        a >= 0,
        b > 0,
    ensures
        quotient_up(Some(a), Some(b)) matches Some(q) ==> q >= 0 && (q > 0 <==> a > 0),
{
    if let Some(q) = quotient_up(Some(a), Some(b)) {
        lemma_quotient_up_bounds(a, b);
        assert(q >= 0 && (q > 0 <==> a > 0)) by (nonlinear_arith)
            requires
                a >= 0,
                b > 0,
                SCALE > 0,
                b * (q - 1) < a * SCALE <= b * q,
        ;
    }
}

/// The product of two numbers that are not negative is not negative, and
/// positive where one is at least one and the other positive.
pub proof fn lemma_product_sign(a: int, b: int)
    requires
        a >= 0,
        b >= 0,
    ensures
        product(Some(a), Some(b)) matches Some(p) ==> p >= 0 && (a >= SCALE && b > 0 ==> p > 0),
{
    assert(a * b >= 0) by (nonlinear_arith)
        requires
            a >= 0,
            b >= 0,
    ;
    lemma_div_is_ordered(0, a * b, SCALE as int);
    if a >= SCALE && b > 0 {
        assert(a * b >= SCALE) by (nonlinear_arith)
            requires
                a >= SCALE,
                b >= 1,
                SCALE > 0,
        ;
        lemma_div_is_ordered(SCALE as int, a * b, SCALE as int);
    }
}

/// The corrected burn time is not short of its margin: for a craft of a
/// mass that is not negative that moves towards the surface, under a burn
/// with a rate and an exhaust velocity that are positive, the time at which
/// the descent comes to a halt is not negative. It is positive, and the
/// corrected time past its margin, exactly where [`turning_weight`] does not
/// round to nothing, and a mass of at least one is enough for that.
pub proof fn lemma_correction_is_past_the_margin(
    total_mass: int,
    velocity: int,
    rate: int,
    exhaust_velocity: int,
)
    requires
        total_mass >= 0,
        velocity > 0,
        rate > 0,
        exhaust_velocity > 0,
    ensures
        apex_time(total_mass, velocity, rate, exhaust_velocity) matches Some(time) ==> {
            &&& turning_time(total_mass, velocity, rate, exhaust_velocity) matches Some(turn)
            &&& turning_weight(total_mass, velocity, rate, exhaust_velocity) matches Some(weight)
            &&& time == turn + APEX_MARGIN
            &&& turn >= 0
            &&& turn > 0 <==> weight > 0
            &&& total_mass >= SCALE ==> weight > 0
        },
{
    if let Some(time) = apex_time(total_mass, velocity, rate, exhaust_velocity) {
        let s = SCALE as int;
        let factor = thrust_factor(total_mass, rate, exhaust_velocity)->0;
        let spread = thrust_spread(total_mass, velocity, rate, exhaust_velocity)->0;
        let weight = turning_weight(total_mass, velocity, rate, exhaust_velocity)->0;
        let ratio = quotient_up(Some(velocity), Some(exhaust_velocity));
        let radicand = sum(product(Some(factor), Some(factor)), ratio)->0;
        lemma_root_up_bounds(radicand);
        assert(spread >= 0);
        if factor < 0 {
            lemma_product_sign(total_mass, spread - factor);
            lemma_quotient_up_sign(weight, rate);
        } else {
            lemma_product_sign(total_mass, velocity);
            let thrust = exhaust_velocity * rate / s;
            assert(0 <= exhaust_velocity * rate) by (nonlinear_arith)
                requires
                    exhaust_velocity > 0,
                    rate > 0,
            ;
            lemma_div_is_ordered(0, exhaust_velocity * rate, s);
            assert(0 <= thrust * (factor + spread)) by (nonlinear_arith)
                requires
                    0 <= thrust,
                    0 <= factor + spread,
            ;
            lemma_div_is_ordered(0, thrust * (factor + spread), s);
            let held = product(Some(thrust), Some(factor + spread))->0;
            assert(held >= 0);
            assert(held != 0);
            lemma_quotient_up_sign(weight, held);
        }
    }
}

/// A committed step leaves the craft sound: the fuel is not negative, the
/// total mass is the dry mass plus the fuel, and dry mass and exhaust
/// velocity are what they were.
pub proof fn lemma_step_keeps_craft_sound(craft: Craft, rate: int, time: int, next: Motion)
    ensures
        craft.advanced(rate, time, next) matches Some(after) ==> {
            &&& after.fuel >= 0
            &&& after.total_mass == after.capsule_mass + after.fuel
            &&& after.capsule_mass == craft.capsule_mass
            &&& after.fuel_isp == craft.fuel_isp
        },
{
}

/// A committed step of a sound craft that burns forward in time at a rate
/// that is not negative takes no fuel on.
pub proof fn lemma_step_burns_fuel(craft: Craft, rate: int, time: int, next: Motion)
    requires
        craft.wf(),
        rate >= 0,
        time >= 0,
    ensures
        craft.advanced(rate, time, next) matches Some(after) ==> after.fuel <= craft.fuel,
{
    if craft.advanced(rate, time, next) is Some {
        assert(0 <= rate * time) by (nonlinear_arith)
            requires
                rate >= 0,
                time >= 0,
        ;
        lemma_div_is_ordered(0, rate * time, SCALE as int);
    }
}

/// A committed step moves the clock by its burn time, so never back where
/// the burn time is not negative.
pub proof fn lemma_step_moves_clock(craft: Craft, rate: int, time: int, next: Motion)
    ensures
        craft.advanced(rate, time, next) matches Some(after) ==> after.phys.elapsed_time
            == craft.phys.elapsed_time + time,
{
}

/// One committed step: a burn at `rate` for `time` that ends in the motion
/// `next`.
pub struct Burn {
    pub rate: int,
    pub time: int,
    pub next: Motion,
}

/// The craft after the steps of `burns` have been committed in order.
pub open spec fn committed(craft: Craft, burns: Seq<Burn>) -> Option<Craft>
    decreases burns.len(),
{
    if burns.len() == 0 {
        Some(craft)
    } else {
        match committed(craft, burns.drop_last()) {
            Some(before) => before.advanced(burns.last().rate, burns.last().time, burns.last().next),
            None => None,
        }
    }
}

/// Across any sequence of committed steps whose burn times are not
/// negative, the clock never runs back and a sound craft stays sound.
pub proof fn lemma_clock_never_runs_back(craft: Craft, burns: Seq<Burn>)
    requires
        forall|i: int| 0 <= i < burns.len() ==> (#[trigger] burns[i]).time >= 0,
    ensures
        committed(craft, burns) matches Some(after) ==> {
            &&& after.phys.elapsed_time >= craft.phys.elapsed_time
            &&& craft.wf() ==> after.wf()
        },
    decreases burns.len(),
{
    if burns.len() > 0 {
        lemma_clock_never_runs_back(craft, burns.drop_last());
    }
}

/// A craft that is out of fuel falls to the surface at once: the period
/// takes no burn step, whatever the command is, and no fuel is used.
pub proof fn lemma_out_of_fuel_falls(craft: Craft, rate: int, left: int)
    requires
        craft.out_of_fuel(),
    ensures
        course(craft, rate, left) == Some(Course::FreeFall),
        run(craft, rate, left) == crashed(craft),
        run(craft, rate, left) matches Ok((after, ending)) ==> {
            &&& ending is OutOfFuel
            &&& after.fuel == craft.fuel
            &&& after.total_mass == craft.total_mass
        },
{
}

/// The correction of the burn time is made only where the velocity is
/// positive before the step and the uncorrected step would make it
/// negative; a craft whose velocity is zero or negative is never corrected.
pub proof fn lemma_correction_needs_reversal(craft: Craft, rate: int, left: int)
    ensures
        course(craft, rate, left) matches Some(step) ==> (step.corrected() ==> reverses(
            craft,
            rate,
            left,
        )),
        craft.phys.velocity <= 0 ==> (course(craft, rate, left) matches Some(step)
            ==> !step.corrected()),
{
}

/// A step whose burn time was not corrected is no longer than what is left
/// of the period; a step whose burn time was corrected lasts exactly as
/// long as the correction says, and ends in the motion that the burn of
/// that length leads to, though that be past the end of the period.
pub proof fn lemma_steps_and_the_period(craft: Craft, rate: int, left: int)
    ensures
        course(craft, rate, left) matches Some(Course::Advance { burn_time, next, corrected })
            ==> {
            &&& corrected ==> Some(burn_time) == craft.upward_burn_time(rate) && Some(next)
                == craft.dynamics(rate, burn_time) && next.altitude > 0
            &&& !corrected && craft.wf() && representable(craft.fuel) ==> burn_time <= left
        },
        course(craft, rate, left) matches Some(Course::Touchdown { estimate, corrected }) ==> {
            &&& corrected ==> Some(estimate) == craft.upward_burn_time(rate)
            &&& !corrected && craft.wf() && representable(craft.fuel) ==> estimate <= left
        },
{
    if !craft.out_of_fuel() && left > PERIOD_SLACK && craft.wf() && representable(craft.fuel) {
        if let Some(need) = product(Some(rate), Some(left)) {
            if rate > 0 {
                lemma_burn_within_fuel(craft.fuel, rate, left);
            } else {
                assert(rate * left <= 0) by (nonlinear_arith)
                    requires
                        rate <= 0,
                        left > 0,
                ;
                lemma_div_is_ordered(rate * left, 0, SCALE as int);
            }
        }
    }
}

/// Whether no step of the period has its burn time corrected.
pub open spec fn uncorrected(craft: Craft, rate: int, left: int) -> bool
    decreases span(left),
{
    match course(craft, rate, left) {
        Some(Course::Advance { burn_time, next, corrected }) => !corrected && (burn_time > 0
            ==> match (
            craft.advanced(rate, burn_time, next),
            difference(Some(left), Some(burn_time)),
        ) {
            (Some(onward), Some(rest)) => uncorrected(onward, rate, rest),
            _ => true,
        }),
        Some(Course::Touchdown { corrected, .. }) => !corrected,
        _ => true,
    }
}

/// Impact refinement leaves a sound craft sound and never moves the clock
/// back: every step that it commits has a length that is not negative.
pub proof fn lemma_refinement_keeps_craft_sound(craft: Craft, rate: int, estimate: int, limit: nat)
    ensures
        craft.refined(rate, estimate, limit) matches Ok(after) ==> {
            &&& craft.wf() ==> after.wf()
            &&& after.phys.elapsed_time >= craft.phys.elapsed_time
        },
    decreases limit,
{
    if estimate >= IMPACT_TOLERANCE && limit > 0 {
        if let Some(time) = craft.time_to_surface(rate) {
            if time >= 0 {
                if let Some(onward) = craft.stepped(rate, time) {
                    lemma_refinement_keeps_craft_sound(onward, rate, time, (limit - 1) as nat);
                }
            }
        }
    }
}

/// A free fall never moves the clock back and never slows the craft: the
/// fall time is not negative.
pub proof fn lemma_fall_moves_the_clock_on(craft: Craft)
    ensures
        craft.fall_time() matches Some(time) ==> time >= 0,
        craft.fallen() matches Some(down) ==> {
            &&& down.phys.elapsed_time >= craft.phys.elapsed_time
            &&& down.phys.velocity >= craft.phys.velocity
            &&& down.phys.altitude == craft.phys.altitude
            &&& down.fuel == craft.fuel
        },
{
    if let Some(time) = craft.fall_time() {
        assert(0 <= GRAVITY * time) by (nonlinear_arith)
            requires
                time >= 0,
                GRAVITY > 0,
        ;
        lemma_div_is_ordered(0, GRAVITY * time, SCALE as int);
    }
}

/// What holds of every period, however it ends.
///
/// - The clock never runs back: not in flight, not in the refinement of an
///   impact, and not in the fall of a craft without fuel.
/// - A sound craft is left sound.
/// - What the period reports is what the craft shows at its end: the clock
///   reported is the craft's clock, and the impact speed is its velocity in
///   the unit of speed.
/// - A period that ends with the craft still in flight has moved the clock
///   on by at least what was left of the period, less [`PERIOD_SLACK`], and
///   has taken no fuel on if the burn rate is not negative. If none of its
///   steps was corrected it has moved the clock on by no more than what was
///   left: a whole period then lasts ten, less at most a thousandth. A
///   corrected step may overrun the period.
pub proof fn lemma_clock_never_runs_back_in_a_period(craft: Craft, rate: int, left: int)
    ensures
        run(craft, rate, left) matches Ok((after, ending)) ==> {
            &&& after.phys.elapsed_time >= craft.phys.elapsed_time
            &&& craft.wf() ==> after.wf()
            &&& match ending {
                Ending::Continuing => {
                    &&& after.phys.elapsed_time - craft.phys.elapsed_time >= left - PERIOD_SLACK
                    &&& craft.wf() && rate >= 0 ==> after.fuel <= craft.fuel
                    &&& craft.wf() && representable(craft.fuel) && left >= 0 && uncorrected(
                        craft,
                        rate,
                        left,
                    ) ==> after.phys.elapsed_time - craft.phys.elapsed_time <= left
                },
                Ending::Landed { impact_speed, elapsed_time } => {
                    &&& elapsed_time == after.phys.elapsed_time
                    &&& Some(impact_speed) == speed_on_impact(after)
                },
                Ending::OutOfFuel { impact_speed, elapsed_time, fuel_out_at } => {
                    &&& elapsed_time == after.phys.elapsed_time
                    &&& Some(impact_speed) == speed_on_impact(after)
                    &&& fuel_out_at <= elapsed_time
                },
            }
        },
    decreases span(left),
{
    match course(craft, rate, left) {
        Some(Course::Advance { burn_time, next, .. }) => {
            if burn_time > 0 {
                match (
                    craft.advanced(rate, burn_time, next),
                    difference(Some(left), Some(burn_time)),
                ) {
                    (Some(onward), Some(rest)) => {
                        lemma_steps_and_the_period(craft, rate, left);
                        if craft.wf() && rate >= 0 {
                            lemma_step_burns_fuel(craft, rate, burn_time, next);
                        }
                        lemma_clock_never_runs_back_in_a_period(onward, rate, rest);
                    },
                    _ => {},
                }
            }
        },
        Some(Course::Touchdown { estimate, .. }) => {
            lemma_refinement_keeps_craft_sound(craft, rate, estimate, REFINEMENT_LIMIT as nat);
        },
        Some(Course::FreeFall) => {
            lemma_fall_moves_the_clock_on(craft);
        },
        _ => {},
    }
}

} // verus!
