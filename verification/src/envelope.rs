//! Where success is owed: the flight envelope.
//!
//! An operation fails exactly where a quantity that it forms cannot be
//! represented. Inside the envelope described here, which is wide for a
//! descent from orbit, that does not happen: burn times are granted, burns
//! are integrated, steps are committed, and a craft above the surface falls
//! to it.

use vstd::prelude::*;
use vstd::arithmetic::div_mod::lemma_div_is_ordered;
use crate::accuracy::{lemma_series_values, rounded_powers};
use crate::fixed::{
    SCALE, difference, floor_sqrt, lemma_floor, lemma_floor_sqrt_exists, lemma_quotient_up_bounds,
    lemma_root_up_bounds, opposite, product, quotient, quotient_up, representable, root, root_up,
    sum,
};
use crate::lander::{APEX_MARGIN, Craft, GRAVITY, Motion, apex_time, thrust_factor, thrust_spread};
use crate::laws::lemma_burn_within_fuel;
use crate::series::{altitude_series, velocity_series, whole};
use crate::stepper::{
    MAX_BURN_RATE, PERIOD, PERIOD_SLACK, SPEED_PER_VELOCITY, course, reverses, run,
};

verus! {

/// The longest burn inside the envelope: 1000.
pub const LONGEST_BURN: i128 = 1_000_000_000_000_000_000;

/// The sound crafts inside the envelope: velocity and exhaust velocity are at
/// most a thousand, the altitude is at most a million, the clock at most a
/// thousand million, and the masses can be represented.
pub open spec fn in_envelope(craft: Craft) -> bool {
    &&& craft.wf()
    &&& representable(craft.capsule_mass)
    &&& representable(craft.fuel)
    &&& representable(craft.total_mass)
    &&& craft.fuel_isp <= 1_000_000_000_000_000_000
    &&& -1_000_000_000_000_000_000 <= craft.phys.velocity <= 1_000_000_000_000_000_000
    &&& -1_000_000_000_000_000_000_000 <= craft.phys.altitude <= 1_000_000_000_000_000_000_000
    &&& -1_000_000_000_000_000_000_000_000 <= craft.phys.elapsed_time <= 1_000_000_000_000_000_000_000_000
}

/// A product is no larger in magnitude than the product of the bounds of its
/// factors.
pub proof fn lemma_product_within(a: int, b: int, la: int, lb: int)
    by (nonlinear_arith)
    requires
        -la <= a <= la,
        -lb <= b <= lb,
    ensures
        -(la * lb) <= a * b <= la * lb,
{
}

/// A product of two numbers that are not negative is not negative.
pub proof fn lemma_product_not_negative(a: int, b: int)
    by (nonlinear_arith)
    requires
        0 <= a,
        0 <= b,
    ensures
        0 <= a * b,
{
}

/// For a sound craft a burn time is granted exactly where the fuel that the
/// requested time would need can be represented, if that time is not
/// negative.
pub proof fn lemma_burn_time_defined(craft: Craft, rate: int, time: int)
    requires
        craft.wf(),
        representable(craft.fuel),
        representable(time),
        0 <= time,
    ensures
        craft.burn_time(rate, time) is Some <==> product(Some(rate), Some(time)) is Some,
{
    if let Some(need) = product(Some(rate), Some(time)) {
        if craft.fuel < need {
            let s = SCALE as int;
            lemma_floor(rate * time, s);
            assert(rate > 0) by (nonlinear_arith)
                requires
                    rate * time > 0,
                    time >= 0,
            ;
            lemma_floor(craft.fuel * s, rate);
            let granted = craft.fuel * s / rate;
            assert(0 <= granted <= time) by (nonlinear_arith)
                requires
                    rate > 0,
                    craft.fuel >= 0,
                    s > 0,
                    craft.fuel < need,
                    s * need <= rate * time,
                    rate * granted <= craft.fuel * s < rate * granted + rate,
            ;
        }
    }
}

/// Inside the envelope, a burn of at most [`LONGEST_BURN`] that consumes a
/// mass fraction between zero and one leads to a velocity and an altitude
/// that can be represented.
pub proof fn lemma_motion_defined(craft: Craft, time: int, q: int)
    requires
        in_envelope(craft),
        0 <= time <= LONGEST_BURN,
        0 <= q <= SCALE,
    ensures
        craft.velocity_after(time, q) is Some,
        craft.altitude_after(time, q) is Some,
{
    let s = SCALE as int;
    let t: int = 1_000_000_000_000_000_000;
    lemma_series_values(q);
    let (q2, q3, q4, q5) = rounded_powers(q);
    let braking = velocity_series(q)->0;
    let lifting = altitude_series(q)->0;
    assert(-5 * s <= braking <= 0);
    assert(0 <= lifting <= s);
    lemma_product_within(craft.fuel_isp, braking, t, 5 * s);
    lemma_div_is_ordered(-(t * (5 * s)), craft.fuel_isp * braking, s);
    lemma_div_is_ordered(craft.fuel_isp * braking, t * (5 * s), s);
    let push = craft.fuel_isp * braking / s;
    assert(-(t * 5) <= push <= t * 5);
    assert(product(Some(craft.fuel_isp), Some(braking)) == Some(push));
    let pull = GRAVITY * time / s;
    assert(GRAVITY * time == 1_000_000_000_000 * time);
    assert(0 <= pull <= t);
    assert(product(Some(GRAVITY as int), Some(time)) == Some(pull));
    lemma_product_within(time, time, t, t);
    lemma_product_not_negative(time, time);
    let square = time * time / s;
    lemma_div_is_ordered(0, time * time, s);
    lemma_div_is_ordered(time * time, t * t, s);
    assert(0 <= square <= t * 1000);
    let half = square * s / (2 * s);
    assert(half == square / 2);
    let fall = 1_000_000_000_000 * half / s;
    assert(0 <= fall <= t);
    lemma_product_within(craft.phys.velocity, time, t, t);
    lemma_div_is_ordered(-(t * t), craft.phys.velocity * time, s);
    lemma_div_is_ordered(craft.phys.velocity * time, t * t, s);
    let drift = craft.phys.velocity * time / s;
    assert(-(t * 1000) <= drift <= t * 1000);
    lemma_product_within(craft.fuel_isp, time, t, t);
    lemma_product_not_negative(craft.fuel_isp, time);
    let reach = craft.fuel_isp * time / s;
    lemma_div_is_ordered(0, craft.fuel_isp * time, s);
    lemma_div_is_ordered(craft.fuel_isp * time, t * t, s);
    assert(0 <= reach <= t * 1000);
    lemma_product_within(reach, lifting, t * 1000, s);
    lemma_product_not_negative(reach, lifting);
    let rise = reach * lifting / s;
    lemma_div_is_ordered(0, reach * lifting, s);
    lemma_div_is_ordered(reach * lifting, (t * 1000) * s, s);
    assert(0 <= rise <= t * 1000);
    assert(product(Some(time), Some(time)) == Some(square));
    assert(product(Some(1_000_000_000_000int), Some(half)) == Some(fall));
    assert(product(Some(craft.phys.velocity), Some(time)) == Some(drift));
    assert(product(Some(craft.fuel_isp), Some(time)) == Some(reach));
    assert(product(Some(reach), Some(lifting)) == Some(rise));
}

/// Inside the envelope, a burn at a rate that is not negative for a time
/// that the clamp granted is integrated: its motion can be represented.
pub proof fn lemma_dynamics_defined(craft: Craft, rate: int, time: int)
    requires
        in_envelope(craft),
        craft.capsule_mass >= 0,
        craft.total_mass > 0,
        rate >= 0,
        0 <= time <= LONGEST_BURN,
    ensures
        craft.burn_time(rate, time) matches Some(granted) ==> craft.dynamics(rate, granted) is Some,
{
    if let Some(granted) = craft.burn_time(rate, time) {
        crate::laws::lemma_granted_fraction(craft, rate, time);
        if rate > 0 {
            lemma_burn_within_fuel(craft.fuel, rate, time);
        }
        let q = craft.mass_fraction(rate, granted)->0;
        lemma_motion_defined(craft, granted, q);
    }
}

/// Inside the envelope, under an allowed burn rate and with no more than a
/// period to go, the next step is decided: always where the burn does not
/// reverse the velocity, and where it does if the correction is in range,
/// lasts no longer than [`LONGEST_BURN`] and burns no more than the craft
/// weighs.
pub proof fn lemma_course_defined(craft: Craft, rate: int, left: int)
    requires
        in_envelope(craft),
        craft.capsule_mass >= 0,
        craft.total_mass > 0,
        0 <= rate <= MAX_BURN_RATE,
        left <= PERIOD,
        reverses(craft, rate, left) ==> correction_in_range(
            craft.total_mass,
            craft.phys.velocity,
            rate,
            craft.fuel_isp,
        ) && (craft.upward_burn_time(rate) matches Some(turn) ==> turn <= LONGEST_BURN && rate
            * turn <= craft.total_mass * SCALE),
    ensures
        course(craft, rate, left) is Some,
{
    if !craft.out_of_fuel() && left > PERIOD_SLACK {
        let s = SCALE as int;
        lemma_product_within(rate, left, 200_000_000_000_000_000, 10_000_000_000_000_000);
        lemma_product_not_negative(rate, left);
        lemma_div_is_ordered(0, rate * left, s);
        lemma_burn_time_defined(craft, rate, left);
        lemma_dynamics_defined(craft, rate, left);
        if reverses(craft, rate, left) {
            lemma_correction_defined(craft.total_mass, craft.phys.velocity, rate, craft.fuel_isp);
            let time = craft.upward_burn_time(rate)->0;
            let m = craft.total_mass;
            lemma_product_within(rate, time, 200_000_000_000_000_000, 1_000_000_000_000_000_000);
            lemma_product_not_negative(rate, time);
            let used = rate * time / s;
            lemma_div_is_ordered(0, rate * time, s);
            lemma_div_is_ordered(rate * time, m * s, s);
            lemma_div_is_ordered(
                rate * time,
                200_000_000_000_000_000int * 1_000_000_000_000_000_000,
                s,
            );
            assert(m * s / s == m) by (nonlinear_arith)
                requires
                    s > 0,
            ;
            assert(0 <= used <= m);
            assert(0 <= used * s <= m * s) by (nonlinear_arith)
                requires
                    0 <= used <= m,
                    s > 0,
            ;
            lemma_div_is_ordered(0, used * s, m);
            lemma_div_is_ordered(used * s, m * s, m);
            assert(0int / m == 0 && m * s / m == s) by (nonlinear_arith)
                requires
                    m > 0,
                    s > 0,
            ;
            let q = used * s / m;
            assert(craft.mass_fraction(rate, time) == Some(q));
            lemma_motion_defined(craft, time, q);
        }
    }
}

/// Where the correction of a burn time succeeds: for a mass between one
/// and a hundred thousand, a velocity of at most a thousand towards the
/// surface, an exhaust velocity between a tenth and a hundred, a burn rate
/// between a tenth and a thousand, and a weight of no more than a thousand
/// times the thrust, the corrected burn time can be represented.
pub open spec fn correction_in_range(total_mass: int, velocity: int, rate: int, exhaust_velocity: int) -> bool {
    &&& SCALE <= total_mass <= 100_000 * SCALE
    &&& 0 < velocity <= 1000 * SCALE
    &&& 100_000_000_000_000 <= exhaust_velocity <= 100 * SCALE
    &&& 100_000_000_000_000 <= rate <= 1000 * SCALE
    &&& total_mass * GRAVITY / (SCALE as int) <= 1000 * (exhaust_velocity * rate / (SCALE as int))
}

/// Inside the range of [`correction_in_range`] the corrected burn time can
/// be represented; by [`crate::laws::lemma_correction_is_past_the_margin`]
/// it is past its margin.
pub proof fn lemma_correction_defined(total_mass: int, velocity: int, rate: int, exhaust_velocity: int)
    requires
        correction_in_range(total_mass, velocity, rate, exhaust_velocity),
    ensures
        apex_time(total_mass, velocity, rate, exhaust_velocity) matches Some(time) && time
            > APEX_MARGIN,
{
    let s: int = 1_000_000_000_000_000;
    let m = total_mass;
    let v = velocity;
    let r = rate;
    let c = exhaust_velocity;
    // thrust and weight
    lemma_product_within(c, r, 100 * s, 1000 * s);
    lemma_product_not_negative(c, r);
    assert(c * r >= 100_000_000_000_000 * 100_000_000_000_000) by (nonlinear_arith)
        requires
            c >= 100_000_000_000_000,
            r >= 100_000_000_000_000,
    ;
    let thrust = c * r / s;
    lemma_div_is_ordered(100_000_000_000_000int * 100_000_000_000_000, c * r, s);
    lemma_div_is_ordered(c * r, (100 * s) * (1000 * s), s);
    assert(10_000_000_000_000 <= thrust <= 100_000 * s);
    assert(product(Some(c), Some(r)) == Some(thrust));
    assert(m * GRAVITY == 1_000_000_000_000 * m);
    let weight = m * GRAVITY / s;
    assert(1_000_000_000_000 <= weight <= 100 * s);
    assert(product(Some(m), Some(GRAVITY as int)) == Some(weight));
    // the factor
    let share = weight * s / thrust;
    lemma_floor(weight * s, thrust);
    assert(0 <= share <= 1000 * s) by (nonlinear_arith)
        requires
            thrust > 0,
            0 <= weight <= 1000 * thrust,
            s > 0,
            thrust * share <= weight * s < thrust * share + thrust,
    ;
    assert(quotient(Some(weight), Some(thrust)) == Some(share));
    let gap = s - share;
    assert(difference(whole(1), Some(share)) == Some(gap));
    let factor = gap * s / (2 * s);
    assert(factor == gap / 2) by {
        lemma_floor(gap, 2);
        let rest = gap - 2 * (gap / 2);
        assert(gap * s == (gap / 2) * (2 * s) + rest * s);
        vstd::arithmetic::div_mod::lemma_fundamental_div_mod_converse(
            gap * s,
            2 * s,
            gap / 2,
            rest * s,
        );
    }
    assert(-(500 * s) <= factor <= s);
    assert(quotient(Some(gap), whole(2)) == Some(factor));
    assert(thrust_factor(m, r, c) == Some(factor));
    // the spread
    lemma_product_within(factor, factor, 500 * s, 500 * s);
    assert(0 <= factor * factor) by (nonlinear_arith);
    let square = factor * factor / s;
    lemma_div_is_ordered(0, factor * factor, s);
    lemma_div_is_ordered(factor * factor, (500 * s) * (500 * s), s);
    assert(0 <= square <= 250_000 * s);
    assert(product(Some(factor), Some(factor)) == Some(square));
    lemma_quotient_up_bounds(v, c);
    let ratio = -((-v) * s / c);
    lemma_floor((-v) * s, c);
    assert(1 <= ratio <= 10_000 * s + 1) by (nonlinear_arith)
        requires
            0 < v <= 1000 * s,
            c >= 100_000_000_000_000,
            s == 1_000_000_000_000_000,
            c * (-ratio) <= (-v) * s < c * (-ratio) + c,
    ;
    assert(quotient_up(Some(v), Some(c)) == Some(ratio));
    let radicand = square + ratio;
    assert(sum(Some(square), Some(ratio)) == Some(radicand));
    lemma_root_up_bounds(radicand);
    let spread = root_up(Some(radicand))->0;
    assert(1000 < spread <= 1000 * s) by (nonlinear_arith)
        requires
            0 <= spread,
            spread == 0 || (spread - 1) * (spread - 1) < radicand * s,
            radicand * s <= spread * spread,
            1 <= radicand <= 260_001 * s,
            s == 1_000_000_000_000_000,
    ;
    assert(thrust_spread(m, v, r, c) == Some(spread));
    if factor < 0 {
        let reach = spread - factor;
        assert(difference(Some(spread), Some(factor)) == Some(reach));
        lemma_product_within(m, reach, 100_000 * s, 1500 * s);
        lemma_product_not_negative(m, reach);
        let weighed = m * reach / s;
        lemma_div_is_ordered(0, m * reach, s);
        lemma_div_is_ordered(m * reach, (100_000 * s) * (1500 * s), s);
        assert(0 <= weighed <= 150_000_000 * s);
        assert(product(Some(m), Some(reach)) == Some(weighed));
        lemma_turn_fits(weighed, r);
    } else {
        lemma_product_within(m, v, 100_000 * s, 1000 * s);
        lemma_product_not_negative(m, v);
        let momentum = m * v / s;
        lemma_div_is_ordered(0, m * v, s);
        lemma_div_is_ordered(m * v, (100_000 * s) * (1000 * s), s);
        assert(0 <= momentum <= 100_000_000 * s);
        assert(product(Some(m), Some(v)) == Some(momentum));
        let wide = factor + spread;
        assert(sum(Some(factor), Some(spread)) == Some(wide));
        lemma_product_within(thrust, wide, 100_000 * s, 1001 * s);
        assert(thrust * wide >= 10_000_000_000_000 * 1000) by (nonlinear_arith)
            requires
                thrust >= 10_000_000_000_000,
                wide >= 1000,
        ;
        let held = thrust * wide / s;
        lemma_div_is_ordered(10_000_000_000_000int * 1000, thrust * wide, s);
        lemma_div_is_ordered(thrust * wide, (100_000 * s) * (1001 * s), s);
        assert(10 <= held);
        assert(product(Some(thrust), Some(wide)) == Some(held));
        lemma_turn_fits(momentum, held);
    }
    crate::laws::lemma_correction_is_past_the_margin(m, v, r, c);
    assert(apex_time(m, v, r, c) is Some);
}

/// A quotient that is rounded up, of a dividend of at most a hundred and
/// fifty million by a positive divisor, can be represented, and so can it
/// with a margin.
proof fn lemma_turn_fits(a: int, b: int)
    requires
        0 <= a <= 150_000_000 * SCALE,
        b > 0,
    ensures
        quotient_up(Some(a), Some(b)) matches Some(q) && 0 <= q <= 150_000_000 * SCALE * SCALE,
{
    let s = SCALE as int;
    lemma_floor((-a) * s, b);
    let q = -((-a) * s / b);
    assert(0 <= q <= a * s) by (nonlinear_arith)
        requires
            0 <= a,
            b >= 1,
            s > 0,
            b * (-q) <= (-a) * s < b * (-q) + b,
    ;
    assert(a * s <= 150_000_000 * s * s) by (nonlinear_arith)
        requires
            a <= 150_000_000 * s,
            s > 0,
    ;
    assert(150_000_000 * s * s == 150_000_000_000_000_000_000_000_000_000_000_000_000int);
}

/// Inside the envelope, a step forward in time at a rate that is not
/// negative is committed if the fuel that it burns can be represented.
pub proof fn lemma_step_defined(craft: Craft, rate: int, time: int, next: Motion)
    requires
        in_envelope(craft),
        rate >= 0,
        0 <= time <= LONGEST_BURN,
        product(Some(rate), Some(time)) is Some,
    ensures
        craft.advanced(rate, time, next) is Some,
{
    lemma_product_not_negative(rate, time);
    lemma_div_is_ordered(0, rate * time, SCALE as int);
}

/// Inside the envelope, a craft at or above the surface falls to it: its
/// fall can be represented, and it reaches the surface at the velocity
/// `sqrt(v^2 + 2 g h)`, rounded down, that its energy gives it, or at the
/// velocity it has where the rounding would make it slower.
pub proof fn lemma_fall_defined(craft: Craft)
    requires
        in_envelope(craft),
        craft.phys.altitude >= 0,
    ensures
        ({
            let reach = root(
                sum(
                    product(Some(craft.phys.velocity), Some(craft.phys.velocity)),
                    product(Some(2 * craft.phys.altitude), Some(GRAVITY as int)),
                ),
            );
            &&& reach is Some
            &&& craft.fallen() matches Some(down)
            &&& down.phys.velocity <= 2_000_000_000_000_000_000
            &&& down.phys.velocity == if reach->0 > craft.phys.velocity {
                reach->0
            } else {
                craft.phys.velocity
            }
        }),
{
    let s = SCALE as int;
    let g = GRAVITY as int;
    let t: int = 1_000_000_000_000_000_000;
    let v = craft.phys.velocity;
    let h = craft.phys.altitude;
    lemma_product_within(v, v, t, t);
    assert(0 <= v * v) by (nonlinear_arith);
    let square = v * v / s;
    lemma_div_is_ordered(0, v * v, s);
    lemma_div_is_ordered(v * v, t * t, s);
    assert(0 <= square <= t * 1000);
    assert(product(Some(v), Some(v)) == Some(square));
    let twice = 2 * s * h / s;
    assert(twice == 2 * h) by {
        vstd::arithmetic::div_mod::lemma_div_multiples_vanish(2 * h, s);
        assert(2 * s * h == s * (2 * h)) by (nonlinear_arith);
    }
    assert(product(whole(2), Some(h)) == Some(twice));
    let span = twice * g / s;
    assert(twice * g == 1_000_000_000_000 * twice);
    assert(0 <= span <= 2 * t);
    assert(product(Some(twice), Some(g)) == Some(span));
    let radicand = square + span;
    assert(sum(Some(square), Some(span)) == Some(radicand));
    lemma_floor_sqrt_exists((radicand * s) as nat);
    let reach = floor_sqrt(radicand * s);
    assert(reach <= 2 * t) by (nonlinear_arith)
        requires
            0 <= reach,
            reach * reach <= radicand * s,
            radicand * s <= 1_002_000_000_000_000_000_000 * 1_000_000_000_000_000,
            t == 1_000_000_000_000_000_000,
    ;
    assert(root(Some(radicand)) == Some(reach));
    assert(opposite(Some(v)) == Some(-v));
    let gap = -v + reach;
    assert(sum(Some(-v), Some(reach)) == Some(gap));
    let whole_time = gap * s / g;
    assert(whole_time == gap * 1000);
    assert(quotient(Some(gap), Some(g)) == Some(whole_time));
    let time = if whole_time < 0 {
        0
    } else {
        whole_time
    };
    assert(craft.fall_time() == Some(time));
    let gain = g * time / s;
    assert(g * time == 1_000_000_000_000 * time);
    assert(gain == if gap < 0 {
        0
    } else {
        gap
    });
    assert(product(Some(g), Some(time)) == Some(gain));
}

/// Inside the envelope, a craft that is out of fuel at or above the
/// surface comes down in this period, whatever the command is.
pub proof fn lemma_out_of_fuel_lands(craft: Craft, rate: int, left: int)
    requires
        in_envelope(craft),
        craft.phys.altitude >= 0,
        craft.out_of_fuel(),
    ensures
        run(craft, rate, left) matches Ok((down, ending)) && ending is OutOfFuel && down.fuel
            == craft.fuel,
{
    lemma_fall_defined(craft);
    let down = craft.fallen()->0;
    assert(down.phys.velocity * SPEED_PER_VELOCITY == 3_600_000_000_000_000_000 * down.phys.velocity);
}

} // verus!
