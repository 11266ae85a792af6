//! Where a period and the refinement of an impact succeed.
//!
//! Without thrust the refinement of an impact is short. For a craft that is
//! at most four hundred above the surface, does not move away from it and
//! is to reach it at two millionths or more, the first estimate of the time
//! to the surface takes the craft to within 2103 units of the last digit of
//! the surface, and a second estimate ends the refinement: see
//! [`lemma_landing_defined`]. The craft arrives at the velocity that its
//! energy gives it, `sqrt(v^2 + 2 g h)`.
//!
//! Under thrust less is shown. [`lemma_estimate_defined_under_thrust`]
//! says where one estimate exists: a craft whose thrust outweighs gravity
//! may never reach the surface at its present acceleration, and then there
//! is none. [`lemma_refinement_ends_on_an_estimate`] says what a refined
//! impact is where there is one. [`lemma_period_defined`] covers a period
//! whose burn keeps the craft above the surface and does not reverse its
//! velocity. [`lemma_coasting_period_defined`] covers every period without
//! thrust.

use vstd::prelude::*;
use vstd::arithmetic::div_mod::lemma_div_is_ordered;
use crate::envelope::{
    in_envelope, lemma_burn_time_defined, lemma_course_defined, lemma_dynamics_defined,
    lemma_motion_defined, lemma_out_of_fuel_lands, lemma_product_not_negative,
    lemma_product_within, lemma_step_defined,
};
use crate::fixed::{SCALE, difference, lemma_floor, lemma_root_bounds, product, quotient, root, sum};
use crate::lander::{Craft, GRAVITY, IMPACT_TOLERANCE, Motion, REFINEMENT_LIMIT};
use crate::laws::{
    lemma_allowed_burn_advances, lemma_burn_within_fuel, lemma_clamped_burn_ends_in_free_fall,
    lemma_coasting, lemma_step_keeps_craft_sound,
};
use crate::series::whole;
use crate::stepper::{
    Course, Ending, MAX_BURN_RATE, PERIOD, PERIOD_SLACK, candidate, course, crashed, reverses,
    run,
};

verus! {

/// The crafts that the laws of this module speak of: inside the envelope,
/// with a positive mass, not moving away from the surface, and at an
/// altitude of at most four hundred.
pub open spec fn in_free_fall(craft: Craft) -> bool {
    &&& in_envelope(craft)
    &&& craft.total_mass > 0
    &&& 0 <= craft.phys.velocity
    &&& 0 <= craft.phys.altitude <= 400 * SCALE
}

/// The square of the velocity at which a craft in free fall reaches the
/// surface: `v^2 + 2 g h`.
pub open spec fn impact_energy(craft: Craft) -> int {
    craft.phys.velocity * craft.phys.velocity + 2 * GRAVITY * craft.phys.altitude
}

/// The least impact energy for which one estimate is shown to be defined:
/// that of an impact at a millionth.
pub open spec fn least_energy() -> int {
    1_000_000_000_000_000_000
}

/// The root under the estimate of the time to the surface, without thrust:
/// the square root of `v^2 + 2 g h`, rounded down after each product is.
pub open spec fn impact_root(craft: Craft) -> Option<int> {
    root(
        sum(
            product(Some(craft.phys.velocity), Some(craft.phys.velocity)),
            product(Some(2 * craft.phys.altitude), Some(GRAVITY as int)),
        ),
    )
}

/// Without thrust, the estimate of the time to the surface of a craft in
/// free fall whose impact energy is at least [`least_energy`] can be
/// represented; it is not negative and at most a thousand; the root under it
/// is the square root of the energy to within the loss of two products and
/// of the root, and at least 0.000000998.
pub proof fn lemma_estimate_defined(craft: Craft)
    requires
        in_free_fall(craft),
        impact_energy(craft) >= least_energy(),
    ensures
        ({
            let v = craft.phys.velocity;
            let h = craft.phys.altitude;
            let energy = v * v + 2 * GRAVITY * h;
            &&& impact_root(craft) matches Some(w)
            &&& craft.time_to_surface(0) matches Some(time)
            &&& 998_000_000 <= w <= 1_100_000_000_000_000_000
            &&& w * w <= energy < (w + 1) * (w + 1) + 2 * SCALE
            &&& 0 <= time <= 1_000_000_000_000_000_000
            &&& (v + w) * time <= 2 * h * SCALE < (v + w) * time + 2 * (v + w)
            &&& h <= 2103 ==> time <= 5_000_000_000
        }),
{
    let s: int = 1_000_000_000_000_000;
    let g: int = 1_000_000_000_000;
    let v = craft.phys.velocity;
    let h = craft.phys.altitude;
    let m = craft.total_mass;
    // no thrust
    assert(0int * s / m == 0) by (nonlinear_arith)
        requires
            m != 0,
    ;
    assert(quotient(Some(0int), Some(m)) == Some(0int));
    assert(craft.fuel_isp * 0 == 0) by (nonlinear_arith);
    assert(product(Some(craft.fuel_isp), Some(0int)) == Some(0int));
    assert(difference(Some(GRAVITY as int), Some(0int)) == Some(g));
    // the root
    lemma_product_within(v, v, 1000 * s, 1000 * s);
    lemma_product_not_negative(v, v);
    let square = v * v / s;
    lemma_floor(v * v, s);
    lemma_div_is_ordered(0, v * v, s);
    lemma_div_is_ordered(v * v, (1000 * s) * (1000 * s), s);
    assert(0 <= square <= 1_000_000 * s);
    assert(product(Some(v), Some(v)) == Some(square));
    let twice = 2 * s * h / s;
    assert(twice == 2 * h) by {
        vstd::arithmetic::div_mod::lemma_div_multiples_vanish(2 * h, s);
        assert(2 * s * h == s * (2 * h)) by (nonlinear_arith);
    }
    assert(product(whole(2), Some(h)) == Some(twice));
    assert(twice * g == 1_000_000_000_000 * twice);
    let span = twice * g / s;
    lemma_floor(twice * g, s);
    assert(0 <= span <= s);
    assert(product(Some(twice), Some(g)) == Some(span));
    let radicand = square + span;
    assert(sum(Some(square), Some(span)) == Some(radicand));
    assert(radicand * s == square * s + span * s) by (nonlinear_arith)
        requires
            radicand == square + span,
    ;
    lemma_root_bounds(radicand);
    let w = root(Some(radicand))->0;
    let energy = v * v + 2 * GRAVITY * h;
    assert(2 * GRAVITY * h == twice * g);
    assert(energy - 2 * s < radicand * s <= energy);
    if w < 998_000_000 {
        assert((w + 1) * (w + 1) <= 998_000_000 * 998_000_000) by (nonlinear_arith)
            requires
                0 <= w + 1 <= 998_000_000,
        ;
        assert(false);
    }
    assert(w <= 1_100_000_000_000_000_000) by (nonlinear_arith)
        requires
            0 <= w,
            w * w <= 1_000_001_000_000_000_000_000_000_000_000_000_000,
    ;
    // the quotient
    let speed = v + w;
    assert(sum(Some(v), Some(w)) == Some(speed));
    lemma_product_not_negative(h, s);
    let part = h * s / speed;
    lemma_floor(h * s, speed);
    lemma_div_is_ordered(0, h * s, speed);
    assert(0int / speed == 0) by (nonlinear_arith)
        requires
            speed > 0,
    ;
    if h <= 2103 {
        assert(part <= 2_500_000_000) by (nonlinear_arith)
            requires
                speed >= 998_000_000,
                speed * part <= h * s,
                h <= 2103,
                s == 1_000_000_000_000_000,
        ;
    } else if h <= 1_000_000 {
        assert(part <= 1_100_000_000_000) by (nonlinear_arith)
            requires
                speed >= 998_000_000,
                speed * part <= h * s,
                h <= 1_000_000,
                s == 1_000_000_000_000_000,
        ;
    } else {
        assert(450 * (w + 1) > h) by (nonlinear_arith)
            requires
                0 <= w,
                1_000_000 < h <= 400_000_000_000_000_000,
                (w + 1) * (w + 1) > 2_000_000_000_000 * h - 2_000_000_000_000_000,
        ;
        assert(part <= 500_000_000_000_000_000) by (nonlinear_arith)
            requires
                speed >= w,
                0 <= w,
                450 * (w + 1) > h,
                speed * part <= h * s,
                1_000_000 < h,
                s == 1_000_000_000_000_000,
        ;
    }
    assert(quotient(Some(h), Some(speed)) == Some(part));
    let time = 2 * s * part / s;
    assert(time == 2 * part) by {
        vstd::arithmetic::div_mod::lemma_div_multiples_vanish(2 * part, s);
        assert(2 * s * part == s * (2 * part)) by (nonlinear_arith);
    }
    assert(product(whole(2), Some(part)) == Some(time));
    assert(craft.time_to_surface(0) == Some(time));
    assert(speed * time == 2 * (speed * part) && 2 * h * s == 2 * (h * s)) by (nonlinear_arith)
        requires
            time == 2 * part,
    ;
}

/// How far the estimate is from the time of the fall: with `w` the root
/// under the estimate, `t` the estimate and `d = S (w - v) - g t`, `d` is
/// below `2 g`, `w d` is above `-S (2 w + 1 + 2 S)`, and `t` is at most
/// `1003 w`.
proof fn lemma_estimate_is_close(v: int, h: int, w: int, t: int)
    requires
        0 <= v,
        0 <= t,
        998_000_000 <= w,
        w * w <= v * v + 2 * GRAVITY * h < (w + 1) * (w + 1) + 2 * SCALE,
        (v + w) * t <= 2 * h * SCALE < (v + w) * t + 2 * (v + w),
    ensures
        SCALE * (w - v) - GRAVITY * t < 2 * GRAVITY,
        w * (SCALE * (w - v) - GRAVITY * t) > -SCALE * (2 * w + 1 + 2 * SCALE),
        t <= 1003 * w,
{
    let speed = v + w;
    let d = 1_000_000_000_000_000 * (w - v) - 1_000_000_000_000 * t;
    let gap = w * w - v * v;
    let reach = speed * t;
    assert(speed * d == 1_000_000_000_000_000 * gap - 1_000_000_000_000 * reach)
        by (nonlinear_arith)
        requires
            speed == v + w,
            d == 1_000_000_000_000_000 * (w - v) - 1_000_000_000_000 * t,
            gap == w * w - v * v,
            reach == speed * t,
    ;
    assert((w + 1) * (w + 1) == w * w + 2 * w + 1) by (nonlinear_arith);
    assert(2 * GRAVITY * h == 2_000_000_000_000 * h);
    assert(2 * h * SCALE == 2_000_000_000_000_000 * h);
    assert(gap <= 2_000_000_000_000 * h);
    assert(gap > 2_000_000_000_000 * h - 2 * w - 1 - 2_000_000_000_000_000);
    assert(reach <= 2_000_000_000_000_000 * h < reach + 2 * speed);
    assert(speed * d < 2_000_000_000_000 * speed);
    assert(speed * d > -1_000_000_000_000_000 * (2 * w + 1 + 2_000_000_000_000_000));
    assert(d < 2_000_000_000_000) by (nonlinear_arith)
        requires
            speed > 0,
            speed * d < 2_000_000_000_000 * speed,
    ;
    assert(w * d >= speed * d || d >= 0) by (nonlinear_arith)
        requires
            speed >= w,
            w >= 0,
    ;
    assert(w * d >= 0 || d < 0) by (nonlinear_arith)
        requires
            w >= 0,
    ;
    if t > 1003 * w {
        assert(reach >= w * t) by (nonlinear_arith)
            requires
                reach == speed * t,
                speed >= w,
                t >= 0,
        ;
        assert(w * t >= 1003 * (w * w)) by (nonlinear_arith)
            requires
                t >= 1003 * w,
                w >= 0,
        ;
        assert(3 * (w * w) >= 2_994_000_000 * w) by (nonlinear_arith)
            requires
                w >= 998_000_000,
        ;
        assert(false);
    }
}

/// The altitude after a fall for the estimated time, from what rounding
/// leaves of the terms `t^2`, `g t^2 / 2` and `v t`.
proof fn lemma_altitude_after_the_fall(
    v: int,
    h: int,
    w: int,
    t: int,
    squared: int,
    half: int,
    fall: int,
    drift: int,
)
    requires
        0 <= v,
        0 <= t <= 1_000_000_000_000_000_000,
        t <= 1003 * w,
        998_000_000 <= w,
        v + w <= 2_100_000_000_000_000_000,
        (v + w) * t <= 2_000_000_000_000_000 * h < (v + w) * t + 2 * (v + w),
        1_000_000_000_000_000 * (w - v) - 1_000_000_000_000 * t < 2_000_000_000_000,
        w * (1_000_000_000_000_000 * (w - v) - 1_000_000_000_000 * t) > -1_000_000_000_000_000
            * (2 * w + 1 + 2_000_000_000_000_000),
        1_000_000_000_000_000 * squared <= t * t < 1_000_000_000_000_000 * squared
            + 1_000_000_000_000_000,
        2 * half <= squared <= 2 * half + 1,
        1_000_000_000_000_000 * fall <= 1_000_000_000_000 * half < 1_000_000_000_000_000 * fall
            + 1_000_000_000_000_000,
        1_000_000_000_000_000 * drift <= v * t < 1_000_000_000_000_000 * drift
            + 1_000_000_000_000_000,
    ensures
        -2007 <= h - fall - drift <= 2103,
{
    let d = 1_000_000_000_000_000 * (w - v) - 1_000_000_000_000 * t;
    let speed = v + w;
    let reach = speed * t;
    let tt = t * t;
    let vt = v * t;
    let low = h - fall - drift;
    let pull = w * d;
    // 2 S^2 / g times each rounded term against the exact one
    assert(2_000 * fall <= squared);
    assert(2_000_000_000_000_000_000 * fall <= tt);
    assert(2_000 * fall > squared - 2001);
    assert(2_000_000_000_000_000_000 * fall > tt - 2_002_000_000_000_000_000);
    let rest = 2_000_000_000_000_000_000 * h - tt - 2_000 * vt;
    assert(rest <= 2_000_000_000_000_000_000 * low);
    assert(2_000_000_000_000_000_000 * low < rest + 4_002_000_000_000_000_000);
    assert(t * d == 1_000_000_000_000_000 * reach - 1_000_000_000_000 * tt
        - 2_000_000_000_000_000 * vt) by (nonlinear_arith)
        requires
            speed == v + w,
            reach == speed * t,
            tt == t * t,
            vt == v * t,
            d == 1_000_000_000_000_000 * (w - v) - 1_000_000_000_000 * t,
    ;
    assert(t * d <= 1_000_000_000_000 * rest);
    assert(1_000_000_000_000 * rest < t * d + 2_000_000_000_000_000 * speed);
    // from above
    assert(t * d <= t * 2_000_000_000_000) by (nonlinear_arith)
        requires
            0 <= t,
            d < 2_000_000_000_000,
    ;
    assert(low <= 2103);
    // from below
    if d < 0 {
        let floor = 2_000_000_000_000_000_000_000_000_000_000 * low;
        assert(floor >= t * d);
        if w <= 1_000_000_000_000_000 {
            assert(t * d >= 1003 * pull) by (nonlinear_arith)
                requires
                    pull == w * d,
                    d < 0,
                    t <= 1003 * w,
            ;
        } else {
            assert(t * d >= 1_000_000_000_000_000_000 * d) by (nonlinear_arith)
                requires
                    d < 0,
                    t <= 1_000_000_000_000_000_000,
            ;
            assert(2_000_000_000_000 * low >= d);
            assert(w * (2_000_000_000_000 * low) >= pull) by (nonlinear_arith)
                requires
                    pull == w * d,
                    w >= 0,
                    2_000_000_000_000 * low >= d,
            ;
            assert(w * (2_000_000_000_000 * low) == 2_000_000_000_000 * (w * low))
                by (nonlinear_arith);
            assert(w * low > -2001 * w);
            assert(low > -2001) by (nonlinear_arith)
                requires
                    w > 0,
                    w * low > -2001 * w,
            ;
        }
    } else {
        assert(t * d >= 0) by (nonlinear_arith)
            requires
                0 <= t,
                0 <= d,
        ;
    }
}

/// Without thrust, a burn for the estimated time to the surface takes a
/// craft in free fall whose impact energy is at least [`least_energy`] to
/// the surface: the step is committed, masses and exhaust velocity are kept,
/// the clock moves by the estimate, the craft is within 2103 units of the
/// last digit above and 2007 below the surface, and its velocity `u` is the
/// root `w` under the estimate to within one such unit below and
/// `2 + 2 S / w` above.
pub proof fn lemma_fall_reaches_the_surface(craft: Craft)
    requires
        in_free_fall(craft),
        impact_energy(craft) >= least_energy(),
    ensures
        ({
            &&& impact_root(craft) matches Some(w)
            &&& craft.time_to_surface(0) matches Some(time)
            &&& craft.stepped(0, time) matches Some(next)
            &&& next.capsule_mass == craft.capsule_mass
            &&& next.fuel == craft.fuel
            &&& next.total_mass == craft.total_mass
            &&& next.fuel_isp == craft.fuel_isp
            &&& next.phys.elapsed_time == craft.phys.elapsed_time + time
            &&& w - 1 <= next.phys.velocity
            &&& w * (next.phys.velocity - w - 2) <= 2 * SCALE
            &&& -2007 <= next.phys.altitude <= 2103
        }),
{
    let s: int = 1_000_000_000_000_000;
    let g: int = 1_000_000_000_000;
    let v = craft.phys.velocity;
    let h = craft.phys.altitude;
    lemma_estimate_defined(craft);
    let w = impact_root(craft)->0;
    let t = craft.time_to_surface(0)->0;
    lemma_estimate_is_close(v, h, w, t);
    let d = s * (w - v) - g * t;
    // the step is committed
    assert(0 * t == 0) by (nonlinear_arith);
    assert(product(Some(0int), Some(t)) == Some(0int));
    assert(0int / craft.total_mass == 0) by (nonlinear_arith)
        requires
            craft.total_mass != 0,
    ;
    assert(craft.mass_fraction(0, t) == Some(0int));
    lemma_motion_defined(craft, t, 0);
    let motion = craft.dynamics(0, t)->0;
    assert(craft.dynamics(0, t) == Some(motion));
    lemma_step_defined(craft, 0, t, motion);
    lemma_coasting(craft, t);
    let next = craft.stepped(0, t)->0;
    assert(difference(Some(craft.fuel), Some(0int)) == Some(craft.fuel));
    // the velocity
    let gain = g * t / s;
    lemma_floor(g * t, s);
    let u = v + gain;
    assert(next.phys.velocity == u);
    assert(w - 1 <= u);
    assert(d <= 1_000_000_000_000_000 * (w - u));
    assert(w * d <= 1_000_000_000_000_000 * (w * (w - u))) by (nonlinear_arith)
        requires
            w >= 0,
            d <= 1_000_000_000_000_000 * (w - u),
    ;
    assert(w * (u - w - 2) == -(w * (w - u)) - 2 * w) by (nonlinear_arith);
    // the altitude
    let squared = t * t / s;
    let half = squared / 2;
    let fall = g * half / s;
    let drift = v * t / s;
    lemma_floor(t * t, s);
    lemma_floor(g * half, s);
    lemma_floor(v * t, s);
    assert(next.phys.altitude == h - fall - drift);
    lemma_altitude_after_the_fall(v, h, w, t, squared, half, fall, drift);
}

/// Without thrust, the estimate of the time to the surface of a craft that
/// is at most 2007 units of the last digit below the surface and falls at
/// 0.0000009 at least can be represented, and is negative.
pub proof fn lemma_estimate_below_the_surface(craft: Craft)
    requires
        in_envelope(craft),
        craft.total_mass > 0,
        900_000_000 <= craft.phys.velocity,
        -2007 <= craft.phys.altitude < 0,
    ensures
        craft.time_to_surface(0) matches Some(time) && time < 0,
{
    let s: int = 1_000_000_000_000_000;
    let g: int = 1_000_000_000_000;
    let v = craft.phys.velocity;
    let h = craft.phys.altitude;
    let m = craft.total_mass;
    assert(0int * s / m == 0) by (nonlinear_arith)
        requires
            m != 0,
    ;
    assert(quotient(Some(0int), Some(m)) == Some(0int));
    assert(craft.fuel_isp * 0 == 0) by (nonlinear_arith);
    assert(product(Some(craft.fuel_isp), Some(0int)) == Some(0int));
    assert(difference(Some(GRAVITY as int), Some(0int)) == Some(g));
    lemma_product_within(v, v, 1000 * s, 1000 * s);
    assert(v * v >= 900_000_000 * 900_000_000) by (nonlinear_arith)
        requires
            v >= 900_000_000,
    ;
    let square = v * v / s;
    lemma_floor(v * v, s);
    assert(square >= 810);
    assert(product(Some(v), Some(v)) == Some(square));
    let twice = 2 * s * h / s;
    assert(twice == 2 * h) by {
        vstd::arithmetic::div_mod::lemma_div_multiples_vanish(2 * h, s);
        assert(2 * s * h == s * (2 * h)) by (nonlinear_arith);
    }
    assert(product(whole(2), Some(h)) == Some(twice));
    assert(twice * g == 1_000_000_000_000 * twice);
    let span = twice * g / s;
    lemma_floor(twice * g, s);
    assert(product(Some(twice), Some(g)) == Some(span));
    let radicand = square + span;
    assert(sum(Some(square), Some(span)) == Some(radicand));
    assert(0 <= radicand <= 1_000_000 * s);
    assert(radicand * s <= 1_000_000 * s * s) by (nonlinear_arith)
        requires
            radicand <= 1_000_000 * s,
            s > 0,
    ;
    lemma_root_bounds(radicand);
    let w = root(Some(radicand))->0;
    assert(w <= 1_100_000_000_000_000_000) by (nonlinear_arith)
        requires
            0 <= w,
            w * w <= 1_000_000_000_000_000_000_000_000_000_000_000_000,
    ;
    let speed = v + w;
    assert(sum(Some(v), Some(w)) == Some(speed));
    let part = h * s / speed;
    lemma_floor(h * s, speed);
    assert(h * s == 1_000_000_000_000_000 * h) by (nonlinear_arith)
        requires
            s == 1_000_000_000_000_000,
    ;
    assert(part < 0) by (nonlinear_arith)
        requires
            speed > 0,
            speed * part <= h * s,
            h * s < 0,
    ;
    assert(part >= -2_007_000_000_000_000_000) by (nonlinear_arith)
        requires
            speed >= 1,
            part < 0,
            h * s < speed * part + speed,
            h * s >= -2_007_000_000_000_000_000,
    ;
    assert(quotient(Some(h), Some(speed)) == Some(part));
    let time = 2 * s * part / s;
    assert(time == 2 * part) by {
        vstd::arithmetic::div_mod::lemma_div_multiples_vanish(2 * part, s);
        assert(2 * s * part == s * (2 * part)) by (nonlinear_arith);
    }
    assert(product(whole(2), Some(part)) == Some(time));
}

/// The root under the estimate changes little where the altitude is small:
/// with at most 2103 units of the last digit to fall at the velocity `v`,
/// it is `v` to within `1 + 2 S / v` below and `2.103 S / v` above.
proof fn lemma_root_near_the_surface(v: int, h: int, w: int)
    requires
        1 <= v,
        0 <= h <= 2103,
        0 <= w,
        w * w <= v * v + 2 * GRAVITY * h < (w + 1) * (w + 1) + 2 * SCALE,
    ensures
        v * (w - v) <= 2_103_000_000_000_000,
        v * (v - w - 1) <= 2_000_000_000_000_000,
{
    assert(2 * GRAVITY * h == 2_000_000_000_000 * h);
    if w > v {
        assert(w * w - v * v >= 2 * (v * (w - v))) by (nonlinear_arith)
            requires
                w > v,
                v >= 0,
        ;
    } else {
        assert(v * (w - v) <= 0) by (nonlinear_arith)
            requires
                w <= v,
                v >= 0,
        ;
    }
    if w + 1 < v {
        assert(v * v - (w + 1) * (w + 1) >= v * (v - w - 1)) by (nonlinear_arith)
            requires
                0 <= w + 1 < v,
        ;
    } else {
        assert(v * (v - w - 1) <= 0) by (nonlinear_arith)
            requires
                w + 1 >= v,
                v >= 0,
        ;
    }
}

/// A factor of a product that is bounded is bounded: from `w x <= c` and
/// `w >= least > 0` follows `x <= c / least`, rounded up.
proof fn lemma_factor_bound(w: int, x: int, c: int, least: int, most: int)
    by (nonlinear_arith)
    requires
        w * x <= c,
        0 < least <= w,
        0 <= c < least * (most + 1),
    ensures
        x <= most,
{
}

/// Where a landing without thrust succeeds. A craft in free fall that is
/// to reach the surface at a velocity of at least two millionths, now falls
/// at no more than 999, and has room for a thousand on its clock, is
/// brought down by impact refinement, whatever the first estimate is.
/// Unless that estimate is below the tolerance, so that nothing is done,
/// the craft ends within 2103 units of the last digit above the surface and
/// 2007 below it, with masses and exhaust velocity as they were and a clock
/// that has not gone back. Its velocity is the root `w` of `v^2 + 2 g h`
/// to within 0.000000004, and to within 2004 units of the last digit below
/// and 6107 above where the root is at least a thousandth.
pub proof fn lemma_landing_defined(craft: Craft, estimate: int)
    requires
        in_free_fall(craft),
        impact_energy(craft) >= 4 * least_energy(),
        craft.phys.velocity <= 999 * SCALE,
        craft.phys.elapsed_time <= 999_999_000 * SCALE,
    ensures
        ({
            &&& impact_root(craft) matches Some(w)
            &&& craft.refined(0, estimate, REFINEMENT_LIMIT as nat) matches Ok(down)
            &&& 1_998_000_000 <= w <= 999_600_000_000_000_000
            &&& w * w <= impact_energy(craft) < (w + 1) * (w + 1) + 2 * SCALE
            &&& estimate < IMPACT_TOLERANCE ==> down == craft
            &&& estimate >= IMPACT_TOLERANCE ==> {
                &&& -2007 <= down.phys.altitude <= 2103
                &&& w - 1_002_000 <= down.phys.velocity <= w + 3_100_000
                &&& w >= 1_000_000_000_000 ==> w - 2004 <= down.phys.velocity <= w + 6107
                &&& down.phys.elapsed_time >= craft.phys.elapsed_time
                &&& down.capsule_mass == craft.capsule_mass
                &&& down.fuel == craft.fuel
                &&& down.total_mass == craft.total_mass
                &&& down.fuel_isp == craft.fuel_isp
            }
        }),
{
    let s: int = 1_000_000_000_000_000;
    let v = craft.phys.velocity;
    let h = craft.phys.altitude;
    lemma_estimate_defined(craft);
    lemma_fall_reaches_the_surface(craft);
    let w = impact_root(craft)->0;
    let first = craft.time_to_surface(0)->0;
    let next = craft.stepped(0, first)->0;
    let limit = REFINEMENT_LIMIT as nat;
    assert(2 * GRAVITY * h == 2_000_000_000_000 * h);
    // the root is at least 0.000001998 and at most 999.6
    if w < 1_998_000_000 {
        assert((w + 1) * (w + 1) <= 1_998_000_000 * 1_998_000_000) by (nonlinear_arith)
            requires
                0 <= w + 1 <= 1_998_000_000,
        ;
        assert(false);
    }
    assert(v * v <= 999_000_000_000_000_000 * 999_000_000_000_000_000) by (nonlinear_arith)
        requires
            0 <= v <= 999_000_000_000_000_000,
    ;
    if w > 999_600_000_000_000_000 {
        assert(w * w >= 999_600_000_000_000_000 * 999_600_000_000_000_000) by (nonlinear_arith)
            requires
                w >= 999_600_000_000_000_000,
        ;
        assert(false);
    }
    if estimate >= IMPACT_TOLERANCE {
        assert(craft.refined(0, estimate, limit) == next.refined(0, first, (limit - 1) as nat));
        let u = next.phys.velocity;
        lemma_factor_bound(w, u - w - 2, 2 * s, 1_998_000_000, 1_001_001);
        if w >= 1_000_000_000_000 {
            lemma_factor_bound(w, u - w - 2, 2 * s, 1_000_000_000_000, 2000);
        }
        assert(in_envelope(next));
        if first >= IMPACT_TOLERANCE {
            if next.phys.altitude < 0 {
                lemma_estimate_below_the_surface(next);
            } else {
                assert(u * u >= 1_000_000_000 * 1_000_000_000) by (nonlinear_arith)
                    requires
                        u >= 1_000_000_000,
                ;
                assert(2 * GRAVITY * next.phys.altitude >= 0);
                lemma_estimate_defined(next);
                lemma_fall_reaches_the_surface(next);
                let root = impact_root(next)->0;
                lemma_root_near_the_surface(u, next.phys.altitude, root);
                let second = next.time_to_surface(0)->0;
                let last = next.stepped(0, second)->0;
                let found = last.phys.velocity;
                assert(next.refined(0, first, (limit - 1) as nat) == last.refined(
                    0,
                    second,
                    (limit - 2) as nat,
                ));
                assert(last.refined(0, second, (limit - 2) as nat) == Ok::<
                    Craft,
                    crate::lander::Fault,
                >(last));
                // the second root against the first velocity, the last
                // velocity against the second root
                lemma_factor_bound(u, root - u, 2_103_000_000_000_000, 1_997_000_000, 1_053_079);
                lemma_factor_bound(u, u - root - 1, 2 * s, 1_997_000_000, 1_001_502);
                lemma_factor_bound(root, found - root - 2, 2 * s, 1_995_000_000, 1_002_506);
                if w >= 1_000_000_000_000 {
                    lemma_factor_bound(u, root - u, 2_103_000_000_000_000, 999_999_999_999, 2103);
                    lemma_factor_bound(u, u - root - 1, 2 * s, 999_999_999_999, 2000);
                    lemma_factor_bound(root, found - root - 2, 2 * s, 999_999_997_000, 2000);
                }
            }
        }
    }
}

/// Whether a motion stays above the surface and inside the envelope.
pub open spec fn stays_aloft(next: Motion) -> bool {
    &&& -1_000_000_000_000_000_000 <= next.velocity <= 1_000_000_000_000_000_000
    &&& 0 < next.altitude <= 1_000_000_000_000_000_000_000
}

/// Where a period under thrust succeeds. Inside the envelope, with fuel
/// above the reserve, room for a period on the clock and an allowed burn
/// rate, a period whose burn keeps the craft aloft and does not reverse its
/// velocity is carried out in one step. Where the fuel lasts to within the
/// slack of the period's end the descent continues from that step; where it
/// does not, the craft is out of fuel after the step and falls from there.
pub proof fn lemma_period_defined(craft: Craft, rate: int)
    requires
        in_envelope(craft),
        craft.capsule_mass >= 0,
        craft.total_mass > 0,
        0 <= rate <= MAX_BURN_RATE,
        !craft.out_of_fuel(),
        craft.phys.elapsed_time <= 999_999_000 * SCALE,
        candidate(craft, rate, PERIOD as int) matches Some(next) ==> stays_aloft(next) && !reverses(
            craft,
            rate,
            PERIOD as int,
        ),
    ensures
        ({
            &&& craft.burn_time(rate, PERIOD as int) matches Some(granted)
            &&& 0 < granted <= PERIOD
            &&& craft.stepped(rate, granted) matches Some(onward)
            &&& run(craft, rate, PERIOD as int) matches Ok((after, ending))
            &&& if PERIOD - granted <= PERIOD_SLACK && !onward.out_of_fuel() {
                after == onward && ending is Continuing
            } else {
                onward.out_of_fuel() && ending is OutOfFuel && crashed(onward) == Ok::<
                    (Craft, Ending),
                    crate::lander::Fault,
                >((after, ending))
            }
        }),
{
    let s: int = 1_000_000_000_000_000;
    let left = PERIOD as int;
    lemma_product_within(rate, left, 200_000_000_000_000_000, 10_000_000_000_000_000);
    lemma_product_not_negative(rate, left);
    lemma_div_is_ordered(0, rate * left, s);
    assert(product(Some(rate), Some(left)) is Some);
    lemma_burn_time_defined(craft, rate, left);
    lemma_dynamics_defined(craft, rate, left);
    lemma_allowed_burn_advances(craft.fuel, rate, left);
    lemma_course_defined(craft, rate, left);
    let granted = craft.burn_time(rate, left)->0;
    let next = craft.dynamics(rate, granted)->0;
    assert(candidate(craft, rate, left) == Some(next));
    assert(course(craft, rate, left) == Some(
        Course::Advance { burn_time: granted, next, corrected: false },
    ));
    if rate > 0 {
        lemma_burn_within_fuel(craft.fuel, rate, left);
    } else {
        assert(0 * granted == 0) by (nonlinear_arith);
    }
    let used = product(Some(rate), Some(granted))->0;
    lemma_product_not_negative(rate, granted);
    lemma_div_is_ordered(0, rate * granted, s);
    assert(0 <= used <= craft.fuel);
    lemma_step_defined(craft, rate, granted, next);
    lemma_step_keeps_craft_sound(craft, rate, granted, next);
    let onward = craft.advanced(rate, granted, next)->0;
    assert(craft.stepped(rate, granted) == Some(onward));
    let rest = left - granted;
    assert(difference(Some(left), Some(granted)) == Some(rest));
    assert(run(craft, rate, left) == run(onward, rate, rest));
    assert(onward.fuel == craft.fuel - used);
    assert(in_envelope(onward));
    if onward.out_of_fuel() {
        lemma_out_of_fuel_lands(onward, rate, rest);
        assert(run(onward, rate, rest) == crashed(onward));
    } else if rest > PERIOD_SLACK {
        if rate > 0 {
            lemma_clamped_burn_ends_in_free_fall(craft, rate, left, next);
        }
        assert(false);
    } else {
        assert(course(onward, rate, rest) == Some(Course::EndPeriod));
    }
}

/// Where a period without thrust succeeds. A craft in free fall that is to
/// reach the surface at a velocity of at least two millionths, now falls
/// at no more than 999, and has room for a thousand on its clock, comes
/// through a period without thrust: out of fuel it falls to the surface;
/// with fuel it coasts for the whole period where that leaves it above the
/// surface, and is brought down by impact refinement where it does not.
pub proof fn lemma_coasting_period_defined(craft: Craft)
    requires
        in_free_fall(craft),
        impact_energy(craft) >= 4 * least_energy(),
        craft.phys.velocity <= 999 * SCALE,
        craft.phys.elapsed_time <= 999_999_000 * SCALE,
    ensures
        ({
            &&& run(craft, 0, PERIOD as int) matches Ok((after, ending))
            &&& if craft.out_of_fuel() {
                ending is OutOfFuel
            } else {
                &&& candidate(craft, 0, PERIOD as int) matches Some(next)
                &&& if next.altitude > 0 {
                    ending is Continuing && Some(after) == craft.stepped(0, PERIOD as int)
                } else {
                    ending is Landed && Ok::<Craft, crate::lander::Fault>(after) == craft.refined(
                        0,
                        PERIOD as int,
                        REFINEMENT_LIMIT as nat,
                    )
                }
            }
        }),
{
    let left = PERIOD as int;
    if craft.out_of_fuel() {
        lemma_out_of_fuel_lands(craft, 0, left);
    } else {
        assert(0 * left == 0) by (nonlinear_arith);
        assert(product(Some(0int), Some(left)) == Some(0int));
        assert(craft.burn_time(0, left) == Some(left));
        assert(0int / craft.total_mass == 0) by (nonlinear_arith)
            requires
                craft.total_mass != 0,
        ;
        assert(craft.mass_fraction(0, left) == Some(0int));
        lemma_motion_defined(craft, left, 0);
        let next = craft.dynamics(0, left)->0;
        assert(candidate(craft, 0, left) == Some(next));
        lemma_coasting(craft, left);
        assert(GRAVITY * left / (SCALE as int) == 10_000_000_000_000);
        assert(!reverses(craft, 0, left));
        if next.altitude <= 0 {
            assert(course(craft, 0, left) == Some(
                Course::Touchdown { estimate: left, corrected: false },
            ));
            lemma_landing_defined(craft, left);
            let down = craft.refined(0, left, REFINEMENT_LIMIT as nat)->Ok_0;
            let speed = down.phys.velocity;
            lemma_product_not_negative(speed, 3_600_000_000_000_000_000);
            lemma_product_within(
                speed,
                3_600_000_000_000_000_000,
                1_000_000_000_000_000_000,
                3_600_000_000_000_000_000,
            );
            assert(crate::stepper::speed_on_impact(down) is Some);
        } else {
            assert(course(craft, 0, left) == Some(
                Course::Advance { burn_time: left, next, corrected: false },
            ));
            lemma_step_defined(craft, 0, left, next);
            let onward = craft.advanced(0, left, next)->0;
            assert(difference(Some(craft.fuel), Some(0int)) == Some(craft.fuel));
            assert(onward.fuel == craft.fuel);
            assert(difference(Some(left), Some(left)) == Some(0int));
            assert(run(craft, 0, left) == run(onward, 0, 0));
            assert(course(onward, 0, 0) == Some(Course::EndPeriod));
        }
    }
}

/// What stands under the root of the estimate of the time to the surface
/// under a burn at `rate`: `v^2 + 2 h (g - c (r / m))`, the square of the
/// velocity at which the craft would reach the surface if its acceleration
/// stayed what it is now. It is negative where the craft would not reach
/// the surface.
pub open spec fn energy_under_thrust(craft: Craft, rate: int) -> Option<int> {
    let thrust = product(Some(craft.fuel_isp), quotient(Some(rate), Some(craft.total_mass)));
    let pull = difference(Some(GRAVITY as int), thrust);
    sum(
        product(Some(craft.phys.velocity), Some(craft.phys.velocity)),
        product(product(whole(2), Some(craft.phys.altitude)), pull),
    )
}

/// Where one estimate under thrust succeeds. For a craft in free fall's
/// range that weighs at least one unit, under an allowed burn rate, what
/// stands under the root can be represented. Where it is negative there is
/// no estimate of the time to the surface; where it is at least
/// 0.0000000001 there is one, and it is not negative.
pub proof fn lemma_estimate_defined_under_thrust(craft: Craft, rate: int)
    requires
        in_free_fall(craft),
        craft.total_mass >= SCALE,
        0 <= rate <= MAX_BURN_RATE,
    ensures
        ({
            &&& energy_under_thrust(craft, rate) matches Some(energy)
            &&& energy < 0 ==> craft.time_to_surface(rate) is None
            &&& energy >= 100_000 ==> (craft.time_to_surface(rate) matches Some(time) && time >= 0)
        }),
{
    let s: int = 1_000_000_000_000_000;
    let g: int = 1_000_000_000_000;
    let v = craft.phys.velocity;
    let h = craft.phys.altitude;
    let m = craft.total_mass;
    let c = craft.fuel_isp;
    // the acceleration that the thrust gives
    lemma_product_not_negative(rate, s);
    let ratio = rate * s / m;
    lemma_floor(rate * s, m);
    assert(0 <= ratio <= 200_000_000_000_000_000) by (nonlinear_arith)
        requires
            m >= s,
            s == 1_000_000_000_000_000,
            0 <= rate <= 200_000_000_000_000_000,
            m * ratio <= rate * s < m * ratio + m,
    ;
    assert(rate * s == 1_000_000_000_000_000 * rate) by (nonlinear_arith)
        requires
            s == 1_000_000_000_000_000,
    ;
    assert(quotient(Some(rate), Some(m)) == Some(ratio));
    lemma_product_within(c, ratio, 1_000_000_000_000_000_000, 200_000_000_000_000_000);
    lemma_product_not_negative(c, ratio);
    let thrust = c * ratio / s;
    lemma_div_is_ordered(0, c * ratio, s);
    lemma_div_is_ordered(
        c * ratio,
        1_000_000_000_000_000_000int * 200_000_000_000_000_000,
        s,
    );
    assert(0 <= thrust <= 200_000_000_000_000_000_000);
    assert(product(Some(c), Some(ratio)) == Some(thrust));
    let pull = g - thrust;
    assert(difference(Some(GRAVITY as int), Some(thrust)) == Some(pull));
    // what stands under the root
    lemma_product_within(v, v, 1000 * s, 1000 * s);
    lemma_product_not_negative(v, v);
    let square = v * v / s;
    lemma_div_is_ordered(0, v * v, s);
    lemma_div_is_ordered(v * v, (1000 * s) * (1000 * s), s);
    assert(0 <= square <= 1_000_000 * s);
    assert(product(Some(v), Some(v)) == Some(square));
    let twice = 2 * s * h / s;
    assert(twice == 2 * h) by {
        vstd::arithmetic::div_mod::lemma_div_multiples_vanish(2 * h, s);
        assert(2 * s * h == s * (2 * h)) by (nonlinear_arith);
    }
    assert(product(whole(2), Some(h)) == Some(twice));
    lemma_product_within(twice, pull, 800_000_000_000_000_000, 200_000_000_000_000_000_000);
    let span = twice * pull / s;
    lemma_div_is_ordered(
        -(800_000_000_000_000_000int * 200_000_000_000_000_000_000),
        twice * pull,
        s,
    );
    lemma_div_is_ordered(
        twice * pull,
        800_000_000_000_000_000int * 200_000_000_000_000_000_000,
        s,
    );
    assert(product(Some(twice), Some(pull)) == Some(span));
    let energy = square + span;
    assert(energy_under_thrust(craft, rate) == Some(energy));
    if energy >= 100_000 {
        assert(energy * s <= 1_000_000_000_000_000_000_000_000_000_000_000_000_000)
            by (nonlinear_arith)
            requires
                0 <= energy <= 1_000_000_000_000_000_000_000_000,
                s == 1_000_000_000_000_000,
        ;
        assert(energy * s >= 100_000_000_000_000_000_000) by (nonlinear_arith)
            requires
                100_000 <= energy,
                s == 1_000_000_000_000_000,
        ;
        lemma_root_bounds(energy);
        let w = root(Some(energy))->0;
        assert(w <= 40_000_000_000_000_000_000) by (nonlinear_arith)
            requires
                0 <= w,
                w * w <= 1_000_000_000_000_000_000_000_000_000_000_000_000_000,
        ;
        if w < 10_000_000_000 {
            assert((w + 1) * (w + 1) <= 10_000_000_000 * 10_000_000_000) by (nonlinear_arith)
                requires
                    0 <= w + 1 <= 10_000_000_000,
            ;
            assert(false);
        }
        let speed = v + w;
        assert(sum(Some(v), Some(w)) == Some(speed));
        lemma_product_not_negative(h, s);
        let part = h * s / speed;
        lemma_floor(h * s, speed);
        lemma_div_is_ordered(0, h * s, speed);
        assert(0int / speed == 0) by (nonlinear_arith)
            requires
                speed > 0,
        ;
        assert(h * s == 1_000_000_000_000_000 * h) by (nonlinear_arith)
            requires
                s == 1_000_000_000_000_000,
        ;
        assert(part <= 40_000_000_000_000_000_000_000) by (nonlinear_arith)
            requires
                speed >= 10_000_000_000,
                0 <= part,
                speed * part <= h * s,
                h * s <= 400_000_000_000_000_000_000_000_000_000_000,
        ;
        assert(quotient(Some(h), Some(speed)) == Some(part));
        let time = 2 * s * part / s;
        assert(time == 2 * part) by {
            vstd::arithmetic::div_mod::lemma_div_multiples_vanish(2 * part, s);
            assert(2 * s * part == s * (2 * part)) by (nonlinear_arith);
        }
        assert(product(whole(2), Some(part)) == Some(time));
    }
}

/// Whether `down` is what the last estimate of a refinement leaves of
/// `before`: `before` itself where its estimate of the time to the surface
/// is negative, and `before` after a burn at `rate` for that estimate where
/// the estimate is below the tolerance.
pub open spec fn ends_refinement(before: Craft, rate: int, down: Craft) -> bool {
    before.time_to_surface(rate) matches Some(time) && if time < 0 {
        down == before
    } else {
        time < IMPACT_TOLERANCE && before.stepped(rate, time) == Some(down)
    }
}

/// What a refined impact is, whatever the burn rate: unless the first
/// estimate is below the tolerance, so that nothing is done, the craft that
/// refinement brings back stands at the end of an estimate of the time to
/// the surface that is shorter than the tolerance, or before one that is
/// negative.
pub proof fn lemma_refinement_ends_on_an_estimate(
    craft: Craft,
    rate: int,
    estimate: int,
    limit: nat,
)
    ensures
        match craft.refined(rate, estimate, limit) {
            Ok(down) => if estimate < IMPACT_TOLERANCE {
                down == craft
            } else {
                exists|before: Craft| ends_refinement(before, rate, down)
            },
            Err(_) => true,
        },
    decreases limit,
{
    if let Ok(down) = craft.refined(rate, estimate, limit) {
        if estimate >= IMPACT_TOLERANCE {
            let time = craft.time_to_surface(rate)->0;
            if time < 0 {
                assert(ends_refinement(craft, rate, down));
            } else {
                let next = craft.stepped(rate, time)->0;
                lemma_refinement_ends_on_an_estimate(next, rate, time, (limit - 1) as nat);
                if time < IMPACT_TOLERANCE {
                    assert(ends_refinement(craft, rate, down));
                }
            }
            assert(exists|before: Craft| ends_refinement(before, rate, down));
        }
    }
}

} // verus!
