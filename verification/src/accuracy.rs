//! How far the rounded results are from the exact ones.
//!
//! For a mass fraction between zero and one, every power and every quotient
//! in a series loses less than a unit of the last digit, and the losses add up to less
//! than six units of the last digit for the velocity series and less than five for the
//! altitude series. The velocity and the altitude after a burn inherit
//! these losses and add those of their own products. Exact values are
//! compared as integers: both sides of a comparison are multiplied by the
//! common denominator, sixty or a hundred and twenty times a power of the
//! scale.

use vstd::prelude::*;
use vstd::arithmetic::div_mod::lemma_div_is_ordered;
use crate::fixed::{
    SCALE, difference, lemma_floor, lemma_quotient_up_bounds, lemma_root_up_bounds, product,
    quotient, quotient_up, root, sum,
};
use crate::lander::{Craft, GRAVITY, thrust_factor, thrust_spread, turning_time};
use crate::series::{altitude_series, velocity_series, whole};

verus! {

/// `60 S^4` times the exact value of `S (x + x^2/2 + x^3/3 + x^4/4 + x^5/5)`
/// at `x = q / S`, with `S` the scale.
pub open spec fn velocity_polynomial(q: int) -> int {
    let q2 = q * q;
    let q3 = q2 * q;
    let q4 = q3 * q;
    let q5 = q4 * q;
    60 * q * 1_000_000_000_000_000_000_000_000_000_000_000_000_000_000_000_000_000_000_000_000int + 30 * q2
        * 1_000_000_000_000_000_000_000_000_000_000_000_000_000_000_000int + 20 * q3 * 1_000_000_000_000_000_000_000_000_000_000int + 15 * q4
        * 1_000_000_000_000_000 + 12 * q5
}

/// `60 S^4` times the exact value of
/// `S (x/2 + x^2/6 + x^3/12 + x^4/20 + x^5/30)` at `x = q / S`, with `S` the
/// scale.
pub open spec fn altitude_polynomial(q: int) -> int {
    let q2 = q * q;
    let q3 = q2 * q;
    let q4 = q3 * q;
    let q5 = q4 * q;
    30 * q * 1_000_000_000_000_000_000_000_000_000_000_000_000_000_000_000_000_000_000_000_000int + 10 * q2
        * 1_000_000_000_000_000_000_000_000_000_000_000_000_000_000_000int + 5 * q3 * 1_000_000_000_000_000_000_000_000_000_000int + 3 * q4
        * 1_000_000_000_000_000 + 2 * q5
}

/// Sixty times the fourth power of the scale.
pub open spec fn sixty_scale_4() -> int {
    60 * 1_000_000_000_000_000_000_000_000_000_000_000_000_000_000_000_000_000_000_000_000int
}

/// Sixty times the fifth power of the scale.
pub open spec fn sixty_scale_5() -> int {
    60 * 1_000_000_000_000_000_000_000_000_000_000_000_000_000_000_000_000_000_000_000_000_000_000_000_000_000int
}

/// A hundred and twenty times the sixth power of the scale.
pub open spec fn one_twenty_scale_6() -> int {
    120 * (1_000_000_000_000_000_000_000_000_000_000_000_000_000_000_000int * 1_000_000_000_000_000_000_000_000_000_000_000_000_000_000_000int)
}

/// One more factor `q`: if `a` is the power `p / d` rounded down with a loss
/// of at most `e`, then `a q / s` rounded down is the power `p q / (d s)`
/// with a loss of at most `e + 1`.
proof fn lemma_next_power(q: int, s: int, a: int, e: int, p: int, d: int)
    requires
        0 <= q <= s,
        0 < s,
        0 < d,
        0 <= e,
        0 <= a,
        a * d <= p <= (a + e) * d,
    ensures
        0 <= a * q / s <= a,
        (a * q / s) * (d * s) <= p * q <= (a * q / s + e + 1) * (d * s),
{
    let b = a * q / s;
    lemma_floor(a * q, s);
    assert(0 <= b <= a) by (nonlinear_arith)
        requires
            0 <= q <= s,
            0 < s,
            0 <= a,
            s * b <= a * q < s * b + s,
    ;
    assert(b * (d * s) <= p * q) by (nonlinear_arith)
        requires
            0 <= q,
            0 < d,
            s * b <= a * q,
            a * d <= p,
    ;
    assert(p * q <= (b + e + 1) * (d * s)) by (nonlinear_arith)
        requires
            0 <= q <= s,
            0 < d,
            0 <= e,
            a * q < s * b + s,
            p <= (a + e) * d,
    ;
}

/// Dividing `x` whole units by `k` whole units is dividing `x` by `k`.
proof fn lemma_whole_divisor(x: int, k: int)
    requires
        0 < k,
    ensures
        x * SCALE / (k * SCALE) == x / k,
        k * (x / k) <= x <= k * (x / k) + k - 1,
{
    let s = SCALE as int;
    lemma_floor(x, k);
    let r = x - k * (x / k);
    assert(x * s == (x / k) * (k * s) + r * s && 0 <= r * s < k * s) by (nonlinear_arith)
        requires
            r == x - k * (x / k),
            0 <= r < k,
            s > 0,
    ;
    vstd::arithmetic::div_mod::lemma_fundamental_div_mod_converse(x * s, k * s, x / k, r * s);
}

/// The second to fifth power of `q` as the series form them: each is the
/// power before it times `q`, rounded down.
pub open spec fn rounded_powers(q: int) -> (int, int, int, int) {
    let q2 = q * q / (SCALE as int);
    let q3 = q2 * q / (SCALE as int);
    let q4 = q3 * q / (SCALE as int);
    let q5 = q4 * q / (SCALE as int);
    (q2, q3, q4, q5)
}

/// The rounded powers of a mass fraction between zero and one against the
/// exact ones: the `k`-th power loses at most `k - 1` units of the last digit.
proof fn lemma_powers(q: int)
    requires
        0 <= q <= SCALE,
    ensures
        ({
            let (q2, q3, q4, q5) = rounded_powers(q);
            let x2 = q * q;
            let x3 = x2 * q;
            let x4 = x3 * q;
            let x5 = x4 * q;
            &&& 0 <= q5 <= q4 <= q3 <= q2 <= q
            &&& q2 * 1_000_000_000_000_000 <= x2 <= (q2 + 1) * 1_000_000_000_000_000
            &&& q3 * 1_000_000_000_000_000_000_000_000_000_000int <= x3 <= (q3 + 2) * 1_000_000_000_000_000_000_000_000_000_000int
            &&& q4 * 1_000_000_000_000_000_000_000_000_000_000_000_000_000_000_000int <= x4 <= (q4 + 3)
                * 1_000_000_000_000_000_000_000_000_000_000_000_000_000_000_000int
            &&& q5 * 1_000_000_000_000_000_000_000_000_000_000_000_000_000_000_000_000_000_000_000_000int <= x5 <= (q5 + 4)
                * 1_000_000_000_000_000_000_000_000_000_000_000_000_000_000_000_000_000_000_000_000int
        }),
{
    let s = SCALE as int;
    let (q2, q3, q4, q5) = rounded_powers(q);
    let x2 = q * q;
    let x3 = x2 * q;
    let x4 = x3 * q;
    let s2: int = 1_000_000_000_000_000_000_000_000_000_000int;
    let s3: int = 1_000_000_000_000_000_000_000_000_000_000_000_000_000_000_000int;
    let s4: int = 1_000_000_000_000_000_000_000_000_000_000_000_000_000_000_000_000_000_000_000_000int;
    lemma_next_power(q, s, q, 0, q, 1);
    lemma_next_power(q, s, q2, 1, x2, s);
    lemma_next_power(q, s, q3, 2, x3, s2);
    lemma_next_power(q, s, q4, 3, x4, s3);
}

/// What the two series come to for a mass fraction between zero and one,
/// where nothing leaves the representable range: sums of the rounded powers,
/// each divided by a whole number and rounded down.
pub proof fn lemma_series_values(q: int)
    requires
        0 <= q <= SCALE,
    ensures
        ({
            let (q2, q3, q4, q5) = rounded_powers(q);
            &&& 0 <= q5 <= q4 <= q3 <= q2 <= q
            &&& velocity_series(q) == Some(-(q + q2 / 2 + q3 / 3 + q4 / 4 + q5 / 5))
            &&& altitude_series(q) == Some(q / 2 + q2 / 6 + q3 / 12 + q4 / 20 + q5 / 30)
        }),
{
    let (q2, q3, q4, q5) = rounded_powers(q);
    lemma_powers(q);
    lemma_whole_divisor(q, 2);
    lemma_whole_divisor(q2, 2);
    lemma_whole_divisor(q3, 3);
    lemma_whole_divisor(q4, 4);
    lemma_whole_divisor(q5, 5);
    lemma_whole_divisor(q2, 6);
    lemma_whole_divisor(q3, 12);
    lemma_whole_divisor(q4, 20);
    lemma_whole_divisor(q5, 30);
}

/// For a mass fraction between zero and one the velocity series is at most
/// the fraction negated, and the altitude series is at least half the
/// fraction.
pub proof fn lemma_series_signs(q: int)
    requires
        0 <= q <= SCALE,
    ensures
        velocity_series(q) matches Some(r) && r <= -q <= 0,
        altitude_series(q) matches Some(r) && r >= q / 2 >= 0,
{
    lemma_series_values(q);
}

/// One term of a series: if `a` is the power `p / d` rounded down with a
/// loss of at most `e`, and `t` is `a / k` rounded down, then `t` is
/// `p / (d k)` with a loss of less than `(k - 1 + e) / k`; both sides are
/// multiplied by `w d k`.
proof fn lemma_term(t: int, k: int, a: int, e: int, p: int, d: int, w: int)
    by (nonlinear_arith)
    requires
        0 < k,
        0 < d,
        0 <= w,
        0 <= e,
        k * t <= a <= k * t + k - 1,
        a * d <= p <= (a + e) * d,
    ensures
        (w * d * k) * t <= w * p <= (w * d * k) * t + w * d * (k - 1 + e),
{
}

/// The velocity series of a mass fraction between zero and one is the
/// exact polynomial, negated and rounded towards zero, with a loss of less
/// than six units of the last digit.
pub proof fn lemma_velocity_series_accuracy(q: int)
    requires
        0 <= q <= SCALE,
    ensures
        velocity_series(q) matches Some(r) && sixty_scale_4() * (-r) <= velocity_polynomial(q)
            < sixty_scale_4() * (-r + 6),
{
    let s: int = 1_000_000_000_000_000;
    let s2: int = 1_000_000_000_000_000_000_000_000_000_000int;
    let s3: int = 1_000_000_000_000_000_000_000_000_000_000_000_000_000_000_000int;
    let s4: int = 1_000_000_000_000_000_000_000_000_000_000_000_000_000_000_000_000_000_000_000_000int;
    let (q2, q3, q4, q5) = rounded_powers(q);
    let x2 = q * q;
    let x3 = x2 * q;
    let x4 = x3 * q;
    let x5 = x4 * q;
    lemma_powers(q);
    lemma_series_values(q);
    let t2 = q2 / 2;
    let t3 = q3 / 3;
    let t4 = q4 / 4;
    let t5 = q5 / 5;
    lemma_whole_divisor(q2, 2);
    lemma_whole_divisor(q3, 3);
    lemma_whole_divisor(q4, 4);
    lemma_whole_divisor(q5, 5);
    lemma_term(t2, 2, q2, 1, x2, s, 30 * s3);
    lemma_term(t3, 3, q3, 2, x3, s2, 20 * s2);
    lemma_term(t4, 4, q4, 3, x4, s3, 15 * s);
    lemma_term(t5, 5, q5, 4, x5, s4, 12);
    // the four terms lose at most 60, 80, 90 and 96 times the fourth power of the scale
    let c = 60 * s4;
    let total = q + t2 + t3 + t4 + t5;
    assert(c * total <= velocity_polynomial(q) <= c * total + 326 * s4);
    assert(sixty_scale_4() == c);
}

/// The altitude series of a mass fraction between zero and one is the
/// exact polynomial rounded down, with a loss of less than five units of the last digit.
pub proof fn lemma_altitude_series_accuracy(q: int)
    requires
        0 <= q <= SCALE,
    ensures
        altitude_series(q) matches Some(r) && sixty_scale_4() * r <= altitude_polynomial(q)
            < sixty_scale_4() * (r + 5),
{
    let s: int = 1_000_000_000_000_000;
    let s2: int = 1_000_000_000_000_000_000_000_000_000_000int;
    let s3: int = 1_000_000_000_000_000_000_000_000_000_000_000_000_000_000_000int;
    let s4: int = 1_000_000_000_000_000_000_000_000_000_000_000_000_000_000_000_000_000_000_000_000int;
    let (q2, q3, q4, q5) = rounded_powers(q);
    let x2 = q * q;
    let x3 = x2 * q;
    let x4 = x3 * q;
    let x5 = x4 * q;
    lemma_powers(q);
    lemma_series_values(q);
    let t1 = q / 2;
    let t2 = q2 / 6;
    let t3 = q3 / 12;
    let t4 = q4 / 20;
    let t5 = q5 / 30;
    lemma_whole_divisor(q, 2);
    lemma_whole_divisor(q2, 6);
    lemma_whole_divisor(q3, 12);
    lemma_whole_divisor(q4, 20);
    lemma_whole_divisor(q5, 30);
    lemma_term(t1, 2, q, 0, q, 1, 30 * s4);
    lemma_term(t2, 6, q2, 1, x2, s, 10 * s3);
    lemma_term(t3, 12, q3, 2, x3, s2, 5 * s2);
    lemma_term(t4, 20, q4, 3, x4, s3, 3 * s);
    lemma_term(t5, 30, q5, 4, x5, s4, 2);
    // the five terms lose at most 30, 60, 65, 66 and 66 times the fourth power of the scale
    let c = 60 * s4;
    let total = t1 + t2 + t3 + t4 + t5;
    assert(c * total <= altitude_polynomial(q) <= c * total + 287 * s4);
    assert(sixty_scale_4() == c);
}

/// `60 S^5` times the exact value of `v + g t - c P(x)`, the velocity after
/// a burn of `time` that consumes the mass fraction `x = q / S`, with `P`
/// the exact velocity polynomial and `S` the scale.
pub open spec fn exact_velocity(craft: Craft, time: int, q: int) -> int {
    sixty_scale_5() * craft.phys.velocity + sixty_scale_4() * (GRAVITY * time) - craft.fuel_isp
        * velocity_polynomial(q)
}

/// A bound on `c r + n` carries over to `c (e r) + e n` for a factor `e`
/// that is not negative.
proof fn lemma_scaled_bounds(e: int, c: int, r: int, n: int, k: int)
    by (nonlinear_arith)
    requires
        0 <= e,
        0 <= c * r + n <= k * c,
    ensures
        0 <= c * (e * r) + e * n <= k * c * e,
{
}

/// The velocity after a burn that consumes a mass fraction between zero and
/// one is the exact value at that fraction, to within two units of the last digit below
/// and six units of the last digit for each unit of exhaust velocity above.
pub proof fn lemma_velocity_accuracy(craft: Craft, time: int, q: int)
    requires
        craft.fuel_isp >= 0,
        0 <= q <= SCALE,
    ensures
        craft.velocity_after(time, q) matches Some(velocity) ==> exact_velocity(craft, time, q) - 2
            * sixty_scale_5() < sixty_scale_5() * velocity <= exact_velocity(craft, time, q) + 6
            * sixty_scale_4() * craft.fuel_isp,
{
    if let Some(velocity) = craft.velocity_after(time, q) {
        let s: int = 1_000_000_000_000_000;
        let s4: int = 1_000_000_000_000_000_000_000_000_000_000_000_000_000_000_000_000_000_000_000_000int;
        let c = 60 * s4;
        lemma_velocity_series_accuracy(q);
        let braking = velocity_series(q)->0;
        let exact = velocity_polynomial(q);
        assert(sixty_scale_4() == c);
        assert(c * (-braking) == -(c * braking) && c * (-braking + 6) == -(c * braking) + 6 * c);
        lemma_scaled_bounds(craft.fuel_isp, c, braking, exact, 6);
        let pull = GRAVITY * time / s;
        lemma_floor(GRAVITY * time, s);
        let push = craft.fuel_isp * braking / s;
        lemma_floor(craft.fuel_isp * braking, s);
        assert(velocity == craft.phys.velocity + pull + push);
        let thrust = craft.fuel_isp * braking;
        let weight = GRAVITY * time;
        assert(c * (s * pull) <= c * weight < c * (s * pull) + c * s) by (nonlinear_arith)
            requires
                0 < c,
                s * pull <= weight < s * pull + s,
        ;
        assert(c * (s * push) <= c * thrust < c * (s * push) + c * s) by (nonlinear_arith)
            requires
                0 < c,
                s * push <= thrust < s * push + s,
        ;
        assert(sixty_scale_5() == c * s);
        assert(sixty_scale_5() * velocity == c * s * craft.phys.velocity + c * (s * pull) + c * (s
            * push)) by (nonlinear_arith)
            requires
                sixty_scale_5() == c * s,
                velocity == craft.phys.velocity + pull + push,
        ;
        assert(exact_velocity(craft, time, q) == c * s * craft.phys.velocity + c * weight
            - craft.fuel_isp * exact);
        assert(6 * sixty_scale_4() * craft.fuel_isp == 6 * c * craft.fuel_isp);
    }
}

/// `120 S^6` times the exact value of `h - g t^2 / 2 - v t + c t A(x)`, the
/// altitude after a burn of `time` that consumes the mass fraction
/// `x = q / S`, with `A` the exact altitude polynomial and `S` the scale.
pub open spec fn exact_altitude(craft: Craft, time: int, q: int) -> int {
    one_twenty_scale_6() * craft.phys.altitude - sixty_scale_4() * (GRAVITY * (time * time)) - 2
        * sixty_scale_5() * (craft.phys.velocity * time) + 2 * ((craft.fuel_isp * time)
        * altitude_polynomial(q))
}

/// The altitude after a burn forward in time that consumes a mass fraction
/// between zero and one is the exact value at that fraction, to within three
/// units of the last digit, and below to within five more for each unit of exhaust
/// velocity and of time.
pub proof fn lemma_altitude_accuracy(craft: Craft, time: int, q: int)
    requires
        craft.fuel_isp >= 0,
        time >= 0,
        0 <= q <= SCALE,
    ensures
        craft.altitude_after(time, q) matches Some(altitude) ==> exact_altitude(craft, time, q) - 3
            * one_twenty_scale_6() - 10 * sixty_scale_4() * (craft.fuel_isp * time)
            < one_twenty_scale_6() * altitude < exact_altitude(craft, time, q) + 3
            * one_twenty_scale_6(),
{
    if let Some(altitude) = craft.altitude_after(time, q) {
        let s: int = 1_000_000_000_000_000;
        let g: int = 1_000_000_000_000;
        let c = sixty_scale_4();
        let c5 = sixty_scale_5();
        let k = one_twenty_scale_6();
        lemma_altitude_series_accuracy(q);
        lemma_series_values(q);
        let lifting = altitude_series(q)->0;
        let exact = altitude_polynomial(q);
        assert(c * (lifting + 5) == c * lifting + 5 * c) by (nonlinear_arith);
        assert(0 <= lifting <= s);
        let squared = time * time;
        let square = squared / s;
        lemma_floor(squared, s);
        lemma_whole_divisor(square, 2);
        let half = square / 2;
        let fall = g * half / s;
        lemma_floor(g * half, s);
        let way = craft.phys.velocity * time;
        let drift = way / s;
        lemma_floor(way, s);
        let burn = craft.fuel_isp * time;
        let reach = burn / s;
        lemma_floor(burn, s);
        assert(0 <= burn) by (nonlinear_arith)
            requires
                burn == craft.fuel_isp * time,
                craft.fuel_isp >= 0,
                time >= 0,
        ;
        let lifted = reach * lifting;
        let rise = lifted / s;
        lemma_floor(lifted, s);
        assert(altitude == craft.phys.altitude - fall - drift + rise);
        // the fall
        let fallen = c * (g * squared);
        assert(fallen - 2 * c5 * g - k < k * fall <= fallen) by (nonlinear_arith)
            requires
                s == 1_000_000_000_000_000,
                g == 1_000_000_000_000,
                c == 60 * (s * s * s * s),
                c5 == c * s,
                k == 2 * c5 * s,
                fallen == c * (g * squared),
                s * square <= squared < s * square + s,
                2 * half <= square <= 2 * half + 1,
                s * fall <= g * half < s * fall + s,
        ;
        // the way made at the old velocity
        assert(2 * c5 * way - k < k * drift <= 2 * c5 * way) by (nonlinear_arith)
            requires
                0 < c5,
                k == 2 * c5 * s,
                s * drift <= way < s * drift + s,
        ;
        // the lift of the burn
        let weighed = reach * exact;
        assert(c * lifted <= weighed <= c * lifted + 5 * c * reach) by (nonlinear_arith)
            requires
                lifted == reach * lifting,
                weighed == reach * exact,
                0 <= reach,
                c * lifting <= exact <= c * lifting + 5 * c,
        ;
        let risen = burn * exact;
        assert(s * weighed <= risen <= s * weighed + s * exact) by (nonlinear_arith)
            requires
                weighed == reach * exact,
                risen == burn * exact,
                0 <= exact,
                s * reach <= burn <= s * reach + s,
        ;
        assert(2 * risen - 2 * s * exact - 10 * c * burn - k < k * rise <= 2 * risen)
            by (nonlinear_arith)
            requires
                0 < s,
                0 < c,
                k == 2 * (c * s) * s,
                0 <= reach,
                s * reach <= burn,
                s * rise <= lifted < s * rise + s,
                c * lifted <= weighed <= c * lifted + 5 * c * reach,
                s * weighed <= risen <= s * weighed + s * exact,
        ;
        assert(2 * s * exact <= 2 * k) by (nonlinear_arith)
            requires
                s == 1_000_000_000_000_000,
                c == 60 * (s * s * s * s),
                k == 2 * (c * s) * s,
                0 <= lifting <= s,
                exact <= c * lifting + 5 * c,
        ;
        assert(k * altitude == k * craft.phys.altitude - k * fall - k * drift + k * rise)
            by (nonlinear_arith)
            requires
                altitude == craft.phys.altitude - fall - drift + rise,
        ;
        assert(exact_altitude(craft, time, q) == k * craft.phys.altitude - fallen - 2 * c5 * way
            + 2 * risen);
        assert(2 * c5 * g <= k);
    }
}

/// The root under the corrected burn time: `s^2` is `f^2 + v / c` to within
/// the loss of the square, of the quotient and of the root, which are all
/// rounded so that `s` is not too small. Both sides are multiplied by
/// `c S`.
pub proof fn lemma_spread_accuracy(total_mass: int, velocity: int, rate: int, exhaust_velocity: int)
    requires
        velocity > 0,
        exhaust_velocity > 0,
    ensures
        (thrust_factor(total_mass, rate, exhaust_velocity), thrust_spread(
            total_mass,
            velocity,
            rate,
            exhaust_velocity,
        )) matches (Some(f), Some(s)) ==> {
            &&& s > 0
            &&& s > -f
            &&& velocity * SCALE * SCALE - exhaust_velocity * SCALE < exhaust_velocity * (s * s - f
                * f)
            &&& exhaust_velocity * (s * s - f * f) < velocity * SCALE * SCALE + exhaust_velocity
                * (SCALE + 2 * s)
        },
{
    if let (Some(f), Some(s)) = (
        thrust_factor(total_mass, rate, exhaust_velocity),
        thrust_spread(total_mass, velocity, rate, exhaust_velocity),
    ) {
        let unit = SCALE as int;
        let c = exhaust_velocity;
        let square = f * f / unit;
        lemma_floor(f * f, unit);
        lemma_quotient_up_bounds(velocity, c);
        let ratio = quotient_up(Some(velocity), Some(c))->0;
        assert(ratio >= 1) by (nonlinear_arith)
            requires
                velocity > 0,
                c > 0,
                unit > 0,
                velocity * unit <= c * ratio,
        ;
        let radicand = square + ratio;
        lemma_root_up_bounds(radicand);
        assert(0 <= f * f) by (nonlinear_arith);
        lemma_div_is_ordered(0, f * f, unit);
        assert(radicand * unit == square * unit + ratio * unit) by (nonlinear_arith)
            requires
                radicand == square + ratio,
        ;
        assert(ratio * unit >= unit) by (nonlinear_arith)
            requires
                ratio >= 1,
                unit > 0,
        ;
        assert(s > 0 && s > -f) by (nonlinear_arith)
            requires
                0 <= s,
                radicand * unit <= s * s,
                radicand * unit > f * f,
        ;
        let gain = s * s - f * f;
        assert((s - 1) * (s - 1) == s * s - 2 * s + 1) by (nonlinear_arith);
        assert(ratio * unit - unit < gain < ratio * unit + 2 * s);
        assert(c * (ratio * unit - unit) < c * gain < c * (ratio * unit + 2 * s))
            by (nonlinear_arith)
            requires
                c > 0,
                ratio * unit - unit < gain < ratio * unit + 2 * s,
        ;
        assert(c * (ratio * unit - unit) >= velocity * unit * unit - c * unit) by (nonlinear_arith)
            requires
                velocity * unit <= c * ratio,
                unit > 0,
        ;
        assert(c * (ratio * unit + 2 * s) < velocity * unit * unit + c * (unit + 2 * s))
            by (nonlinear_arith)
            requires
                c * (ratio - 1) < velocity * unit,
                unit > 0,
        ;
    }
}

/// The corrected burn time without its margin, where thrust is below the
/// weight: the fuel burned until the turn, `r t`, is `m (s - f)` to within
/// the loss of one product and one quotient.
pub proof fn lemma_turning_time_accuracy(
    total_mass: int,
    velocity: int,
    rate: int,
    exhaust_velocity: int,
)
    requires
        rate > 0,
    ensures
        (
            thrust_factor(total_mass, rate, exhaust_velocity),
            thrust_spread(total_mass, velocity, rate, exhaust_velocity),
            turning_time(total_mass, velocity, rate, exhaust_velocity),
        ) matches (Some(f), Some(s), Some(turn)) ==> (f < 0 ==> total_mass * (s - f) - SCALE < rate
            * turn < total_mass * (s - f) + rate),
{
    if let (Some(f), Some(s), Some(turn)) = (
        thrust_factor(total_mass, rate, exhaust_velocity),
        thrust_spread(total_mass, velocity, rate, exhaust_velocity),
        turning_time(total_mass, velocity, rate, exhaust_velocity),
    ) {
        if f < 0 {
            let unit = SCALE as int;
            let weighed = total_mass * (s - f) / unit;
            lemma_floor(total_mass * (s - f), unit);
            lemma_quotient_up_bounds(weighed, rate);
            assert(rate * (turn - 1) == rate * turn - rate) by (nonlinear_arith);
        }
    }
}

/// The corrected burn time without its margin, where thrust is at least the
/// weight: the time `t` is `m v / (h (f + s))`, with `h` the thrust, to
/// within the loss of two products and one quotient.
pub proof fn lemma_turning_time_accuracy_under_thrust(
    total_mass: int,
    velocity: int,
    rate: int,
    exhaust_velocity: int,
)
    requires
        total_mass >= 0,
        velocity >= 0,
        rate > 0,
        exhaust_velocity > 0,
    ensures
        (
            thrust_factor(total_mass, rate, exhaust_velocity),
            thrust_spread(total_mass, velocity, rate, exhaust_velocity),
            turning_time(total_mass, velocity, rate, exhaust_velocity),
        ) matches (Some(f), Some(s), Some(turn)) ==> (f >= 0 ==> {
            let thrust = exhaust_velocity * rate / (SCALE as int);
            &&& turn >= 0
            &&& SCALE * (total_mass * velocity - SCALE) < turn * (thrust * (f + s))
            &&& (turn - 1) * (thrust * (f + s) - SCALE) <= total_mass * velocity * SCALE
        }),
{
    if let (Some(f), Some(s), Some(turn)) = (
        thrust_factor(total_mass, rate, exhaust_velocity),
        thrust_spread(total_mass, velocity, rate, exhaust_velocity),
        turning_time(total_mass, velocity, rate, exhaust_velocity),
    ) {
        if f >= 0 {
            let unit = SCALE as int;
            let thrust = exhaust_velocity * rate / unit;
            assert(0 <= exhaust_velocity * rate) by (nonlinear_arith)
                requires
                    exhaust_velocity > 0,
                    rate > 0,
            ;
            lemma_div_is_ordered(0, exhaust_velocity * rate, unit);
            let ratio = quotient_up(Some(velocity), Some(exhaust_velocity))->0;
            let radicand = f * f / unit + ratio;
            lemma_root_up_bounds(radicand);
            let momentum = total_mass * velocity / unit;
            lemma_floor(total_mass * velocity, unit);
            assert(0 <= total_mass * velocity) by (nonlinear_arith)
                requires
                    total_mass >= 0,
                    velocity >= 0,
            ;
            lemma_div_is_ordered(0, total_mass * velocity, unit);
            let wide = thrust * (f + s);
            assert(0 <= wide) by (nonlinear_arith)
                requires
                    wide == thrust * (f + s),
                    0 <= thrust,
                    0 <= f + s,
            ;
            let held = wide / unit;
            lemma_floor(wide, unit);
            lemma_div_is_ordered(0, wide, unit);
            assert(held > 0);
            lemma_quotient_up_bounds(momentum, held);
            let weighed = total_mass * velocity;
            assert(turn >= 0) by (nonlinear_arith)
                requires
                    unit > 0,
                    held > 0,
                    0 <= momentum,
                    momentum * unit <= held * turn,
            ;
            assert(unit * (weighed - unit) < turn * wide) by (nonlinear_arith)
                requires
                    unit > 0,
                    turn >= 0,
                    weighed < unit * momentum + unit,
                    unit * held <= wide,
                    momentum * unit <= held * turn,
            ;
            assert((turn - 1) * (wide - unit) <= weighed * unit) by (nonlinear_arith)
                requires
                    unit > 0,
                    held > 0,
                    turn >= 0,
                    0 <= weighed,
                    unit * momentum <= weighed,
                    unit * held <= wide < unit * held + unit,
                    held * (turn - 1) < momentum * unit,
            ;
        }
    }
}

/// The fall of a craft without thrust: the root `w` under the fall time is
/// the square root of `v^2 + 2 g h` to within the loss of two products and
/// of the root, and the fall time is `(w - v) / g` where that is not
/// negative, and nothing otherwise.
pub proof fn lemma_fall_accuracy(craft: Craft)
    ensures
        craft.fall_time() matches Some(time) ==> {
            let v = craft.phys.velocity;
            let energy = v * v + 2 * craft.phys.altitude * GRAVITY;
            &&& root(
                sum(
                    product(Some(v), Some(v)),
                    product(product(whole(2), Some(craft.phys.altitude)), Some(GRAVITY as int)),
                ),
            ) matches Some(w)
            &&& w * w <= energy < (w + 1) * (w + 1) + 2 * SCALE
            &&& time == if w > v {
                (w - v) * 1000
            } else {
                0
            }
        },
{
    if let Some(time) = craft.fall_time() {
        let unit = SCALE as int;
        let v = craft.phys.velocity;
        let h = craft.phys.altitude;
        let square = v * v / unit;
        lemma_floor(v * v, unit);
        let twice = 2 * unit * h / unit;
        assert(twice == 2 * h) by {
            vstd::arithmetic::div_mod::lemma_div_multiples_vanish(2 * h, unit);
            assert(2 * unit * h == unit * (2 * h)) by (nonlinear_arith);
        }
        let span = twice * GRAVITY / unit;
        lemma_floor(twice * GRAVITY, unit);
        assert(twice * GRAVITY == 2 * h * GRAVITY);
        let radicand = square + span;
        crate::fixed::lemma_root_bounds(radicand);
        let w = root(Some(radicand))->0;
        assert(radicand * unit == square * unit + span * unit) by (nonlinear_arith)
            requires
                radicand == square + span,
        ;
        let gap = w - v;
        assert(gap * unit / (GRAVITY as int) == gap * 1000) by {
            vstd::arithmetic::div_mod::lemma_div_multiples_vanish(gap * 1000, GRAVITY as int);
            assert(gap * unit == GRAVITY * (gap * 1000)) by (nonlinear_arith)
                requires
                    unit == 1000 * GRAVITY,
            ;
        }
    }
}

/// The estimate of the time to the surface that impact refinement uses:
/// with `w` the root of `v^2 + 2 h a`, where `a` is the acceleration towards
/// the surface, the estimate `t` is `2 h / (v + w)` to within the loss of
/// one quotient; `w` loses no more than two products and the root.
pub proof fn lemma_time_to_surface_accuracy(craft: Craft, rate: int)
    ensures
        craft.time_to_surface(rate) matches Some(time) ==> {
            let v = craft.phys.velocity;
            let h = craft.phys.altitude;
            let pull = difference(
                Some(GRAVITY as int),
                product(Some(craft.fuel_isp), quotient(Some(rate), Some(craft.total_mass))),
            );
            let w = root(sum(product(Some(v), Some(v)), product(Some(2 * h), pull)));
            &&& pull is Some
            &&& w is Some
            &&& w->0 * w->0 <= v * v + 2 * h * pull->0 < (w->0 + 1) * (w->0 + 1) + 2 * SCALE
            &&& v + w->0 != 0
            &&& v + w->0 > 0 ==> (v + w->0) * time <= 2 * h * SCALE < (v + w->0) * time + 2 * (v
                + w->0)
            &&& v + w->0 > 0 && h >= 0 ==> time >= 0
        },
{
    if let Some(time) = craft.time_to_surface(rate) {
        let unit = SCALE as int;
        let v = craft.phys.velocity;
        let h = craft.phys.altitude;
        let pull = difference(
            Some(GRAVITY as int),
            product(Some(craft.fuel_isp), quotient(Some(rate), Some(craft.total_mass))),
        )->0;
        let square = v * v / unit;
        lemma_floor(v * v, unit);
        let twice = 2 * unit * h / unit;
        assert(twice == 2 * h) by {
            vstd::arithmetic::div_mod::lemma_div_multiples_vanish(2 * h, unit);
            assert(2 * unit * h == unit * (2 * h)) by (nonlinear_arith);
        }
        assert(product(whole(2), Some(h)) == Some(twice));
        let span = twice * pull / unit;
        lemma_floor(twice * pull, unit);
        assert(twice * pull == 2 * h * pull) by (nonlinear_arith)
            requires
                twice == 2 * h,
        ;
        let radicand = square + span;
        crate::fixed::lemma_root_bounds(radicand);
        let w = root(Some(radicand))->0;
        assert(radicand * unit == square * unit + span * unit) by (nonlinear_arith)
            requires
                radicand == square + span,
        ;
        let speed = v + w;
        let part = h * unit / speed;
        if speed > 0 {
            lemma_floor(h * unit, speed);
            if h >= 0 {
                assert(0 <= h * unit) by (nonlinear_arith)
                    requires
                        h >= 0,
                        unit > 0,
                ;
                lemma_div_is_ordered(0, h * unit, speed);
                assert(0int / speed == 0) by (nonlinear_arith)
                    requires
                        speed > 0,
                ;
            }
        }
        let doubled = 2 * unit * part / unit;
        assert(doubled == 2 * part) by {
            vstd::arithmetic::div_mod::lemma_div_multiples_vanish(2 * part, unit);
            assert(2 * unit * part == unit * (2 * part)) by (nonlinear_arith);
        }
        assert(time == 2 * part);
        assert(speed * (2 * part) == 2 * (speed * part) && 2 * h * unit == 2 * (h * unit)) by (nonlinear_arith);
    }
}

} // verus!
