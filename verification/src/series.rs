//! The two mass-fraction series of the rocket equation.
//!
//! A burn that consumes the fraction `q` of the craft's mass changes its
//! velocity by the exhaust velocity times `ln(1 - q)`; both that logarithm and
//! its time integral are taken to the fifth order in `q`.

use vstd::prelude::*;
use crate::fixed::{Fixed, SCALE, lift, opposite, product, quotient, sum};

verus! {

/// The whole number `n` as a model.
pub open spec fn whole(n: int) -> Option<int> {
    Some(n * SCALE)
}

/// `-(q + q^2/2 + q^3/3 + q^4/4 + q^5/5)`, each power and each quotient
/// rounded down as it is formed.
pub open spec fn velocity_series(q: int) -> Option<int> {
    let q1 = Some(q);
    let q2 = product(q1, q1);
    let q3 = product(q2, q1);
    let q4 = product(q3, q1);
    let q5 = product(q4, q1);
    opposite(
        sum(
            sum(sum(sum(q1, quotient(q2, whole(2))), quotient(q3, whole(3))), quotient(q4, whole(4))),
            quotient(q5, whole(5)),
        ),
    )
}

/// `q/2 + q^2/6 + q^3/12 + q^4/20 + q^5/30`, each power and each quotient
/// rounded down as it is formed.
pub open spec fn altitude_series(q: int) -> Option<int> {
    let q1 = Some(q);
    let q2 = product(q1, q1);
    let q3 = product(q2, q1);
    let q4 = product(q3, q1);
    let q5 = product(q4, q1);
    sum(
        sum(
            sum(
                sum(quotient(q1, whole(2)), quotient(q2, whole(6))),
                quotient(q3, whole(12)),
            ),
            quotient(q4, whole(20)),
        ),
        quotient(q5, whole(30)),
    )
}

/// The whole number `n` as a value.
fn integer(n: i128) -> (f: Fixed)
    requires
        0 <= n <= 1_000_000,
    ensures
        Some(f@) == whole(n as int),
{
    Fixed { raw: n * SCALE }
}

/// The velocity contribution per unit of exhaust velocity of a burn that
/// consumes the mass fraction `q`.
pub fn velocity_mass_factor(q: Fixed) -> (f: Option<Fixed>)
    ensures
        lift(f) == velocity_series(q@),
{
    let q2 = q.times(q)?;
    let q3 = q2.times(q)?;
    let q4 = q3.times(q)?;
    let q5 = q4.times(q)?;
    let t2 = q2.over(integer(2))?;
    let t3 = q3.over(integer(3))?;
    let t4 = q4.over(integer(4))?;
    let t5 = q5.over(integer(5))?;
    q.plus(t2)?.plus(t3)?.plus(t4)?.plus(t5)?.negated()
}

/// The altitude contribution per unit of exhaust velocity and of time of a
/// burn that consumes the mass fraction `q`.
pub fn altitude_mass_factor(q: Fixed) -> (f: Option<Fixed>)
    ensures
        lift(f) == altitude_series(q@),
{
    let q2 = q.times(q)?;
    let q3 = q2.times(q)?;
    let q4 = q3.times(q)?;
    let q5 = q4.times(q)?;
    let t1 = q.over(integer(2))?;
    let t2 = q2.over(integer(6))?;
    let t3 = q3.over(integer(12))?;
    let t4 = q4.over(integer(20))?;
    let t5 = q5.over(integer(30))?;
    t1.plus(t2)?.plus(t3)?.plus(t4)?.plus(t5)
}

} // verus!
