//! Checked decimal fixed-point numbers with fifteen fractional digits.
//!
//! The mathematical model of a [`Fixed`] is the integer `raw`; the quantity
//! it denotes is `raw / SCALE`. Products and quotients are rounded by
//! Euclidean division (the remainder is never negative), square roots are
//! rounded down. The model of a computation that may fail is an
//! `Option<int>`, and every operation on models is strict: a missing operand
//! gives a missing result. An operation fails where what it forms cannot be
//! stored in 128 bits, where a divisor is zero, and where a square root is
//! asked of a negative number; it never wraps and never panics. A product
//! is formed in full before it is scaled down, and a dividend and the
//! argument of a root are scaled up before they are used: these must fit
//! as well.

use vstd::prelude::*;

verus! {

/// Raw units per whole unit.
pub const SCALE: i128 = 1_000_000_000_000_000;

/// A signed decimal number with fifteen fractional digits.
#[derive(Clone, Copy, Debug, PartialEq, Eq, Structural)]
pub struct Fixed {
    /// The number of units of the last digit.
    pub raw: i128,
}

impl View for Fixed {
    type V = int;

    open spec fn view(&self) -> int {
        self.raw as int
    }
}

/// Whether `x` units of the last digit can be stored.
pub open spec fn representable(x: int) -> bool {
    i128::MIN <= x <= i128::MAX
}

/// `x` when it can be stored, nothing otherwise.
pub open spec fn fit(x: int) -> Option<int> {
    if representable(x) {
        Some(x)
    } else {
        None
    }
}

/// The model of an optional number.
pub open spec fn lift(o: Option<Fixed>) -> Option<int> {
    match o {
        Some(f) => Some(f@),
        None => None,
    }
}

/// The sum of two numbers.
pub open spec fn sum(a: Option<int>, b: Option<int>) -> Option<int> {
    match (a, b) {
        (Some(x), Some(y)) => fit(x + y),
        _ => None,
    }
}

/// The first number less the second.
pub open spec fn difference(a: Option<int>, b: Option<int>) -> Option<int> {
    match (a, b) {
        (Some(x), Some(y)) => fit(x - y),
        _ => None,
    }
}

/// A number with its sign changed.
pub open spec fn opposite(a: Option<int>) -> Option<int> {
    match a {
        Some(x) => fit(-x),
        None => None,
    }
}

/// The product of two numbers, rounded down to the last digit; nothing
/// where the full product cannot be stored.
pub open spec fn product(a: Option<int>, b: Option<int>) -> Option<int> {
    match (a, b) {
        (Some(x), Some(y)) => if representable(x * y) {
            Some(x * y / (SCALE as int))
        } else {
            None
        },
        _ => None,
    }
}

/// The Euclidean quotient of two numbers at the resolution of the last
/// digit; nothing when the divisor is zero or the dividend, scaled up,
/// cannot be stored.
pub open spec fn quotient(a: Option<int>, b: Option<int>) -> Option<int> {
    match (a, b) {
        (Some(x), Some(y)) => if y == 0 || !representable(x * SCALE) {
            None
        } else {
            fit(x * SCALE / y)
        },
        _ => None,
    }
}

/// Whether `r` is the integer square root of `n`.
pub open spec fn is_floor_sqrt(n: int, r: int) -> bool {
    0 <= r && r * r <= n < (r + 1) * (r + 1)
}

/// The largest integer whose square does not exceed `n`, for `n >= 0`.
pub open spec fn floor_sqrt(n: int) -> int {
    choose|r: int| is_floor_sqrt(n, r)
}

/// The square root of a number, rounded down to the last digit; nothing
/// for a negative number or one that, scaled up, cannot be stored.
pub open spec fn root(a: Option<int>) -> Option<int> {
    match a {
        Some(x) => if x < 0 || !representable(x * SCALE) {
            None
        } else {
            Some(floor_sqrt(x * SCALE))
        },
        None => None,
    }
}

/// The least integer whose square is not below `n`, for `n >= 0`.
pub open spec fn ceil_sqrt(n: int) -> int {
    if floor_sqrt(n) * floor_sqrt(n) == n {
        floor_sqrt(n)
    } else {
        floor_sqrt(n) + 1
    }
}

/// The square root of a number, rounded up to the last digit; nothing for
/// a negative number or one that, scaled up, cannot be stored.
pub open spec fn root_up(a: Option<int>) -> Option<int> {
    match a {
        Some(x) => if x < 0 || !representable(x * SCALE) {
            None
        } else {
            Some(ceil_sqrt(x * SCALE))
        },
        None => None,
    }
}

/// The quotient of two numbers, rounded up to the last digit where the
/// divisor is positive.
pub open spec fn quotient_up(a: Option<int>, b: Option<int>) -> Option<int> {
    opposite(quotient(opposite(a), b))
}

impl Fixed {
    /// The number with the given count of units of the last digit.
    pub fn from_raw(raw: i128) -> (f: Fixed)
        ensures
            f@ == raw,
    {
        Fixed { raw }
    }

    /// `self + rhs`, if that can be stored.
    pub fn plus(self, rhs: Fixed) -> (r: Option<Fixed>)
        ensures
            lift(r) == sum(Some(self@), Some(rhs@)),
    {
        match self.raw.checked_add(rhs.raw) {
            Some(raw) => Some(Fixed { raw }),
            None => None,
        }
    }

    /// `self - rhs`, if that can be stored.
    pub fn minus(self, rhs: Fixed) -> (r: Option<Fixed>)
        ensures
            lift(r) == difference(Some(self@), Some(rhs@)),
    {
        match self.raw.checked_sub(rhs.raw) {
            Some(raw) => Some(Fixed { raw }),
            None => None,
        }
    }

    /// `-self`, if that can be stored.
    pub fn negated(self) -> (r: Option<Fixed>)
        ensures
            lift(r) == opposite(Some(self@)),
    {
        match 0i128.checked_sub(self.raw) {
            Some(raw) => Some(Fixed { raw }),
            None => None,
        }
    }

    /// `self * rhs` rounded down to the last digit, if the full product can
    /// be stored.
    pub fn times(self, rhs: Fixed) -> (r: Option<Fixed>)
        ensures
            lift(r) == product(Some(self@), Some(rhs@)),
    {
        let full = self.raw.checked_mul(rhs.raw)?;
        match full.checked_div_euclid(SCALE) {
            Some(raw) => Some(Fixed { raw }),
            None => None,
        }
    }

    /// `self / rhs` at the resolution of the last digit, with a remainder
    /// that is not negative, if `rhs` is not zero and `self`, scaled up, can
    /// be stored.
    pub fn over(self, rhs: Fixed) -> (r: Option<Fixed>)
        ensures
            lift(r) == quotient(Some(self@), Some(rhs@)),
    {
        if rhs.raw == 0 {
            return None;
        }
        let scaled = self.raw.checked_mul(SCALE)?;
        match scaled.checked_div_euclid(rhs.raw) {
            Some(raw) => Some(Fixed { raw }),
            None => None,
        }
    }

    /// The square root, rounded down; nothing for a negative number or one
    /// that, scaled up, cannot be stored.
    pub fn sqrt(self) -> (r: Option<Fixed>)
        ensures
            lift(r) == root(Some(self@)),
    {
        if self.raw < 0 {
            return None;
        }
        let scaled = self.raw.checked_mul(SCALE)?;
        let n: u128 = scaled as u128;
        let mut lo: u128 = 0;
        let mut hi: u128 = 0x1_0000_0000_0000_0000;
        while hi - lo > 1
            invariant
                lo < hi <= 0x1_0000_0000_0000_0000,
                lo * lo <= n < hi * hi,
                n <= i128::MAX,
            decreases hi - lo,
        {
            let mid: u128 = lo + (hi - lo) / 2;
            assert(mid * mid < 0x1_0000_0000_0000_0000 * 0x1_0000_0000_0000_0000)
                by (nonlinear_arith)
                requires
                    mid < 0x1_0000_0000_0000_0000,
            ;
            if mid * mid <= n {
                lo = mid;
            } else {
                hi = mid;
            }
        }
        proof {
            lemma_floor_sqrt_is(n as int, lo as int);
        }
        Some(Fixed { raw: lo as i128 })
    }

    /// The square root, rounded up; nothing for a negative number or one
    /// that, scaled up, cannot be stored.
    pub fn sqrt_up(self) -> (r: Option<Fixed>)
        ensures
            lift(r) == root_up(Some(self@)),
    {
        let down = self.sqrt()?;
        let scaled = self.raw.checked_mul(SCALE)?;
        proof {
            lemma_floor_sqrt_exists(scaled as nat);
            assert(down.raw * down.raw <= scaled);
        }
        if down.raw * down.raw == scaled {
            Some(down)
        } else {
            assert(down.raw < 0x1_0000_0000_0000_0000) by (nonlinear_arith)
                requires
                    0 <= down.raw,
                    down.raw * down.raw <= scaled,
                    scaled < 0x1_0000_0000_0000_0000 * 0x1_0000_0000_0000_0000,
            ;
            Some(Fixed { raw: down.raw + 1 })
        }
    }

    /// `self / rhs` rounded up to the last digit where `rhs` is positive.
    pub fn over_up(self, rhs: Fixed) -> (r: Option<Fixed>)
        ensures
            lift(r) == quotient_up(Some(self@), Some(rhs@)),
    {
        self.negated()?.over(rhs)?.negated()
    }
}

/// A Euclidean quotient by a positive divisor is the exact quotient rounded
/// down.
pub proof fn lemma_floor(x: int, d: int)
    requires
        d > 0,
    ensures
        d * (x / d) <= x < d * (x / d) + d,
{
    vstd::arithmetic::div_mod::lemma_fundamental_div_mod(x, d);
    vstd::arithmetic::div_mod::lemma_mod_bound(x, d);
}

/// A product loses less than a unit of the last digit to rounding.
pub proof fn lemma_product_bounds(a: int, b: int)
    ensures
        product(Some(a), Some(b)) matches Some(p) ==> SCALE * p <= a * b < SCALE * p + SCALE,
{
    lemma_floor(a * b, SCALE as int);
}

/// A quotient by a positive number is rounded down, a quotient by a
/// negative number is rounded up, and either loses less than a unit of the
/// last digit.
pub proof fn lemma_quotient_bounds(a: int, b: int)
    ensures
        quotient(Some(a), Some(b)) matches Some(q) ==> {
            &&& b > 0 ==> b * q <= a * SCALE < b * q + b
            &&& b < 0 ==> b * q <= a * SCALE < b * q - b
        },
{
    if b != 0 {
        vstd::arithmetic::div_mod::lemma_fundamental_div_mod(a * SCALE, b);
        if b > 0 {
            vstd::arithmetic::div_mod::lemma_mod_bound(a * SCALE, b);
        } else {
            lemma_remainder_bounds(a * SCALE, b);
        }
    }
}

/// The remainder of a Euclidean division is never negative and less than
/// the divisor in magnitude, also where the divisor is negative.
proof fn lemma_remainder_bounds(x: int, d: int)
    requires
        d < 0,
    ensures
        0 <= x % d < -d,
{
    assert(0 <= x % d < -d) by (nonlinear_arith)
        requires
            d < 0,
    ;
}

/// A square root is rounded down and loses less than a unit of the last
/// digit.
pub proof fn lemma_root_bounds(a: int)
    ensures
        root(Some(a)) matches Some(r) ==> 0 <= r && r * r <= a * SCALE < (r + 1) * (r + 1),
{
    if 0 <= a {
        lemma_floor_sqrt_exists((a * SCALE) as nat);
    }
}

/// Every natural number has an integer square root.
pub proof fn lemma_floor_sqrt_exists(n: nat)
    ensures
        is_floor_sqrt(n as int, floor_sqrt(n as int)),
    decreases n,
{
    if n == 0 {
        assert(is_floor_sqrt(0, 0));
    } else {
        lemma_floor_sqrt_exists((n - 1) as nat);
        let r = floor_sqrt(n - 1);
        if (r + 1) * (r + 1) <= n {
            assert(n < (r + 2) * (r + 2)) by (nonlinear_arith)
                requires
                    0 <= r,
                    (r + 1) * (r + 1) == n,
            ;
            assert(is_floor_sqrt(n as int, r + 1));
        } else {
            assert(is_floor_sqrt(n as int, r));
        }
    }
}

/// A quotient that is rounded up is the least number that, times a
/// positive divisor, is not below the dividend.
pub proof fn lemma_quotient_up_bounds(a: int, b: int)
    requires
        b > 0,
    ensures
        quotient_up(Some(a), Some(b)) matches Some(q) ==> b * (q - 1) < a * SCALE <= b * q,
{
    if let Some(q) = quotient_up(Some(a), Some(b)) {
        lemma_floor((-a) * SCALE, b);
        assert((-a) * SCALE == -(a * SCALE)) by (nonlinear_arith);
        assert(b * (q - 1) == b * q - b && b * (-q) == -(b * q)) by (nonlinear_arith);
    }
}

/// A square root that is rounded up is the least number whose square is
/// not below the argument.
pub proof fn lemma_root_up_bounds(a: int)
    ensures
        root_up(Some(a)) matches Some(r) ==> 0 <= r && (r == 0 || (r - 1) * (r - 1) < a * SCALE)
            && a * SCALE <= r * r,
{
    if 0 <= a {
        let n = a * SCALE;
        lemma_floor_sqrt_exists(n as nat);
        let down = floor_sqrt(n);
        if down * down == n {
            assert(down == 0 || (down - 1) * (down - 1) < down * down) by (nonlinear_arith)
                requires
                    0 <= down,
            ;
        } else {
            assert((down + 1 - 1) * (down + 1 - 1) == down * down) by (nonlinear_arith);
        }
    }
}

/// At most one integer is the integer square root of `n`.
pub proof fn lemma_floor_sqrt_unique(n: int, r: int, s: int)
    requires
        is_floor_sqrt(n, r),
        is_floor_sqrt(n, s),
    ensures
        r == s,
{
    if r < s {
        assert((r + 1) * (r + 1) <= s * s) by (nonlinear_arith)
            requires
                0 <= r,
                r + 1 <= s,
        ;
    } else if s < r {
        assert((s + 1) * (s + 1) <= r * r) by (nonlinear_arith)
            requires
                0 <= s,
                s + 1 <= r,
        ;
    }
}

/// An integer that squares to at most `n` while its successor squares beyond
/// `n` is the integer square root of `n`.
pub proof fn lemma_floor_sqrt_is(n: int, r: int)
    requires
        is_floor_sqrt(n, r),
    ensures
        floor_sqrt(n) == r,
{
    lemma_floor_sqrt_unique(n, r, floor_sqrt(n));
}

} // verus!
