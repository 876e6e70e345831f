//! Exact rational values produced by the hit test, and their rounding to
//! hundredths for reporting.

use vstd::prelude::*;

verus! {

/// Largest magnitude allowed for a numerator or denominator of a [`Rat`]
/// (2^119). Every rational the hit test produces stays under this bound,
/// which leaves room to form `200 * num + den` in `i128` when rounding.
pub const RAT_BOUND: i128 = 664613997892457936451903530140172288;

/// Mathematical model of a rational: an unbounded numerator and denominator.
pub ghost struct RatS {
    pub num: int,
    pub den: int,
}

/// An exact rational number `num / den`.
#[derive(Clone, Copy, Debug, PartialEq, Eq, Structural)]
pub struct Rat {
    pub num: i128,
    pub den: i128,
}

impl View for Rat {
    type V = RatS;

    open spec fn view(&self) -> RatS {
        RatS { num: self.num as int, den: self.den as int }
    }
}

/// The fraction `n / d` with its sign moved into the numerator, so that the
/// denominator is positive whenever `d != 0`.
pub open spec fn rat_norm_s(n: int, d: int) -> RatS {
    if d >= 0 {
        RatS { num: n, den: d }
    } else {
        RatS { num: -n, den: -d }
    }
}

/// The hundredth nearest to `n / d` (for `0 <= n <= d`, `d > 0`), with ties
/// rounded up: `round(100 * n / d)`.
pub open spec fn hundredths_of(n: int, d: int) -> int {
    (200 * n + d) / (2 * d)
}

impl Rat {
    /// A well-formed rational has a positive denominator and both parts
    /// within [`RAT_BOUND`].
    pub open spec fn wf(self) -> bool {
        &&& 0 < self@.den <= RAT_BOUND as int
        &&& -(RAT_BOUND as int) <= self@.num <= RAT_BOUND as int
    }

    /// Builds the sign-normalized rational `n / d`.
    pub fn norm(n: i128, d: i128) -> (r: Rat)
        requires
            d != 0,
            -(RAT_BOUND as int) <= n as int <= RAT_BOUND as int,
            -(RAT_BOUND as int) <= d as int <= RAT_BOUND as int,
        ensures
            r@ == rat_norm_s(n as int, d as int),
            r.wf(),
    {
        if d >= 0 {
            Rat { num: n, den: d }
        } else {
            Rat { num: -n, den: -d }
        }
    }
}

/// Rounds a rational in `[0, 1]` to the nearest hundredth, ties up. This is
/// the value printed with two decimal places in a hit report.
pub fn hundredths(r: &Rat) -> (h: u8)
    requires
        r.wf(),
        0 <= r@.num <= r@.den,
    ensures
        h as int == hundredths_of(r@.num, r@.den),
        h <= 100,
{
    let n = r.num as u128;
    let d = r.den as u128;
    let q = (200 * n + d) / (2 * d);
    proof {
        let x = 200 * (n as int) + d as int;
        let dd = 2 * (d as int);
        vstd::arithmetic::div_mod::lemma_fundamental_div_mod(x, dd);
        assert(x / dd <= 100) by (nonlinear_arith)
            requires
                x == dd * (x / dd) + x % dd,
                0 <= x % dd,
                x <= 201 * (d as int),
                dd == 2 * (d as int),
                d as int > 0;
        assert(x / dd >= 0) by (nonlinear_arith)
            requires
                x == dd * (x / dd) + x % dd,
                x % dd < dd,
                x >= 0,
                dd > 0;
    }
    q as u8
}

} // verus!
