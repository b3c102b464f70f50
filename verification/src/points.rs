//! Fixed-point decimal numbers: the native price unit of an instrument.
//!
//! A [`Points`] value is a signed decimal with six decimal places, stored as
//! an `i128` count of millionths.  Multiplication and division round the
//! result back to six decimal places with round-half-to-even, which bounds
//! compounding error.

use vstd::arithmetic::div_mod::{
    lemma_fundamental_div_mod, lemma_fundamental_div_mod_converse_div,
    lemma_fundamental_div_mod_converse_mod,
};
use vstd::prelude::*;

verus! {

/// One whole point equals this many stored units (six decimal places).
pub const SCALE: i128 = 1_000_000;

/// Bound on the stored mantissa of any price, stop, size or threshold the
/// engine keeps: such values stay within a million million whole points,
/// which leaves room to multiply two of them inside an `i128`.
pub const POINTS_LIMIT: i128 = 1_000_000_000_000_000_000;

/// Bound on the stored mantissa of an account balance, which may grow well
/// beyond a single price while still leaving room to scale it by a fraction
/// inside an `i128`.
pub const BALANCE_LIMIT: i128 = 1_000_000_000_000_000_000_000_000_000_000;

/// Bound on numerators handed to [`round_div`]: one less than `i128::MAX`,
/// so the quotient can be bumped by one without overflowing.
pub const DIV_NUM_LIMIT: i128 = 170_141_183_460_469_231_731_687_303_715_884_105_726;

/// Bound on divisors handed to [`round_div`]: small enough that twice the
/// remainder still fits in an `i128`.
pub const DIV_DEN_LIMIT: i128 = 10_000_000_000_000_000_000_000_000_000_000_000_000;

/// Quotient of `n / d` rounded to the nearest integer, ties to even
/// (banker's rounding), for a positive divisor.
pub open spec fn round_div_spec(n: int, d: int) -> int
    recommends
        d > 0,
{
    let q = n / d;
    let r = n % d;
    if 2 * r < d {
        q
    } else if 2 * r > d {
        q + 1
    } else if q % 2 == 0 {
        q
    } else {
        q + 1
    }
}

/// Rounded division on machine integers, matching [`round_div_spec`].
pub fn round_div(n: i128, d: i128) -> (r: i128)
    requires
        0 < d <= DIV_DEN_LIMIT,
        -DIV_NUM_LIMIT <= n <= DIV_NUM_LIMIT,
    ensures
        r == round_div_spec(n as int, d as int),
{
    let du: u128 = d as u128;
    let nu: u128 = if n < 0 {
        (-n) as u128
    } else {
        n as u128
    };
    let q0: u128 = nu / du;
    let r0: u128 = nu % du;
    proof {
        lemma_fundamental_div_mod(nu as int, du as int);
        assert(nu as int == (q0 as int) * (d as int) + r0 as int) by (nonlinear_arith)
            requires
                nu as int == (du as int) * ((nu as int) / (du as int)) + (nu as int) % (du as int),
                q0 == (nu as int) / (du as int),
                r0 == (nu as int) % (du as int),
                du == d as int,
        ;
        assert(q0 as int <= nu as int) by (nonlinear_arith)
            requires
                nu as int == (q0 as int) * (d as int) + r0 as int,
                d as int >= 1,
                r0 as int >= 0,
                q0 as int >= 0,
        ;
    }
    let (qe, re): (i128, i128) = if n >= 0 {
        proof {
            lemma_fundamental_div_mod_converse_div(
                n as int,
                d as int,
                q0 as int,
                r0 as int,
            );
            lemma_fundamental_div_mod_converse_mod(
                n as int,
                d as int,
                q0 as int,
                r0 as int,
            );
        }
        (q0 as i128, r0 as i128)
    } else if r0 == 0 {
        proof {
            assert(n as int == (-(q0 as int)) * (d as int) + 0) by (nonlinear_arith)
                requires
                    nu as int == (q0 as int) * (d as int) + r0 as int,
                    r0 == 0,
                    n as int == -(nu as int),
            ;
            lemma_fundamental_div_mod_converse_div(n as int, d as int, -(q0 as int), 0);
            lemma_fundamental_div_mod_converse_mod(n as int, d as int, -(q0 as int), 0);
        }
        (-(q0 as i128), 0)
    } else {
        proof {
            assert(n as int == (-(q0 as int) - 1) * (d as int) + (d as int - r0 as int))
                by (nonlinear_arith)
                requires
                    nu as int == (q0 as int) * (d as int) + r0 as int,
                    n as int == -(nu as int),
            ;
            lemma_fundamental_div_mod_converse_div(
                n as int,
                d as int,
                -(q0 as int) - 1,
                d as int - r0 as int,
            );
            lemma_fundamental_div_mod_converse_mod(
                n as int,
                d as int,
                -(q0 as int) - 1,
                d as int - r0 as int,
            );
        }
        (-(q0 as i128) - 1, d - (r0 as i128))
    };
    assert(qe == n as int / d as int);
    assert(re == n as int % d as int);
    if 2 * re < d {
        qe
    } else if 2 * re > d {
        qe + 1
    } else if qe % 2 == 0 {
        qe
    } else {
        qe + 1
    }
}

/// A signed fixed-point price quantity with six decimal places.
#[derive(Clone, Copy, Debug, PartialEq, Eq, Structural, Hash)]
pub struct Points {
    /// The value in millionths of a point.
    pub m: i128,
}

impl Points {
    /// Whether the value is within the bound kept for stored prices.
    pub open spec fn wf(self) -> bool {
        -POINTS_LIMIT <= self.m <= POINTS_LIMIT
    }

    /// Builds a value from a count of millionths of a point.
    pub fn micros(m: i128) -> (r: Points)
        ensures
            r.m == m,
    {
        Points { m }
    }

    /// Builds a whole number of points.
    pub fn whole(v: i64) -> (r: Points)
        ensures
            r.m == v * 1_000_000,
    {
        Points { m: (v as i128) * 1_000_000 }
    }

    /// Zero points.
    pub fn zero() -> (r: Points)
        ensures
            r.m == 0,
    {
        Points { m: 0 }
    }

    /// Exact addition.
    pub fn plus(self, rhs: Points) -> (r: Points)
        requires
            -DIV_NUM_LIMIT <= self.m + rhs.m <= DIV_NUM_LIMIT,
        ensures
            r.m == self.m + rhs.m,
    {
        Points { m: self.m + rhs.m }
    }

    /// Exact subtraction.
    pub fn minus(self, rhs: Points) -> (r: Points)
        requires
            -DIV_NUM_LIMIT <= self.m - rhs.m <= DIV_NUM_LIMIT,
        ensures
            r.m == self.m - rhs.m,
    {
        Points { m: self.m - rhs.m }
    }

    /// Absolute value.
    pub fn abs_val(self) -> (r: Points)
        requires
            self.m > -DIV_NUM_LIMIT,
        ensures
            r.m == abs_spec(self.m as int),
    {
        if self.m >= 0 {
            self
        } else {
            Points { m: -self.m }
        }
    }

    /// Product rounded back to six decimal places.
    pub fn times(self, rhs: Points) -> (r: Points)
        requires
            -10_000_000_000_000_000_000_000_000_000_000_000_000 <= self.m * rhs.m
                <= 10_000_000_000_000_000_000_000_000_000_000_000_000,
        ensures
            r.m == round_div_spec(self.m * rhs.m, 1_000_000),
    {
        Points { m: round_div(self.m * rhs.m, 1_000_000) }
    }

    /// Quotient rounded to six decimal places.  The divisor must not be zero.
    pub fn over(self, rhs: Points) -> (r: Points)
        requires
            rhs.m != 0,
            -DIV_DEN_LIMIT <= rhs.m <= DIV_DEN_LIMIT,
            -100_000_000_000_000_000_000_000_000_000_000 <= self.m
                <= 100_000_000_000_000_000_000_000_000_000_000,
        ensures
            r.m == div_points_spec(self.m as int, rhs.m as int),
    {
        if rhs.m > 0 {
            Points { m: round_div(self.m * 1_000_000, rhs.m) }
        } else {
            Points { m: round_div(-(self.m * 1_000_000), -rhs.m) }
        }
    }
}

/// Absolute value of a mathematical integer.
pub open spec fn abs_spec(n: int) -> int {
    if n >= 0 {
        n
    } else {
        -n
    }
}

/// Quotient of two fixed-point values, rounded to six decimal places, with
/// the sign moved onto the numerator so the rounded division sees a positive
/// divisor.
pub open spec fn div_points_spec(n: int, d: int) -> int
    recommends
        d != 0,
{
    if d > 0 {
        round_div_spec(n * 1_000_000, d)
    } else {
        round_div_spec(-(n * 1_000_000), -d)
    }
}

/// Product of two fixed-point values, rounded to six decimal places.
pub open spec fn mul_points_spec(a: int, b: int) -> int {
    round_div_spec(a * b, 1_000_000)
}

/// The rounded quotient sits within half a divisor of the true quotient:
/// `2n` lies between `(2k - 1) d` and `(2k + 1) d`.
pub proof fn lemma_round_div_bounds(n: int, d: int)
    requires
        d > 0,
    ensures
        (2 * round_div_spec(n, d) - 1) * d <= 2 * n <= (2 * round_div_spec(n, d) + 1) * d,
{
    let q = n / d;
    let r = n % d;
    lemma_fundamental_div_mod(n, d);
    assert(2 * n == 2 * q * d + 2 * r) by (nonlinear_arith)
        requires
            n == q * d + r,
    ;
    assert((2 * q - 1) * d == 2 * q * d - d) by (nonlinear_arith);
    assert((2 * q + 1) * d == 2 * q * d + d) by (nonlinear_arith);
    assert((2 * q + 2) * d == 2 * q * d + 2 * d) by (nonlinear_arith);
    assert((2 * q + 3) * d == 2 * q * d + 3 * d) by (nonlinear_arith);
}

/// Dividing an exact multiple is exact.
pub proof fn lemma_round_div_exact(k: int, d: int)
    requires
        d > 0,
    ensures
        round_div_spec(k * d, d) == k,
{
    lemma_fundamental_div_mod_converse_div(k * d, d, k, 0);
    lemma_fundamental_div_mod_converse_mod(k * d, d, k, 0);
}

/// Rounded division is monotone in the numerator.
pub proof fn lemma_round_div_monotone(n1: int, n2: int, d: int)
    requires
        d > 0,
        n1 <= n2,
    ensures
        round_div_spec(n1, d) <= round_div_spec(n2, d),
{
    let q1 = n1 / d;
    let r1 = n1 % d;
    let q2 = n2 / d;
    let r2 = n2 % d;
    lemma_fundamental_div_mod(n1, d);
    lemma_fundamental_div_mod(n2, d);
    assert(q1 <= q2) by {
        if q1 > q2 {
            assert(q1 * d + r1 > q2 * d + r2) by (nonlinear_arith)
                requires
                    q1 >= q2 + 1,
                    0 <= r1 < d,
                    0 <= r2 < d,
            ;
        }
    }
    if q1 == q2 {
        assert(r1 <= r2);
    }
}

/// A rounded fixed-point quotient of a bounded numerator stays bounded,
/// whatever the nonzero divisor.
pub proof fn lemma_div_points_in_range(n: int, d: int)
    requires
        d != 0,
        -2_000_000_000_000_000_000_000_000_000_000 <= n <= 2_000_000_000_000_000_000_000_000_000_000,
    ensures
        -2_000_000_000_000_000_000_000_000_000_000_000_000 <= div_points_spec(n, d)
            <= 2_000_000_000_000_000_000_000_000_000_000_000_000,
{
    let big: int = 2_000_000_000_000_000_000_000_000_000_000_000_000;
    if d > 0 {
        assert((-big) * d <= n * 1_000_000 <= big * d) by (nonlinear_arith)
            requires
                d >= 1,
                -big <= n * 1_000_000 <= big,
        ;
        lemma_round_div_range(n * 1_000_000, d, -big, big);
    } else {
        assert((-big) * (-d) <= -(n * 1_000_000) <= big * (-d)) by (nonlinear_arith)
            requires
                -d >= 1,
                -big <= -(n * 1_000_000) <= big,
        ;
        lemma_round_div_range(-(n * 1_000_000), -d, -big, big);
    }
}

/// A value between two exact multiples rounds to a quotient between them.
pub proof fn lemma_round_div_range(n: int, d: int, lo: int, hi: int)
    requires
        d > 0,
        lo * d <= n <= hi * d,
    ensures
        lo <= round_div_spec(n, d) <= hi,
{
    lemma_round_div_exact(lo, d);
    lemma_round_div_exact(hi, d);
    lemma_round_div_monotone(lo * d, n, d);
    lemma_round_div_monotone(n, hi * d, d);
}

} // verus!
