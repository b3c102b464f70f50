//! The streaming exponential-moving-average primitive.
//!
//! An EMA over a sequence seeds with the first sample unsmoothed and then
//! blends each new sample into the running average with weight
//! `alpha = 2 / (length + 1)`, rounding each blended value back to six
//! decimal places.

use crate::points::{round_div_spec, Points};
use rust_decimal::MathematicalOps;
use vstd::prelude::*;

verus! {

/// The natural logarithm of a positive fixed-point value, rounded to six
/// decimal places, both taken as counts of millionths.
pub uninterp spec fn ln_micros(m: int) -> int;

/// Relies on rust_decimal's `MathematicalOps::ln`: the natural logarithm
/// of a positive decimal, a function of its argument alone.  The result
/// is rounded back to six decimal places; it is nonpositive for arguments
/// below one, and logarithms of values between a millionth and a million
/// million stay far inside one hundred.
#[verifier::external_body]
pub(crate) fn decimal_ln(x: &Points) -> (r: Points)
    requires
        1 <= x.m <= 1_000_000_000_000_000_000,
    ensures
        r.m == ln_micros(x.m as int),
        x.m < 1_000_000 ==> r.m <= 0,
        -100_000_000 <= r.m <= 100_000_000,
{
    let d = rust_decimal::Decimal::from_i128_with_scale(x.m, 6);
    let mut l = d.ln().round_dp(6);
    l.rescale(6);
    Points { m: l.mantissa() }
}

/// Bound kept on every sample fed to an EMA; twice the stored price bound,
/// so differences of prices qualify as samples.
pub const EMA_BOUND: i128 = 2_000_000_000_000_000_000;

/// The smoothing weight for a window of `length` samples, as a mantissa:
/// `2 / (length + 1)` rounded to six decimal places.
pub open spec fn alpha_spec(length: int) -> int {
    round_div_spec(2_000_000, length + 1)
}

/// One smoothing step: `alpha * value + (1 - alpha) * prev`, computed
/// exactly on mantissas and rounded once to six decimal places.
pub open spec fn ema_step_spec(alpha: int, value: int, prev: int) -> int {
    round_div_spec(alpha * value + (1_000_000 - alpha) * prev, 1_000_000)
}

/// The smoothed value at position `i` of a sample sequence: the seed at
/// position 0 is the raw first sample.
pub open spec fn ema_at(s: Seq<int>, alpha: int, i: int) -> int
    recommends
        0 <= i < s.len(),
    decreases i,
{
    if i <= 0 {
        s[0]
    } else {
        ema_step_spec(alpha, s[i], ema_at(s, alpha, i - 1))
    }
}

/// The mantissas of a sequence of fixed-point values.
pub open spec fn seq_m(s: Seq<Points>) -> Seq<int> {
    s.map_values(|p: Points| p.m as int)
}

/// A smoothing step stays between its two inputs' bounds.
pub proof fn lemma_ema_step_in_range(alpha: int, value: int, prev: int, lo: int, hi: int)
    requires
        0 <= alpha <= 1_000_000,
        lo <= value <= hi,
        lo <= prev <= hi,
    ensures
        lo <= ema_step_spec(alpha, value, prev) <= hi,
{
    assert(lo * 1_000_000 <= alpha * value + (1_000_000 - alpha) * prev <= hi * 1_000_000)
        by (nonlinear_arith)
        requires
            0 <= alpha <= 1_000_000,
            lo <= value <= hi,
            lo <= prev <= hi,
    ;
    crate::points::lemma_round_div_range(
        alpha * value + (1_000_000 - alpha) * prev,
        1_000_000,
        lo,
        hi,
    );
}

/// Every smoothed value stays within the bound of the samples.
pub proof fn lemma_ema_at_in_range(s: Seq<int>, alpha: int, i: int, lo: int, hi: int)
    requires
        0 <= alpha <= 1_000_000,
        0 <= i < s.len(),
        forall|j: int| 0 <= j < s.len() ==> lo <= #[trigger] s[j] <= hi,
    ensures
        lo <= ema_at(s, alpha, i) <= hi,
    decreases i,
{
    if i > 0 {
        lemma_ema_at_in_range(s, alpha, i - 1, lo, hi);
        lemma_ema_step_in_range(alpha, s[i], ema_at(s, alpha, i - 1), lo, hi);
    }
}

/// A lazily stepped exponential moving average.
pub struct EMA {
    pub alpha: Points,
    pub prev: Option<Points>,
}

impl EMA {
    /// The weight is a fraction and the running value, once seeded, is in
    /// sample range.
    pub open spec fn wf(self) -> bool {
        &&& 0 <= self.alpha.m <= 1_000_000
    &&& match self.prev {
            Some(p) => -EMA_BOUND <= p.m <= EMA_BOUND,
            None => true,
        }
    }

    /// A fresh average for the given window length, not yet seeded.
    pub fn new(length: usize) -> (r: EMA)
        requires
            1 <= length <= 1_000_000,
        ensures
            r.alpha.m == alpha_spec(length as int),
            r.prev is None,
            r.wf(),
    {
        let alpha = crate::points::round_div(2_000_000, length as i128 + 1);
        proof {
            crate::points::lemma_round_div_range(2_000_000, length as int + 1, 0, 1_000_000);
        }
        EMA { alpha: Points { m: alpha }, prev: None }
    }

    /// Feeds one sample and returns the smoothed value: the first sample
    /// seeds the average unchanged, later ones are blended in with weight
    /// `alpha`.
    pub fn next(&mut self, value: Points) -> (r: Points)
        requires
            old(self).wf(),
            -EMA_BOUND <= value.m <= EMA_BOUND,
        ensures
            final(self).wf(),
            final(self).alpha == old(self).alpha,
            r.m == match old(self).prev {
                None => value.m as int,
                Some(p) => ema_step_spec(old(self).alpha.m as int, value.m as int, p.m as int),
            },
            final(self).prev == Some(r),
    {
        match self.prev {
            None => {
                self.prev = Some(value);
                value
            },
            Some(p) => {
                proof {
                    lemma_ema_step_in_range(
                        self.alpha.m as int,
                        value.m as int,
                        p.m as int,
                        -EMA_BOUND as int,
                        EMA_BOUND as int,
                    );
                    assert(-2_000_000_000_000_000_000_000_000 <= self.alpha.m * value.m
                        <= 2_000_000_000_000_000_000_000_000) by (nonlinear_arith)
                        requires
                            0 <= self.alpha.m <= 1_000_000,
                            -2_000_000_000_000_000_000 <= value.m <= 2_000_000_000_000_000_000,
                    ;
                    assert(-2_000_000_000_000_000_000_000_000 <= (1_000_000 - self.alpha.m) * p.m
                        <= 2_000_000_000_000_000_000_000_000) by (nonlinear_arith)
                        requires
                            0 <= self.alpha.m <= 1_000_000,
                            -2_000_000_000_000_000_000 <= p.m <= 2_000_000_000_000_000_000,
                    ;
                }
                let blended = crate::points::round_div(
                    self.alpha.m * value.m + (1_000_000 - self.alpha.m) * p.m,
                    1_000_000,
                );
                let r = Points { m: blended };
                self.prev = Some(r);
                r
            },
        }
    }
}

/// The smoothed sequence of a sample sequence: same length, seeded at the
/// front, blended from there on.
pub fn ema_series(values: &Vec<Points>, length: usize) -> (r: Vec<Points>)
    requires
        1 <= length <= 1_000_000,
        forall|i: int|
            0 <= i < values@.len() ==> -EMA_BOUND <= #[trigger] values@[i].m <= EMA_BOUND,
    ensures
        r@.len() == values@.len(),
        forall|i: int|
            0 <= i < r@.len() ==> #[trigger] r@[i].m == ema_at(
                seq_m(values@),
                alpha_spec(length as int),
                i,
            ),
{
    let mut ema = EMA::new(length);
    let mut out: Vec<Points> = Vec::new();
    let n = values.len();
    let mut i: usize = 0;
    while i < n
        invariant
            n == values@.len(),
            0 <= i <= n,
            out@.len() == i,
            ema.alpha.m == alpha_spec(length as int),
            ema.wf(),
            forall|j: int|
                0 <= j < values@.len() ==> -EMA_BOUND <= #[trigger] values@[j].m <= EMA_BOUND,
            i == 0 ==> ema.prev is None,
            i > 0 ==> (ema.prev matches Some(p) && p.m == ema_at(
                seq_m(values@),
                alpha_spec(length as int),
                i - 1,
            )),
            forall|j: int|
                0 <= j < i ==> #[trigger] out@[j].m == ema_at(
                    seq_m(values@),
                    alpha_spec(length as int),
                    j,
                ),
        decreases n - i,
    {
        let v = values[i];
        let r = ema.next(v);
        proof {
            assert(seq_m(values@)[i as int] == values@[i as int].m);
        }
        out.push(r);
        i = i + 1;
    }
    out
}

/// The EMA of a constant sequence is that constant at every position.
pub proof fn lemma_ema_constant(s: Seq<int>, alpha: int, v: int, i: int)
    requires
        0 <= alpha <= 1_000_000,
        0 <= i < s.len(),
        forall|j: int| 0 <= j < s.len() ==> #[trigger] s[j] == v,
    ensures
        ema_at(s, alpha, i) == v,
    decreases i,
{
    if i > 0 {
        lemma_ema_constant(s, alpha, v, i - 1);
        assert(alpha * v + (1_000_000 - alpha) * v == v * 1_000_000) by (nonlinear_arith);
        crate::points::lemma_round_div_exact(v, 1_000_000);
    }
}

/// Over a step input that jumps from `a` up to `b`, the smoothed sequence
/// climbs monotonically toward `b` and never overshoots.
pub proof fn lemma_ema_step_input_monotone(s: Seq<int>, alpha: int, a: int, b: int, k: int, i: int)
    requires
        0 < alpha <= 1_000_000,
        a <= b,
        0 <= k,
        forall|j: int| 0 <= j < s.len() && j < k ==> #[trigger] s[j] == a,
        forall|j: int| 0 <= j < s.len() && j >= k ==> #[trigger] s[j] == b,
        0 <= i < s.len(),
    ensures
        a <= ema_at(s, alpha, i) <= b,
        i < k ==> ema_at(s, alpha, i) == a,
        i + 1 < s.len() ==> ema_at(s, alpha, i) <= ema_at(s, alpha, i + 1),
    decreases i,
{
    if i > 0 {
        lemma_ema_step_input_monotone(s, alpha, a, b, k, i - 1);
        lemma_ema_step_in_range(alpha, s[i], ema_at(s, alpha, i - 1), a, b);
        if i < k {
            assert(alpha * a + (1_000_000 - alpha) * a == a * 1_000_000) by (nonlinear_arith);
            crate::points::lemma_round_div_exact(a, 1_000_000);
        }
    }
    if i + 1 < s.len() {
        let e = ema_at(s, alpha, i);
        assert(a <= e <= b);
        assert(s[i + 1] >= e) by {
            if i + 1 < k {
                assert(e == a);
            }
        }
        assert(e * 1_000_000 <= alpha * s[i + 1] + (1_000_000 - alpha) * e) by (nonlinear_arith)
            requires
                0 < alpha <= 1_000_000,
                s[i + 1] >= e,
        ;
        crate::points::lemma_round_div_exact(e, 1_000_000);
        crate::points::lemma_round_div_monotone(
            e * 1_000_000,
            alpha * s[i + 1] + (1_000_000 - alpha) * e,
            1_000_000,
        );
    }
}

/// Over the same step input, a larger smoothing weight (a shorter window)
/// converges at least as fast: its smoothed value is pointwise at least
/// the one of a smaller weight.
pub proof fn lemma_ema_shorter_window_faster(
    s: Seq<int>,
    alpha_s: int,
    alpha_l: int,
    a: int,
    b: int,
    k: int,
    i: int,
)
    requires
        0 < alpha_l <= alpha_s <= 1_000_000,
        a <= b,
        0 <= k,
        forall|j: int| 0 <= j < s.len() && j < k ==> #[trigger] s[j] == a,
        forall|j: int| 0 <= j < s.len() && j >= k ==> #[trigger] s[j] == b,
        0 <= i < s.len(),
    ensures
        ema_at(s, alpha_l, i) <= ema_at(s, alpha_s, i),
    decreases i,
{
    if i > 0 {
        lemma_ema_shorter_window_faster(s, alpha_s, alpha_l, a, b, k, i - 1);
        lemma_ema_step_input_monotone(s, alpha_s, a, b, k, i - 1);
        lemma_ema_step_input_monotone(s, alpha_l, a, b, k, i - 1);
        let es = ema_at(s, alpha_s, i - 1);
        let el = ema_at(s, alpha_l, i - 1);
        let v = s[i];
        assert(v >= es) by {
            if i < k {
                assert(es == a);
            }
        }
        assert(alpha_l * v + (1_000_000 - alpha_l) * el <= alpha_s * v + (1_000_000 - alpha_s)
            * es) by (nonlinear_arith)
            requires
                0 < alpha_l <= alpha_s <= 1_000_000,
                el <= es <= v,
        ;
        crate::points::lemma_round_div_monotone(
            alpha_l * v + (1_000_000 - alpha_l) * el,
            alpha_s * v + (1_000_000 - alpha_s) * es,
            1_000_000,
        );
    }
}

/// Over the same step input, the EMA of a shorter window sits pointwise at
/// least as high as the EMA of a longer window: it converges to the
/// post-step value at least as fast.
pub proof fn lemma_ema_window_comparison(
    s: Seq<int>,
    short: int,
    long: int,
    a: int,
    b: int,
    k: int,
    i: int,
)
    requires
        1 <= short <= long <= 1_000_000,
        a <= b,
        0 <= k,
        forall|j: int| 0 <= j < s.len() && j < k ==> #[trigger] s[j] == a,
        forall|j: int| 0 <= j < s.len() && j >= k ==> #[trigger] s[j] == b,
        0 <= i < s.len(),
    ensures
        ema_at(s, alpha_spec(long), i) <= ema_at(s, alpha_spec(short), i),
{
    lemma_alpha_antitone(short, long);
    lemma_ema_shorter_window_faster(s, alpha_spec(short), alpha_spec(long), a, b, k, i);
}

/// A shorter window has a weight at least as large, and both weights are
/// proper fractions.
pub proof fn lemma_alpha_antitone(short: int, long: int)
    requires
        1 <= short <= long <= 1_000_000,
    ensures
        1 <= alpha_spec(long) <= alpha_spec(short) <= 1_000_000,
    decreases long - short,
{
    lemma_alpha_lower(long);
    crate::points::lemma_round_div_range(2_000_000, short + 1, 0, 1_000_000);
    if short < long {
        lemma_alpha_antitone(short, long - 1);
        lemma_round_div_denominator_step(2_000_000, long);
    }
}

/// Bumping the denominator by one cannot increase a rounded quotient of a
/// nonnegative numerator.
proof fn lemma_round_div_denominator_step(n: int, d: int)
    requires
        n >= 0,
        d >= 2,
    ensures
        round_div_spec(n, d + 1) <= round_div_spec(n, d),
{
    let k1 = round_div_spec(n, d + 1);
    let k2 = round_div_spec(n, d);
    crate::points::lemma_round_div_bounds(n, d + 1);
    crate::points::lemma_round_div_bounds(n, d);
    if k1 > k2 {
        assert(k2 >= 0) by {
            crate::points::lemma_round_div_exact(0, d);
            crate::points::lemma_round_div_monotone(0, n, d);
        }
        assert((2 * k2 + 1) * (d + 1) <= (2 * k1 - 1) * (d + 1)) by (nonlinear_arith)
            requires
                k1 >= k2 + 1,
                d >= 2,
        ;
        assert((2 * k2 + 1) * d < (2 * k2 + 1) * (d + 1)) by (nonlinear_arith)
            requires
                k2 >= 0,
                d >= 2,
        ;
        assert(false);
    }
}

/// For window lengths in range the weight is a fraction of at least one
/// millionth.
pub proof fn lemma_alpha_in_range(length: int)
    requires
        1 <= length <= 1_000_000,
    ensures
        1 <= alpha_spec(length) <= 1_000_000,
{
    lemma_alpha_lower(length);
    crate::points::lemma_round_div_range(2_000_000, length + 1, 0, 1_000_000);
}

/// For window lengths in range the weight is at least one millionth.
pub proof fn lemma_alpha_lower(length: int)
    requires
        1 <= length <= 1_000_000,
    ensures
        alpha_spec(length) >= 1,
{
    crate::points::lemma_round_div_bounds(2_000_000, length + 1);
    if alpha_spec(length) < 1 {
        assert((2 * alpha_spec(length) + 1) * (length + 1) <= 1_000_001) by (nonlinear_arith)
            requires
                alpha_spec(length) <= 0,
                2 <= length + 1 <= 1_000_001,
        ;
        assert(false);
    }
}

} // verus!
