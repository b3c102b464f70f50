//! The moving-average-convergence/divergence trend detector.
//!
//! The oscillator derives a short and a long EMA from the mid close
//! prices, takes their difference as the MACD line, smooths that line
//! into a signal line, and drives a three-state trend with hysteresis on
//! the MACD line against an entry and an exit threshold.

use crate::maths::{
    alpha_spec, decimal_ln, ema_at, ema_series, lemma_alpha_in_range, lemma_alpha_lower,
    lemma_ema_at_in_range, ln_micros, seq_m, EMA_BOUND,
};
use crate::points::{round_div, round_div_spec, Points};
use crate::price::{mid_spec, Frame, PriceHistory};
use crate::strategy::{TradingStrategy, Trend};
use vstd::prelude::*;

verus! {

/// The convergence error, in millionths, at which an EMA is considered
/// settled when deciding how much history the strategy needs.
pub const EMA_ERROR_MICROS: i128 = 100_000;

/// The MACD trading strategy: EMA window lengths in samples, and the
/// oscillator levels at which a trend is entered and left.
pub struct MACD {
    pub short: usize,
    pub long: usize,
    pub signal: usize,
    /// A trend is entered when the MACD line leaves this band.
    pub entry_lim: Points,
    /// A trend is left when the MACD line falls back inside this band.
    pub exit_lim: Points,
}

/// The oscillator's values at one position of the series, along with the
/// trend the hysteresis has reached there.
pub struct MACDValue {
    pub short_ema: Points,
    pub long_ema: Points,
    pub macd: Points,
    pub macd_signal: Points,
    pub macd_trend: Points,
    pub trend: Trend,
}

/// The mid close prices of a frame sequence, as mantissas.
pub open spec fn mids_spec(s: Seq<Frame>) -> Seq<int> {
    s.map_values(|f: Frame| mid_spec(f.close))
}

/// The MACD line at one position: short EMA minus long EMA.
pub open spec fn macd_line_at(mids: Seq<int>, short: int, long: int, i: int) -> int {
    ema_at(mids, alpha_spec(short), i) - ema_at(mids, alpha_spec(long), i)
}

/// The MACD line as a sequence.
pub open spec fn macd_line_seq(mids: Seq<int>, short: int, long: int) -> Seq<int> {
    Seq::new(mids.len(), |i: int| macd_line_at(mids, short, long, i))
}

/// The signal line at one position: the MACD line smoothed once more.
pub open spec fn signal_line_at(mids: Seq<int>, short: int, long: int, signal: int, i: int) -> int {
    ema_at(macd_line_seq(mids, short, long), alpha_spec(signal), i)
}

/// One step of the trend hysteresis, in decision order: enter a trend
/// when the MACD line leaves the entry band, drop back to neutral when it
/// re-enters the exit band, otherwise keep the running trend.
pub open spec fn trend_step_spec(prev: Trend, macd: int, entry: int, exit: int) -> Trend {
    if (prev is Bearish || prev is Neutral) && macd > entry {
        Trend::Bullish
    } else if (prev is Bullish || prev is Neutral) && macd < -entry {
        Trend::Bearish
    } else if prev is Bullish && macd <= exit {
        Trend::Neutral
    } else if prev is Bearish && macd >= -exit {
        Trend::Neutral
    } else {
        prev
    }
}

/// The running trend at one position, folded from a neutral start.
pub open spec fn trend_at(
    mids: Seq<int>,
    short: int,
    long: int,
    entry: int,
    exit: int,
    i: int,
) -> Trend
    decreases i,
{
    if i <= 0 {
        Trend::Neutral
    } else {
        trend_step_spec(
            trend_at(mids, short, long, entry, exit, i - 1),
            macd_line_at(mids, short, long, i),
            entry,
            exit,
        )
    }
}

/// What [`MACD::samples_needed`] computes: the convergence bound
/// `round(ln(error) / -alpha)`, carried out in six-decimal fixed point.
pub open spec fn samples_needed_spec(length: int, err_m: int) -> int {
    round_div_spec(
        round_div_spec(-ln_micros(err_m) * 1_000_000, alpha_spec(length)),
        1_000_000,
    )
}

/// The newest `k` frames of a newest-first sequence, re-ordered oldest
/// first.
pub open spec fn rev_prefix_spec(s: Seq<Frame>, k: int) -> Seq<Frame>
    recommends
        0 <= k <= s.len(),
{
    Seq::new(k as nat, |i: int| s[k - 1 - i])
}

/// What [`MACD::trend`] computes: neutral while the history is shorter
/// than the samples the EMAs need to settle, and otherwise the hysteresis
/// state after replaying the oscillator over the usable newest frames,
/// oldest first.
pub open spec fn macd_trend_spec(m: MACD, h: PriceHistory) -> Trend {
    let length = max3_spec(m.short as int, m.long as int, m.signal as int);
    let take = samples_needed_spec(length, EMA_ERROR_MICROS as int) + 1;
    if take > h.history@.len() {
        Trend::Neutral
    } else {
        let count = if take + 1 <= h.history@.len() {
            take + 1
        } else {
            h.history@.len() as int
        };
        trend_at(
            mids_spec(rev_prefix_spec(h.history@, count)),
            m.short as int,
            m.long as int,
            m.entry_lim.m as int,
            m.exit_lim.m as int,
            count - 1,
        )
    }
}

/// The largest of three numbers.
pub open spec fn max3_spec(a: int, b: int, c: int) -> int {
    if a >= b && a >= c {
        a
    } else if b >= c {
        b
    } else {
        c
    }
}

/// One step of the trend hysteresis on machine values.
fn trend_step(prev: Trend, macd: Points, entry_lim: Points, exit_lim: Points) -> (t: Trend)
    requires
        entry_lim.wf(),
        exit_lim.wf(),
    ensures
        t == trend_step_spec(prev, macd.m as int, entry_lim.m as int, exit_lim.m as int),
{
    if (matches!(prev, Trend::Bearish) || matches!(prev, Trend::Neutral)) && macd.m
        > entry_lim.m {
        Trend::Bullish
    } else if (matches!(prev, Trend::Bullish) || matches!(prev, Trend::Neutral)) && macd.m
        < -entry_lim.m {
        Trend::Bearish
    } else if matches!(prev, Trend::Bullish) && macd.m <= exit_lim.m {
        Trend::Neutral
    } else if matches!(prev, Trend::Bearish) && macd.m >= -exit_lim.m {
        Trend::Neutral
    } else {
        prev
    }
}

impl MACD {
    /// EMA window lengths in range and thresholds within stored bounds.
    pub open spec fn params_wf(self) -> bool {
        &&& 1 <= self.short <= 1_000_000
    &&& 1 <= self.long <= 1_000_000
    &&& 1 <= self.signal <= 1_000_000
    &&& self.entry_lim.wf()
    &&& self.exit_lim.wf()
    }

    /// The least number of samples after which an EMA of the given window
    /// length is within `error` of full convergence:
    /// `round(ln(error) / -alpha)` with `alpha = 2 / (length + 1)`.
    pub fn samples_needed(length: usize, error: Points) -> (r: usize)
        requires
            1 <= length <= 1_000_000,
            1 <= error.m < 1_000_000,
        ensures
            r == samples_needed_spec(length as int, error.m as int),
            r <= 100_000_000,
    {
        let alpha = round_div(2_000_000, length as i128 + 1);
        proof {
            lemma_alpha_lower(length as int);
            crate::points::lemma_round_div_range(2_000_000, length as int + 1, 0, 1_000_000);
        }
        let l = decimal_ln(&error);
        let q = round_div(-l.m * 1_000_000, alpha);
        proof {
            crate::points::lemma_round_div_exact(0, alpha as int);
            crate::points::lemma_round_div_monotone(0, -l.m * 1_000_000, alpha as int);
            assert(100_000_000_000_000 * alpha >= -l.m * 1_000_000) by (nonlinear_arith)
                requires
                    alpha >= 1,
                    -l.m * 1_000_000 <= 100_000_000_000_000,
            ;
            crate::points::lemma_round_div_range(
                -l.m * 1_000_000,
                alpha as int,
                0,
                100_000_000_000_000,
            );
        }
        let n_whole = round_div(q, 1_000_000);
        proof {
            crate::points::lemma_round_div_range(q as int, 1_000_000, 0, 100_000_000);
        }
        n_whole as usize
    }

    /// Replays the oscillator over a frame sequence taken oldest first:
    /// at every position, the EMAs, the MACD and signal lines, their
    /// difference, and the hysteresis trend reached there.
    pub fn macd(&self, history: &Vec<Frame>) -> (r: Vec<MACDValue>)
        requires
            self.params_wf(),
            forall|i: int| 0 <= i < history@.len() ==> #[trigger] history@[i].wf(),
        ensures
            r@.len() == history@.len(),
            forall|i: int|
                0 <= i < r@.len() ==> {
                    let mids = mids_spec(history@);
                    &&& (#[trigger] r@[i]).short_ema.m == ema_at(
                        mids,
                        alpha_spec(self.short as int),
                        i,
                    )
                &&& r@[i].long_ema.m == ema_at(mids, alpha_spec(self.long as int), i)
                &&& r@[i].macd.m == macd_line_at(mids, self.short as int, self.long as int, i)
                &&& r@[i].macd_signal.m == signal_line_at(
                        mids,
                        self.short as int,
                        self.long as int,
                        self.signal as int,
                        i,
                    )
                &&& r@[i].macd_trend.m == macd_line_at(mids, self.short as int, self.long as int, i)
                        - signal_line_at(
                        mids,
                        self.short as int,
                        self.long as int,
                        self.signal as int,
                        i,
                    )
                &&& r@[i].trend == trend_at(
                        mids,
                        self.short as int,
                        self.long as int,
                        self.entry_lim.m as int,
                        self.exit_lim.m as int,
                        i,
                    )
                },
    {
        let ghost gmids = mids_spec(history@);
        let n = history.len();
        let mut mids: Vec<Points> = Vec::new();
        let mut i: usize = 0;
        while i < n
            invariant
                n == history@.len(),
                0 <= i <= n,
                mids@.len() == i,
                forall|j: int| 0 <= j < history@.len() ==> #[trigger] history@[j].wf(),
                forall|j: int|
                    0 <= j < i ==> #[trigger] mids@[j].m == gmids[j] && -1_000_000_000_000_000_000
                        <= mids@[j].m <= 1_000_000_000_000_000_000,
                gmids == mids_spec(history@),
            decreases n - i,
        {
            proof {
                assert(history@[i as int].wf());
                crate::price::lemma_mid_in_range(history@[i as int].close);
            }
            mids.push(history[i].close.mid_price());
            i = i + 1;
        }
        proof {
            assert(seq_m(mids@) =~= gmids);
            assert forall|j: int|
                0 <= j < gmids.len() implies -1_000_000_000_000_000_000 <= #[trigger] gmids[j]
                <= 1_000_000_000_000_000_000 by {
                assert(mids@[j].m == gmids[j]);
            }
        }
        let short_ema = ema_series(&mids, self.short);
        let long_ema = ema_series(&mids, self.long);
        proof {
            assert forall|j: int| 0 <= j < n implies -EMA_BOUND <= #[trigger] short_ema@[j].m
                <= EMA_BOUND && -EMA_BOUND <= long_ema@[j].m <= EMA_BOUND by {
                lemma_alpha_in_range(self.short as int);
                lemma_alpha_in_range(self.long as int);
                lemma_ema_at_in_range(
                    gmids,
                    alpha_spec(self.short as int),
                    j,
                    -1_000_000_000_000_000_000,
                    1_000_000_000_000_000_000,
                );
                lemma_ema_at_in_range(
                    gmids,
                    alpha_spec(self.long as int),
                    j,
                    -1_000_000_000_000_000_000,
                    1_000_000_000_000_000_000,
                );
            }
        }
        let mut macd_line: Vec<Points> = Vec::new();
        let mut i: usize = 0;
        while i < n
            invariant
                n == history@.len(),
                n == short_ema@.len() == long_ema@.len(),
                0 <= i <= n,
                macd_line@.len() == i,
                self.params_wf(),
                gmids == mids_spec(history@),
                gmids.len() == n,
                forall|j: int|
                    0 <= j < n ==> -1_000_000_000_000_000_000 <= #[trigger] gmids[j]
                        <= 1_000_000_000_000_000_000,
                forall|j: int|
                    0 <= j < n ==> #[trigger] short_ema@[j].m == ema_at(
                        gmids,
                        alpha_spec(self.short as int),
                        j,
                    ) && long_ema@[j].m == ema_at(gmids, alpha_spec(self.long as int), j),
                forall|j: int|
                    0 <= j < n ==> -EMA_BOUND <= #[trigger] short_ema@[j].m <= EMA_BOUND
                        && -EMA_BOUND <= long_ema@[j].m <= EMA_BOUND,
                forall|j: int|
                    0 <= j < i ==> #[trigger] macd_line@[j].m == macd_line_at(
                        gmids,
                        self.short as int,
                        self.long as int,
                        j,
                    ) && -EMA_BOUND <= macd_line@[j].m <= EMA_BOUND,
            decreases n - i,
        {
            let d = short_ema[i].minus(long_ema[i]);
            proof {
                lemma_alpha_in_range(self.short as int);
                lemma_alpha_in_range(self.long as int);
                lemma_ema_at_in_range(
                    gmids,
                    alpha_spec(self.short as int),
                    i as int,
                    -1_000_000_000_000_000_000,
                    1_000_000_000_000_000_000,
                );
                lemma_ema_at_in_range(
                    gmids,
                    alpha_spec(self.long as int),
                    i as int,
                    -1_000_000_000_000_000_000,
                    1_000_000_000_000_000_000,
                );
            }
            macd_line.push(d);
            i = i + 1;
        }
        proof {
            assert(seq_m(macd_line@) =~= macd_line_seq(
                gmids,
                self.short as int,
                self.long as int,
            ));
        }
        let signal_line = ema_series(&macd_line, self.signal);
        let ghost gmacd = macd_line_seq(gmids, self.short as int, self.long as int);
        let mut out: Vec<MACDValue> = Vec::new();
        let mut last_trend = Trend::Neutral;
        let mut i: usize = 0;
        while i < n
            invariant
                n == history@.len(),
                n == short_ema@.len() == long_ema@.len() == macd_line@.len()
                    == signal_line@.len(),
                0 <= i <= n,
                out@.len() == i,
                self.params_wf(),
                gmids == mids_spec(history@),
                gmacd == macd_line_seq(gmids, self.short as int, self.long as int),
                gmacd.len() == n,
                seq_m(macd_line@) == gmacd,
                forall|j: int|
                    0 <= j < n ==> -EMA_BOUND <= #[trigger] gmacd[j] <= EMA_BOUND,
                forall|j: int|
                    0 <= j < n ==> #[trigger] short_ema@[j].m == ema_at(
                        gmids,
                        alpha_spec(self.short as int),
                        j,
                    ) && long_ema@[j].m == ema_at(gmids, alpha_spec(self.long as int), j),
                forall|j: int|
                    0 <= j < n ==> #[trigger] macd_line@[j].m == macd_line_at(
                        gmids,
                        self.short as int,
                        self.long as int,
                        j,
                    ) && -EMA_BOUND <= macd_line@[j].m <= EMA_BOUND,
                forall|j: int|
                    0 <= j < n ==> #[trigger] signal_line@[j].m == ema_at(
                        gmacd,
                        alpha_spec(self.signal as int),
                        j,
                    ),
                i == 0 ==> last_trend == Trend::Neutral,
                i > 0 ==> last_trend == trend_at(
                    gmids,
                    self.short as int,
                    self.long as int,
                    self.entry_lim.m as int,
                    self.exit_lim.m as int,
                    i - 1,
                ),
                forall|j: int|
                    0 <= j < i ==> {
                        &&& (#[trigger] out@[j]).short_ema == short_ema@[j]
                    &&& out@[j].long_ema == long_ema@[j]
                    &&& out@[j].macd == macd_line@[j]
                    &&& out@[j].macd_signal == signal_line@[j]
                    &&& out@[j].macd_trend.m == macd_line@[j].m - signal_line@[j].m
                    &&& out@[j].trend == trend_at(
                            gmids,
                            self.short as int,
                            self.long as int,
                            self.entry_lim.m as int,
                            self.exit_lim.m as int,
                            j,
                        )
                    },
            decreases n - i,
        {
            proof {
                lemma_alpha_in_range(self.signal as int);
                lemma_ema_at_in_range(
                    gmacd,
                    alpha_spec(self.signal as int),
                    i as int,
                    -EMA_BOUND as int,
                    EMA_BOUND as int,
                );
            }
            let trend = if i == 0 {
                Trend::Neutral
            } else {
                trend_step(last_trend, macd_line[i], self.entry_lim, self.exit_lim)
            };
            let value = MACDValue {
                short_ema: short_ema[i],
                long_ema: long_ema[i],
                macd: macd_line[i],
                macd_signal: signal_line[i],
                macd_trend: macd_line[i].minus(signal_line[i]),
                trend,
            };
            out.push(value);
            last_trend = trend;
            i = i + 1;
        }
        out
    }
}

impl TradingStrategy for MACD {
    open spec fn wf(&self) -> bool {
        self.params_wf()
    }

    open spec fn trend_spec(&self, history: PriceHistory) -> Trend {
        macd_trend_spec(*self, history)
    }

    /// The hysteresis trend over the newest usable frames, or `Neutral`
    /// when the history holds fewer samples than the longest EMA needs to
    /// settle within a tenth.
    fn trend(&self, history: &PriceHistory) -> (t: Trend) {
        let length = if self.short >= self.long && self.short >= self.signal {
            self.short
        } else if self.long >= self.signal {
            self.long
        } else {
            self.signal
        };
        // Two valid post-seed samples at least.
        let take = MACD::samples_needed(length, Points::micros(EMA_ERROR_MICROS)) + 1;
        if take > history.history.len() {
            // Not enough history to make a safe judgement.
            return Trend::Neutral;
        }
        let count = if take + 1 <= history.history.len() {
            take + 1
        } else {
            history.history.len()
        };
        let mut price: Vec<Frame> = Vec::new();
        let mut i: usize = 0;
        while i < count
            invariant
                0 < count <= history.history@.len(),
                0 <= i <= count,
                price@.len() == i,
                history.wf(),
                forall|j: int|
                    0 <= j < i ==> #[trigger] price@[j] == history.history@[count - 1 - j],
            decreases count - i,
        {
            let f = history.history[count - 1 - i];
            price.push(f);
            i = i + 1;
        }
        proof {
            assert(price@ =~= rev_prefix_spec(history.history@, count as int));
            assert forall|j: int| 0 <= j < price@.len() implies #[trigger] price@[j].wf() by {
                assert(history.history@[count - 1 - j].wf());
            }
        }
        let values = self.macd(&price);
        let t = values[count - 1].trend;
        t
    }
}

} // verus!
