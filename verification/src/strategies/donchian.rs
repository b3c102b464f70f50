//! The Donchian rolling-channel stop.
//!
//! The channel over a trailing window is the minimum of each candle's low
//! bid and the maximum of each candle's high ask.  The bounds are
//! asymmetric by design: the low bound is a price the trader could sell at
//! to exit a long, the high bound a price the trader could buy at to exit
//! a short.

use crate::points::Points;
use crate::price::{Frame, PriceHistory};
use crate::strategy::{RiskStrategy, RiskStrategyError};
use crate::trade::Direction;
use vstd::prelude::*;

verus! {

/// The rolling-channel risk strategy: the stop for a new long sits at the
/// channel's low bound, for a new short at its high bound.
pub struct Donchian {
    pub channel_length: usize,
}

/// The minimum low bid over the frames at indices `lo <= j < hi`.
pub open spec fn window_low_spec(s: Seq<Frame>, lo: int, hi: int) -> int
    recommends
        0 <= lo < hi <= s.len(),
    decreases hi - lo,
{
    if hi <= lo + 1 {
        s[lo].low.bid.m as int
    } else {
        let rest = window_low_spec(s, lo, hi - 1);
        if s[hi - 1].low.bid.m < rest {
            s[hi - 1].low.bid.m as int
        } else {
            rest
        }
    }
}

/// The maximum high ask over the frames at indices `lo <= j < hi`.
pub open spec fn window_high_spec(s: Seq<Frame>, lo: int, hi: int) -> int
    recommends
        0 <= lo < hi <= s.len(),
    decreases hi - lo,
{
    if hi <= lo + 1 {
        s[lo].high.ask.m as int
    } else {
        let rest = window_high_spec(s, lo, hi - 1);
        if s[hi - 1].high.ask.m > rest {
            s[hi - 1].high.ask.m as int
        } else {
            rest
        }
    }
}

/// The start of the length-`len` window that ends at index `i`.
pub open spec fn window_start_spec(i: int, len: int) -> int {
    if i + 1 >= len {
        i + 1 - len
    } else {
        0
    }
}

/// What [`Donchian::stop`] computes: too little history is an error, and
/// otherwise the stop reads the channel over the newest frames.
pub open spec fn donchian_stop_spec(d: Donchian, direction: Direction, h: PriceHistory) -> Result<
    Points,
    RiskStrategyError,
> {
    if h.history@.len() < d.channel_length {
        Err(RiskStrategyError::NotEnoughHistory)
    } else {
        Ok(
            Points {
                m: if direction is Buy {
                    window_low_spec(h.history@, 0, d.channel_length as int) as i128
                } else {
                    window_high_spec(h.history@, 0, d.channel_length as int) as i128
                },
            },
        )
    }
}

/// The window bounds stay within the bounds of the frames they read.
proof fn lemma_window_in_range(s: Seq<Frame>, lo: int, hi: int)
    requires
        0 <= lo < hi <= s.len(),
        forall|j: int| 0 <= j < s.len() ==> #[trigger] s[j].wf(),
    ensures
        -1_000_000_000_000_000_000 <= window_low_spec(s, lo, hi) <= 1_000_000_000_000_000_000,
        -1_000_000_000_000_000_000 <= window_high_spec(s, lo, hi) <= 1_000_000_000_000_000_000,
    decreases hi - lo,
{
    assert(s[lo].wf());
    assert(s[hi - 1].wf());
    if hi > lo + 1 {
        lemma_window_in_range(s, lo, hi - 1);
    }
}

impl Donchian {
    /// The channel over the whole of `history` (taken oldest first): at
    /// every index, the low and high channel bounds of the window of the
    /// most recent `channel_length` frames seen so far.
    pub fn channel(&self, history: &Vec<Frame>) -> (r: Vec<(Points, Points)>)
        requires
            self.channel_length >= 1,
        ensures
            r@.len() == history@.len(),
            forall|i: int|
                0 <= i < r@.len() ==> #[trigger] r@[i].0.m == window_low_spec(
                    history@,
                    window_start_spec(i, self.channel_length as int),
                    i + 1,
                ),
            forall|i: int|
                0 <= i < r@.len() ==> #[trigger] r@[i].1.m == window_high_spec(
                    history@,
                    window_start_spec(i, self.channel_length as int),
                    i + 1,
                ),
    {
        let mut out: Vec<(Points, Points)> = Vec::new();
        let n = history.len();
        let mut i: usize = 0;
        while i < n
            invariant
                n == history@.len(),
                0 <= i <= n,
                out@.len() == i,
                self.channel_length >= 1,
                forall|k: int|
                    0 <= k < i ==> #[trigger] out@[k].0.m == window_low_spec(
                        history@,
                        window_start_spec(k, self.channel_length as int),
                        k + 1,
                    ),
                forall|k: int|
                    0 <= k < i ==> #[trigger] out@[k].1.m == window_high_spec(
                        history@,
                        window_start_spec(k, self.channel_length as int),
                        k + 1,
                    ),
            decreases n - i,
        {
            let start: usize = if i + 1 >= self.channel_length {
                i + 1 - self.channel_length
            } else {
                0
            };
            let mut low = history[start].low.bid;
            let mut high = history[start].high.ask;
            let mut j: usize = start + 1;
            while j <= i
                invariant
                    n == history@.len(),
                    0 <= start < j <= i + 1 <= n,
                    low.m == window_low_spec(history@, start as int, j as int),
                    high.m == window_high_spec(history@, start as int, j as int),
                decreases i + 1 - j,
            {
                let f = &history[j];
                if f.low.bid.m < low.m {
                    low = f.low.bid;
                }
                if f.high.ask.m > high.m {
                    high = f.high.ask;
                }
                j = j + 1;
            }
            out.push((low, high));
            i = i + 1;
        }
        out
    }
}

impl RiskStrategy for Donchian {
    /// A window of at least one frame.
    open spec fn wf(&self) -> bool {
        self.channel_length >= 1
    }

    open spec fn stop_spec(&self, direction: Direction, history: PriceHistory) -> Result<
        Points,
        RiskStrategyError,
    > {
        donchian_stop_spec(*self, direction, history)
    }

    /// The stop for a new position: the channel bound over the most recent
    /// `channel_length` frames on the side the position would exit, or
    /// `NotEnoughHistory` when fewer frames than that are available.
    fn stop(&self, direction: Direction, history: &PriceHistory) -> (r: Result<
        Points,
        RiskStrategyError,
    >) {
        let n = history.history.len();
        if n < self.channel_length {
            return Err(RiskStrategyError::NotEnoughHistory);
        }
        let mut low = history.history[0].low.bid;
        let mut high = history.history[0].high.ask;
        let mut j: usize = 1;
        while j < self.channel_length
            invariant
                history.wf(),
                1 <= j <= self.channel_length <= history.history@.len(),
                low.m == window_low_spec(history.history@, 0, j as int),
                high.m == window_high_spec(history.history@, 0, j as int),
            decreases self.channel_length - j,
        {
            let f = &history.history[j];
            if f.low.bid.m < low.m {
                low = f.low.bid;
            }
            if f.high.ask.m > high.m {
                high = f.high.ask;
            }
            j = j + 1;
        }
        proof {
            lemma_window_in_range(history.history@, 0, self.channel_length as int);
        }
        match direction {
            Direction::Buy => Ok(low),
            Direction::Sell => Ok(high),
        }
    }
}

/// Too little history always fails with `NotEnoughHistory`: the rolling
/// channel never guesses a stop from fewer frames than its window.
pub proof fn lemma_donchian_short_history(d: Donchian, direction: Direction, h: PriceHistory)
    requires
        h.history@.len() < d.channel_length,
    ensures
        d.stop_spec(direction, h) == Err::<Points, RiskStrategyError>(
            RiskStrategyError::NotEnoughHistory,
        ),
{
}

} // verus!
