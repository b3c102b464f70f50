//! Calendar timestamps and candle resolutions.
//!
//! A [`Timestamp`] is a plain calendar date and time-of-day (UTC by
//! convention).  Adding a [`Resolution`] to a timestamp is calendar-aware:
//! day arithmetic knows month lengths and leap years, and month arithmetic
//! rolls the year when the month overflows.

use vstd::prelude::*;

verus! {

/// Largest year the engine works with; keeps ordering keys inside a `u64`.
pub const YEAR_LIMIT: u32 = 999_000_000;

/// Largest count of minutes or hours a [`Resolution`] may carry.
pub const RESOLUTION_LIMIT: usize = 1_000_000;

/// A calendar date with a time of day.
#[derive(Clone, Copy, Debug, PartialEq, Eq, Structural, Hash)]
pub struct Timestamp {
    pub year: u32,
    pub month: u8,
    pub day: u8,
    pub hour: u8,
    pub minute: u8,
    pub second: u8,
}

/// The candle period of a price history.
#[derive(Clone, Copy, Debug, PartialEq, Eq, Structural, Hash)]
pub enum Resolution {
    Second,
    Minute(usize),
    Hour(usize),
    Day,
    Week,
    Month,
}

/// Whether `year` is a leap year in the Gregorian calendar.
pub open spec fn leap_year_spec(year: int) -> bool {
    year % 4 == 0 && (year % 100 != 0 || year % 400 == 0)
}

/// Number of days in the given month of the given year.
pub open spec fn days_in_month_spec(year: int, month: int) -> int {
    if month == 2 {
        if leap_year_spec(year) {
            29
        } else {
            28
        }
    } else if month == 4 || month == 6 || month == 9 || month == 11 {
        30
    } else {
        31
    }
}

impl Timestamp {
    /// A valid calendar date and time of day, with the year in range.
    pub open spec fn wf(self) -> bool {
        &&& self.year <= YEAR_LIMIT
    &&& 1 <= self.month <= 12
    &&& 1 <= self.day <= days_in_month_spec(self.year as int, self.month as int)
    &&& self.hour <= 23
    &&& self.minute <= 59
    &&& self.second <= 59
    }

    /// A single integer that orders timestamps chronologically.
    pub open spec fn key_spec(self) -> int {
        ((((self.year * 12 + self.month) * 32 + self.day) * 24 + self.hour) * 60 + self.minute)
            * 60 + self.second
    }

    /// Builds a timestamp from its parts.
    pub fn new(year: u32, month: u8, day: u8, hour: u8, minute: u8, second: u8) -> (r: Timestamp)
        ensures
            r == (Timestamp { year, month, day, hour, minute, second }),
    {
        Timestamp { year, month, day, hour, minute, second }
    }

    /// The ordering key as a machine integer.
    pub fn key(&self) -> (r: u64)
        requires
            self.year <= 1_000_000_000,
        ensures
            r == self.key_spec(),
    {
        ((((self.year as u64 * 12 + self.month as u64) * 32 + self.day as u64) * 24
            + self.hour as u64) * 60 + self.minute as u64) * 60 + self.second as u64
    }

    /// Number of days in this timestamp's month.
    fn days_in_month(&self) -> (r: u8)
        requires
            1 <= self.month <= 12,
        ensures
            r == days_in_month_spec(self.year as int, self.month as int),
    {
        if self.month == 2 {
            let leap = self.year % 4 == 0 && (self.year % 100 != 0 || self.year % 400 == 0);
            if leap {
                29
            } else {
                28
            }
        } else if self.month == 4 || self.month == 6 || self.month == 9 || self.month == 11 {
            30
        } else {
            31
        }
    }

    /// The same time of day on the next calendar day.
    fn next_day(&self) -> (r: Timestamp)
        requires
            1 <= self.month <= 12,
            1 <= self.day <= days_in_month_spec(self.year as int, self.month as int),
            self.year < u32::MAX,
        ensures
            r == next_day_spec(*self),
    {
        let dim = self.days_in_month();
        if self.day < dim {
            Timestamp { day: self.day + 1, ..*self }
        } else if self.month < 12 {
            Timestamp { day: 1, month: self.month + 1, ..*self }
        } else {
            Timestamp { day: 1, month: 1, year: self.year + 1, ..*self }
        }
    }

    /// The same time of day `n` calendar days later.
    fn plus_days(&self, n: u64) -> (r: Timestamp)
        requires
            self.wf(),
            self.year + n < u32::MAX,
        ensures
            r == plus_days_spec(*self, n as nat),
    {
        let mut t = *self;
        let mut i: u64 = 0;
        while i < n
            invariant
                i <= n,
                t == plus_days_spec(*self, i as nat),
                t.wf() || t.year <= self.year + i,
                self.wf(),
                self.year + n < u32::MAX,
            decreases n - i,
        {
            proof {
                lemma_plus_days_wf(*self, i as nat);
            }
            t = t.next_day();
            i = i + 1;
            proof {
                assert(plus_days_spec(*self, i as nat) == next_day_spec(
                    plus_days_spec(*self, (i - 1) as nat),
                ));
            }
        }
        t
    }

    /// The timestamp `n` seconds later.
    fn plus_seconds(&self, n: u64) -> (r: Timestamp)
        requires
            self.wf(),
            n <= 4_000_000_000,
            self.year + 47_000 < u32::MAX,
        ensures
            r == plus_seconds_spec(*self, n as nat),
    {
        let total: u64 = self.hour as u64 * 3600 + self.minute as u64 * 60 + self.second as u64
            + n;
        let days: u64 = total / 86_400;
        let tod: u64 = total % 86_400;
        let base = Timestamp {
            hour: (tod / 3600) as u8,
            minute: ((tod % 3600) / 60) as u8,
            second: (tod % 60) as u8,
            ..*self
        };
        assert(days <= 46_300) by (nonlinear_arith)
            requires
                total <= 4_000_000_000 + 86_399,
                days == total / 86_400,
        ;
        base.plus_days(days)
    }

    /// Adds one candle period, calendar-aware.  Month arithmetic keeps the
    /// day of month when it remains valid; otherwise it rolls to the first
    /// month of the next year, as the month also does when it overflows.
    pub fn add_resolution(&self, r: Resolution) -> (t: Timestamp)
        requires
            self.wf(),
            r.wf(),
            self.year < YEAR_LIMIT,
        ensures
            t == add_resolution_spec(*self, r),
    {
        match r {
            Resolution::Second => self.plus_seconds(1),
            Resolution::Minute(k) => self.plus_seconds(k as u64 * 60),
            Resolution::Hour(k) => self.plus_seconds(k as u64 * 3600),
            Resolution::Day => self.plus_days(1),
            Resolution::Week => self.plus_days(7),
            Resolution::Month => {
                let next = Timestamp { month: self.month + 1, ..*self };
                if self.month < 12 && self.day <= next.days_in_month() {
                    next
                } else {
                    Timestamp { month: 1, year: self.year + 1, ..*self }
                }
            },
        }
    }
}

/// Specification mirror of [`Timestamp::next_day`].
pub open spec fn next_day_spec(t: Timestamp) -> Timestamp {
    if t.day < days_in_month_spec(t.year as int, t.month as int) {
        Timestamp { day: (t.day + 1) as u8, ..t }
    } else if t.month < 12 {
        Timestamp { day: 1, month: (t.month + 1) as u8, ..t }
    } else {
        Timestamp { day: 1, month: 1, year: (t.year + 1) as u32, ..t }
    }
}

/// Specification mirror of [`Timestamp::plus_days`].
pub open spec fn plus_days_spec(t: Timestamp, n: nat) -> Timestamp
    decreases n,
{
    if n == 0 {
        t
    } else {
        next_day_spec(plus_days_spec(t, (n - 1) as nat))
    }
}

/// Specification mirror of [`Timestamp::plus_seconds`].
pub open spec fn plus_seconds_spec(t: Timestamp, n: nat) -> Timestamp {
    let total = t.hour * 3600 + t.minute * 60 + t.second + n;
    let base = Timestamp {
        hour: ((total % 86_400) / 3600) as u8,
        minute: (((total % 86_400) % 3600) / 60) as u8,
        second: ((total % 86_400) % 60) as u8,
        ..t
    };
    plus_days_spec(base, (total / 86_400) as nat)
}

/// Specification mirror of [`Timestamp::add_resolution`].
pub open spec fn add_resolution_spec(t: Timestamp, r: Resolution) -> Timestamp {
    match r {
        Resolution::Second => plus_seconds_spec(t, 1),
        Resolution::Minute(k) => plus_seconds_spec(t, (k * 60) as nat),
        Resolution::Hour(k) => plus_seconds_spec(t, (k * 3600) as nat),
        Resolution::Day => plus_days_spec(t, 1),
        Resolution::Week => plus_days_spec(t, 7),
        Resolution::Month => {
            if t.month < 12 && t.day <= days_in_month_spec(t.year as int, t.month as int + 1) {
                Timestamp { month: (t.month + 1) as u8, ..t }
            } else {
                Timestamp { month: 1, year: (t.year + 1) as u32, ..t }
            }
        },
    }
}

/// Walking forward day by day keeps the date valid and the year bounded by
/// the number of days taken.
pub proof fn lemma_plus_days_wf(t: Timestamp, n: nat)
    requires
        t.wf(),
    ensures
        plus_days_spec(t, n).year <= t.year + n,
        1 <= plus_days_spec(t, n).month <= 12,
        1 <= plus_days_spec(t, n).day <= days_in_month_spec(
            plus_days_spec(t, n).year as int,
            plus_days_spec(t, n).month as int,
        ),
        plus_days_spec(t, n).hour == t.hour,
        plus_days_spec(t, n).minute == t.minute,
        plus_days_spec(t, n).second == t.second,
    decreases n,
{
    if n > 0 {
        lemma_plus_days_wf(t, (n - 1) as nat);
    }
}

impl Resolution {
    /// Whether the counted periods are in range for time arithmetic.
    pub open spec fn wf(self) -> bool {
        match self {
            Resolution::Minute(k) => k <= RESOLUTION_LIMIT,
            Resolution::Hour(k) => k <= RESOLUTION_LIMIT,
            _ => true,
        }
    }
}

} // verus!
