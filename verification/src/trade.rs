//! Orders and trades: opening and closing instructions, and the ledger
//! rows derived from them.

use crate::points::{abs_spec, div_points_spec, mul_points_spec, Points, POINTS_LIMIT};
use crate::price::{CurrencyAmount, Price};
use crate::time::Timestamp;
use vstd::prelude::*;

verus! {

/// The direction of a position.
#[derive(Clone, Copy, Debug, PartialEq, Eq, Structural, Hash)]
pub enum Direction {
    Buy,
    Sell,
}

/// An opening order.  The position identifier is assigned by the caller,
/// not by the account.
#[derive(Debug, Clone)]
pub struct Entry {
    pub position_id: String,
    pub direction: Direction,
    pub price: Points,
    pub stop: Points,
    pub size: CurrencyAmount,
    pub time: Timestamp,
}

/// A closing order.  Whether the close was strategy-driven or
/// stop-triggered is carried only on the enclosing [`Order`].
#[derive(Debug, Clone)]
pub struct Exit {
    pub position_id: String,
    pub price: Points,
    pub time: Timestamp,
}

/// A proposed or confirmed order.  `Close` and `Stop` are processed
/// identically by the account; the tag exists for external bookkeeping.
#[derive(Debug, Clone)]
pub enum Order {
    Open(Entry),
    Close(Exit),
    Stop(Exit),
}

/// Whether a trade is still running or fully closed.
#[derive(Clone, Copy, Debug, PartialEq, Eq, Structural, Hash)]
pub enum TradeStatus {
    Open,
    Closed,
}

/// Whether a trade made or lost money.
#[derive(Clone, Copy, Debug, PartialEq, Eq, Structural, Hash)]
pub enum TradeOutcome {
    Profit,
    Loss,
}

/// A row in a trade log, recomputed on demand and never mutated in place.
#[derive(Debug, Clone)]
pub struct Trade {
    pub id: String,
    pub status: TradeStatus,
    pub direction: Direction,
    pub entry_time: Timestamp,
    pub entry_price: Points,
    pub exit_time: Option<Timestamp>,
    pub exit_price: Option<Points>,
    pub stop: Points,
    pub size: CurrencyAmount,
    pub risk: CurrencyAmount,
    pub outcome: TradeOutcome,
    pub price_diff: Points,
    pub profit: CurrencyAmount,
    pub risk_reward: Points,
}

impl Entry {
    /// Bounds on the stored numbers of an entry, as the account keeps them.
    pub open spec fn wf(self) -> bool {
        &&& self.price.wf()
    &&& self.stop.wf()
    &&& self.size.wf()
    &&& self.time.year <= 1_000_000_000
    }

    /// A field-by-field copy.
    pub fn duplicate(&self) -> (r: Entry)
        ensures
            r == *self,
    {
        Entry {
            position_id: self.position_id.clone(),
            direction: self.direction,
            price: self.price,
            stop: self.stop,
            size: self.size,
            time: self.time,
        }
    }

    /// The closing order for this position at the given quote: a long
    /// position sells at the bid, a short position buys back at the ask.
    pub fn exit(&self, price: Price, time: Timestamp) -> (r: Exit)
        ensures
            r == exit_for_spec(*self, price, time),
    {
        Exit {
            position_id: self.position_id.clone(),
            price: match self.direction {
                Direction::Buy => price.bid,
                Direction::Sell => price.ask,
            },
            time,
        }
    }
}

/// The exit an entry emits at a given quote and time.
pub open spec fn exit_for_spec(e: Entry, price: Price, time: Timestamp) -> Exit {
    Exit {
        position_id: e.position_id,
        price: if e.direction is Buy {
            price.bid
        } else {
            price.ask
        },
        time,
    }
}

impl Exit {
    /// Bounds on the stored numbers of an exit.
    pub open spec fn wf(self) -> bool {
        &&& self.price.wf()
    &&& self.time.year <= 1_000_000_000
    }

    /// A field-by-field copy.
    pub fn duplicate(&self) -> (r: Exit)
        ensures
            r == *self,
    {
        Exit { position_id: self.position_id.clone(), price: self.price, time: self.time }
    }
}

impl Order {
    /// Bounds on the stored numbers of an order.
    pub open spec fn wf(self) -> bool {
        match self {
            Order::Open(e) => e.wf(),
            Order::Close(x) => x.wf(),
            Order::Stop(x) => x.wf(),
        }
    }

    /// A field-by-field copy.
    pub fn duplicate(&self) -> (r: Order)
        ensures
            r == *self,
    {
        match self {
            Order::Open(e) => Order::Open(e.duplicate()),
            Order::Close(x) => Order::Close(x.duplicate()),
            Order::Stop(x) => Order::Stop(x.duplicate()),
        }
    }
}

/// The signed mantissa of the price move an open trade has seen.
pub open spec fn open_diff_spec(e: Entry, latest: Price) -> int {
    if e.direction is Buy {
        latest.bid.m - e.price.m
    } else {
        latest.ask.m - e.price.m
    }
}

/// The signed mantissa of the profit of an open trade: the size scaled by
/// the move toward the side the trader would close on.
pub open spec fn open_profit_spec(e: Entry, latest: Price) -> int {
    if e.direction is Buy {
        mul_points_spec(e.size.amount.m as int, latest.bid.m - e.price.m)
    } else {
        mul_points_spec(e.size.amount.m as int, e.price.m - latest.ask.m)
    }
}

/// The signed mantissa of the realized profit of a closed trade.
pub open spec fn closed_profit_spec(e: Entry, x: Exit) -> int {
    if e.direction is Buy {
        mul_points_spec(e.size.amount.m as int, x.price.m - e.price.m)
    } else {
        mul_points_spec(e.size.amount.m as int, e.price.m - x.price.m)
    }
}

/// The mantissa of the risk of an entry: its size scaled by the distance
/// from entry price to stop.
pub open spec fn risk_spec(e: Entry) -> int {
    mul_points_spec(e.size.amount.m as int, abs_spec(e.price.m - e.stop.m))
}

/// The ledger row projected from a live entry against the latest quote.
pub open spec fn trade_open_spec(e: Entry, latest: Price) -> Trade {
    let profit = open_profit_spec(e, latest);
    let risk = risk_spec(e);
    Trade {
        id: e.position_id,
        status: TradeStatus::Open,
        direction: e.direction,
        entry_time: e.time,
        entry_price: e.price,
        exit_time: None,
        exit_price: None,
        stop: e.stop,
        size: e.size,
        risk: CurrencyAmount { amount: Points { m: risk as i128 }, currency: e.size.currency },
        outcome: if profit > 0 {
            TradeOutcome::Profit
        } else {
            TradeOutcome::Loss
        },
        price_diff: Points { m: open_diff_spec(e, latest) as i128 },
        profit: CurrencyAmount { amount: Points { m: profit as i128 }, currency: e.size.currency },
        risk_reward: Points { m: div_points_spec(profit, risk) as i128 },
    }
}

/// The ledger row recorded when an entry is closed by an exit.
pub open spec fn trade_closed_spec(e: Entry, x: Exit) -> Trade {
    let profit = closed_profit_spec(e, x);
    let risk = risk_spec(e);
    Trade {
        id: e.position_id,
        status: TradeStatus::Closed,
        direction: e.direction,
        entry_time: e.time,
        entry_price: e.price,
        exit_time: Some(x.time),
        exit_price: Some(x.price),
        stop: e.stop,
        size: e.size,
        risk: CurrencyAmount { amount: Points { m: risk as i128 }, currency: e.size.currency },
        outcome: if profit > 0 {
            TradeOutcome::Profit
        } else {
            TradeOutcome::Loss
        },
        price_diff: Points { m: (x.price.m - e.price.m) as i128 },
        profit: CurrencyAmount { amount: Points { m: profit as i128 }, currency: e.size.currency },
        risk_reward: Points { m: div_points_spec(profit, risk) as i128 },
    }
}

/// Derived numbers of a well-formed trade stay far inside the `i128`
/// range: sizes and prices are bounded, so a scaled move is too.
pub proof fn lemma_trade_numbers_in_range(size_m: int, diff_m: int)
    requires
        -POINTS_LIMIT <= size_m <= POINTS_LIMIT,
        -2 * POINTS_LIMIT <= diff_m <= 2 * POINTS_LIMIT,
    ensures
        -2_000_000_000_000_000_000_000_000_000_000_000_000 <= size_m * diff_m
            <= 2_000_000_000_000_000_000_000_000_000_000_000_000,
        -2_000_000_000_000_000_000_000_000_000_000 <= mul_points_spec(size_m, diff_m)
            <= 2_000_000_000_000_000_000_000_000_000_000,
{
    assert(-2_000_000_000_000_000_000_000_000_000_000_000_000 <= size_m * diff_m
        <= 2_000_000_000_000_000_000_000_000_000_000_000_000) by (nonlinear_arith)
        requires
            -1_000_000_000_000_000_000 <= size_m <= 1_000_000_000_000_000_000,
            -2_000_000_000_000_000_000 <= diff_m <= 2_000_000_000_000_000_000,
    ;
    crate::points::lemma_round_div_range(
        size_m * diff_m,
        1_000_000,
        -2_000_000_000_000_000_000_000_000_000_000,
        2_000_000_000_000_000_000_000_000_000_000,
    );
}

impl Trade {
    /// Projects a ledger row from a live entry, valued against the latest
    /// quote.  The entry must carry a nonzero risk, as every entry the
    /// account accepts does.
    pub fn open(entry: &Entry, latest_price: Price) -> (r: Trade)
        requires
            entry.wf(),
            latest_price.wf(),
            risk_spec(*entry) != 0,
        ensures
            r == trade_open_spec(*entry, latest_price),
    {
        proof {
            lemma_trade_numbers_in_range(
                entry.size.amount.m as int,
                latest_price.bid.m - entry.price.m,
            );
            lemma_trade_numbers_in_range(
                entry.size.amount.m as int,
                entry.price.m - latest_price.ask.m,
            );
            lemma_trade_numbers_in_range(
                entry.size.amount.m as int,
                abs_spec(entry.price.m - entry.stop.m),
            );
        }
        let price_diff = match entry.direction {
            Direction::Buy => latest_price.bid.minus(entry.price),
            Direction::Sell => latest_price.ask.minus(entry.price),
        };
        let profit = match entry.direction {
            Direction::Buy => entry.size.times(latest_price.bid.minus(entry.price)),
            Direction::Sell => entry.size.times(entry.price.minus(latest_price.ask)),
        };
        let outcome = if profit.amount.m > 0 {
            TradeOutcome::Profit
        } else {
            TradeOutcome::Loss
        };
        let risk = entry.size.times(entry.price.minus(entry.stop).abs_val());
        let rr = match profit.ratio(risk) {
            Some(r) => r,
            None => Points::zero(),
        };
        Trade {
            id: entry.position_id.clone(),
            status: TradeStatus::Open,
            direction: entry.direction,
            entry_time: entry.time,
            entry_price: entry.price,
            exit_time: None,
            exit_price: None,
            stop: entry.stop,
            size: entry.size,
            risk,
            outcome,
            price_diff,
            profit,
            risk_reward: rr,
        }
    }

    /// Builds the ledger row for an entry closed by an exit.  The entry
    /// must carry a nonzero risk, as every entry the account accepts does.
    pub fn closed(entry: &Entry, exit: &Exit) -> (r: Trade)
        requires
            entry.wf(),
            exit.wf(),
            risk_spec(*entry) != 0,
        ensures
            r == trade_closed_spec(*entry, *exit),
    {
        proof {
            lemma_trade_numbers_in_range(
                entry.size.amount.m as int,
                exit.price.m - entry.price.m,
            );
            lemma_trade_numbers_in_range(
                entry.size.amount.m as int,
                entry.price.m - exit.price.m,
            );
            lemma_trade_numbers_in_range(
                entry.size.amount.m as int,
                abs_spec(entry.price.m - entry.stop.m),
            );
        }
        let price_diff = exit.price.minus(entry.price);
        let profit = match entry.direction {
            Direction::Buy => entry.size.times(exit.price.minus(entry.price)),
            Direction::Sell => entry.size.times(entry.price.minus(exit.price)),
        };
        let outcome = if profit.amount.m > 0 {
            TradeOutcome::Profit
        } else {
            TradeOutcome::Loss
        };
        let risk = entry.size.times(entry.price.minus(entry.stop).abs_val());
        let rr = match profit.ratio(risk) {
            Some(r) => r,
            None => Points::zero(),
        };
        Trade {
            id: entry.position_id.clone(),
            status: TradeStatus::Closed,
            direction: entry.direction,
            entry_time: entry.time,
            entry_price: entry.price,
            exit_time: Some(exit.time),
            exit_price: Some(exit.price),
            stop: entry.stop,
            size: entry.size,
            risk,
            outcome,
            price_diff,
            profit,
            risk_reward: rr,
        }
    }

    /// The closing order for this trade at the given quote.
    pub fn exit(&self, price: Price, time: Timestamp) -> (r: Exit)
        ensures
            r.position_id == self.id,
            r.price == if self.direction is Buy {
                price.bid
            } else {
                price.ask
            },
            r.time == time,
    {
        Exit {
            position_id: self.id.clone(),
            price: match self.direction {
                Direction::Buy => price.bid,
                Direction::Sell => price.ask,
            },
            time,
        }
    }

    /// A field-by-field copy.
    pub fn duplicate(&self) -> (r: Trade)
        ensures
            r == *self,
    {
        Trade {
            id: self.id.clone(),
            status: self.status,
            direction: self.direction,
            entry_time: self.entry_time,
            entry_price: self.entry_price,
            exit_time: self.exit_time,
            exit_price: self.exit_price,
            stop: self.stop,
            size: self.size,
            risk: self.risk,
            outcome: self.outcome,
            price_diff: self.price_diff,
            profit: self.profit,
            risk_reward: self.risk_reward,
        }
    }
}

/// The accounting identities of any closed ledger row: its risk is its
/// size scaled by the distance from entry price to stop, its profit is
/// its size scaled by the move from entry to exit in its direction, and
/// its risk-to-reward ratio is its profit divided by its risk, all in
/// six-decimal fixed point with no further drift.
pub proof fn lemma_closed_trade_accounting(e: Entry, x: Exit)
    requires
        e.wf(),
        x.wf(),
        risk_spec(e) != 0,
    ensures
        ({
            let t = trade_closed_spec(e, x);
            &&& t.risk.amount.m == mul_points_spec(
                t.size.amount.m as int,
                abs_spec(t.entry_price.m - t.stop.m),
            )
        &&& t.profit.amount.m == (if t.direction is Buy {
                mul_points_spec(t.size.amount.m as int, x.price.m - t.entry_price.m)
            } else {
                mul_points_spec(t.size.amount.m as int, t.entry_price.m - x.price.m)
            })
        &&& t.risk_reward.m == div_points_spec(t.profit.amount.m as int, t.risk.amount.m as int)
        }),
{
    lemma_trade_numbers_in_range(e.size.amount.m as int, x.price.m - e.price.m);
    lemma_trade_numbers_in_range(e.size.amount.m as int, e.price.m - x.price.m);
    lemma_trade_numbers_in_range(e.size.amount.m as int, abs_spec(e.price.m - e.stop.m));
    crate::points::lemma_div_points_in_range(closed_profit_spec(e, x), risk_spec(e));
}

impl PartialEq for Entry {
    fn eq(&self, other: &Entry) -> (r: bool) {
        self.position_id == other.position_id && self.direction == other.direction
            && self.price == other.price && self.stop == other.stop && self.size == other.size
            && self.time == other.time
    }
}

impl vstd::std_specs::cmp::PartialEqSpecImpl for Entry {
    open spec fn obeys_eq_spec() -> bool {
        true
    }

    open spec fn eq_spec(&self, other: &Entry) -> bool {
        self.position_id@ == other.position_id@ && self.direction == other.direction
            && self.price == other.price && self.stop == other.stop && self.size == other.size
            && self.time == other.time
    }
}

impl PartialEq for Exit {
    fn eq(&self, other: &Exit) -> (r: bool) {
        self.position_id == other.position_id && self.price == other.price && self.time
            == other.time
    }
}

impl vstd::std_specs::cmp::PartialEqSpecImpl for Exit {
    open spec fn obeys_eq_spec() -> bool {
        true
    }

    open spec fn eq_spec(&self, other: &Exit) -> bool {
        self.position_id@ == other.position_id@ && self.price == other.price && self.time
            == other.time
    }
}

impl PartialEq for Order {
    fn eq(&self, other: &Order) -> (r: bool) {
        match (self, other) {
            (Order::Open(a), Order::Open(b)) => a == b,
            (Order::Close(a), Order::Close(b)) => a == b,
            (Order::Stop(a), Order::Stop(b)) => a == b,
            _ => false,
        }
    }
}

impl vstd::std_specs::cmp::PartialEqSpecImpl for Order {
    open spec fn obeys_eq_spec() -> bool {
        true
    }

    open spec fn eq_spec(&self, other: &Order) -> bool {
        match (self, other) {
            (Order::Open(a), Order::Open(b)) => vstd::std_specs::cmp::PartialEqSpec::eq_spec(a, b),
            (Order::Close(a), Order::Close(b)) => vstd::std_specs::cmp::PartialEqSpec::eq_spec(a, b),
            (Order::Stop(a), Order::Stop(b)) => vstd::std_specs::cmp::PartialEqSpec::eq_spec(a, b),
            _ => false,
        }
    }
}

impl PartialEq for Trade {
    fn eq(&self, other: &Trade) -> (r: bool) {
        self.id == other.id && self.status == other.status && self.direction == other.direction
            && self.entry_time == other.entry_time && self.entry_price == other.entry_price
            && self.exit_time == other.exit_time && self.exit_price == other.exit_price
            && self.stop == other.stop && self.size == other.size && self.risk == other.risk
            && self.outcome == other.outcome && self.price_diff == other.price_diff
            && self.profit == other.profit && self.risk_reward == other.risk_reward
    }
}

impl vstd::std_specs::cmp::PartialEqSpecImpl for Trade {
    open spec fn obeys_eq_spec() -> bool {
        true
    }

    open spec fn eq_spec(&self, other: &Trade) -> bool {
        self.id@ == other.id@ && self.status == other.status && self.direction == other.direction
            && self.entry_time == other.entry_time && self.entry_price == other.entry_price
            && self.exit_time == other.exit_time && self.exit_price == other.exit_price
            && self.stop == other.stop && self.size == other.size && self.risk == other.risk
            && self.outcome == other.outcome && self.price_diff == other.price_diff
            && self.profit == other.profit && self.risk_reward == other.risk_reward
    }
}

} // verus!
