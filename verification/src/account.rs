//! The account state machine.
//!
//! An account owns its balance, price history, at most one live position
//! and the ledger of closed trades.  Price updates propose orders; logging
//! a confirmed order is the authoritative state transition.

use crate::market::Market;
use crate::points::{mul_points_spec, Points, BALANCE_LIMIT};
use crate::price::{CurrencyAmount, Frame, Price, PriceHistory};
use crate::strategy::{
    entry_fields_spec, entry_price_spec, RiskStrategy, TradingStrategy, Trend,
};
use crate::time::Resolution;
use crate::trade::{
    closed_profit_spec, exit_for_spec, risk_spec, trade_closed_spec, trade_open_spec, Direction,
    Entry, Order, Trade,
};
use vstd::prelude::*;

verus! {

/// Why the account refused to log an order.  Each variant carries the
/// position identifier it is about.
#[derive(Debug)]
pub enum AccountError {
    DuplicateEntry(String),
    NoMatchingEntry(String),
    PositionAlreadyClosed(String),
}

impl PartialEq for AccountError {
    fn eq(&self, other: &AccountError) -> (r: bool) {
        match (self, other) {
            (AccountError::DuplicateEntry(a), AccountError::DuplicateEntry(b)) => *a == *b,
            (AccountError::NoMatchingEntry(a), AccountError::NoMatchingEntry(b)) => *a == *b,
            (AccountError::PositionAlreadyClosed(a), AccountError::PositionAlreadyClosed(b)) => *a
                == *b,
            _ => false,
        }
    }
}

impl vstd::std_specs::cmp::PartialEqSpecImpl for AccountError {
    open spec fn obeys_eq_spec() -> bool {
        true
    }

    open spec fn eq_spec(&self, other: &AccountError) -> bool {
        match (self, other) {
            (AccountError::DuplicateEntry(a), AccountError::DuplicateEntry(b)) => a@ == b@,
            (AccountError::NoMatchingEntry(a), AccountError::NoMatchingEntry(b)) => a@ == b@,
            (AccountError::PositionAlreadyClosed(a), AccountError::PositionAlreadyClosed(b)) => a@
                == b@,
            _ => false,
        }
    }
}

/// The state of one trading account: balance, market rules, price history,
/// the two strategies, the risk budgeted per trade, the ledger of closed
/// trades and at most one live position.  The trade fields are exposed for
/// specification; mutate them only through the account's methods.
pub struct Account<TS, RS> where TS: TradingStrategy, RS: RiskStrategy {
    pub balance: CurrencyAmount,
    pub market: Market,
    pub price_history: PriceHistory,
    pub trading_strategy: TS,
    pub risk_strategy: RS,
    pub risk_per_trade: Points,
    pub closed_trades: Vec<Trade>,
    pub live_trade: Option<Entry>,
}

/// Whether a closed-trade ledger holds a trade with the given identifier.
pub open spec fn closed_has_id(closed: Seq<Trade>, id: Seq<char>) -> bool {
    exists|i: int| 0 <= i < closed.len() && #[trigger] closed[i].id@ == id
}

/// The exit order a price update emits against a live position, if any:
/// the stop check takes precedence, then a neutral trend or a trend
/// opposing the held direction closes the position.  Every exit fills at
/// the frame's close, on the side the position sells into.
pub open spec fn exit_orders_spec(live: Option<Entry>, frame: Frame, trend: Trend) -> Seq<Order> {
    match live {
        None => Seq::empty(),
        Some(lt) => {
            let exit = exit_for_spec(lt, frame.close, frame.close_time);
            if lt.direction is Buy && frame.low.bid.m <= lt.stop.m {
                seq![Order::Stop(exit)]
            } else if lt.direction is Sell && frame.high.ask.m >= lt.stop.m {
                seq![Order::Stop(exit)]
            } else if trend is Neutral {
                seq![Order::Close(exit)]
            } else if trend is Bullish && lt.direction is Sell {
                seq![Order::Close(exit)]
            } else if trend is Bearish && lt.direction is Buy {
                seq![Order::Close(exit)]
            } else {
                Seq::empty()
            }
        },
    }
}

/// Whether a price update tries to open a new position, and with which
/// direction and stop: only when no position is live or an exit was just
/// emitted, only on a directional trend, only when the risk strategy has
/// enough history, and only when the stop distance is not zero.
pub open spec fn open_attempt_spec<RS: RiskStrategy>(
    rs: RS,
    live_is_none: bool,
    exited: bool,
    trend: Trend,
    h: PriceHistory,
) -> Option<(Direction, Points)> {
    if (live_is_none || exited) && (trend is Bullish || trend is Bearish) {
        let dir = if trend is Bullish {
            Direction::Buy
        } else {
            Direction::Sell
        };
        match rs.stop_spec(dir, h) {
            Err(_) => None,
            Ok(s) => if entry_price_spec(dir, h).m == s.m {
                None
            } else {
                Some((dir, s))
            },
        }
    } else {
        None
    }
}

/// The risk budget of the next trade: the balance scaled by the
/// risk-per-trade fraction.
pub open spec fn risk_budget_spec<TS: TradingStrategy, RS: RiskStrategy>(
    a: Account<TS, RS>,
) -> CurrencyAmount {
    CurrencyAmount {
        amount: Points {
            m: mul_points_spec(a.balance.amount.m as int, a.risk_per_trade.m as int) as i128,
        },
        currency: a.balance.currency,
    }
}

/// What [`Account::update_price`] returns: the exit orders, followed by an
/// `Open` exactly when an open attempt goes through, whose entry is sized
/// from the risk budget.
pub open spec fn update_orders_post<TS: TradingStrategy, RS: RiskStrategy>(
    pre: Account<TS, RS>,
    post_h: PriceHistory,
    frame: Frame,
    result: Seq<Order>,
) -> bool {
    let trend = pre.trading_strategy.trend_spec(post_h);
    let exits = exit_orders_spec(pre.live_trade, frame, trend);
    match open_attempt_spec(
        pre.risk_strategy,
        pre.live_trade is None,
        exits.len() > 0,
        trend,
        post_h,
    ) {
        None => result == exits,
        Some(ds) => {
            &&& result.len() == exits.len() + 1
        &&& result.subrange(0, exits.len() as int) == exits
        &&& result.last() matches Order::Open(en) && entry_fields_spec(
                en,
                ds.0,
                post_h,
                risk_budget_spec(pre),
                ds.1,
            )
        },
    }
}

/// What the account demands of an order before logging it: a fresh entry
/// carries bounded numbers, a nonzero risk and the account's currency; an
/// exit against a live position carries bounded numbers and must not push
/// the balance out of range.
pub open spec fn log_order_req<TS: TradingStrategy, RS: RiskStrategy>(
    a: Account<TS, RS>,
    order: Order,
) -> bool {
    match order {
        Order::Open(e) => a.live_trade is None ==> (e.wf() && risk_spec(e) != 0
            && e.size.currency == a.balance.currency),
        Order::Close(x) | Order::Stop(x) => match a.live_trade {
            Some(l) => x.wf() && -BALANCE_LIMIT <= a.balance.amount.m + closed_profit_spec(l, x)
                <= BALANCE_LIMIT,
            None => true,
        },
    }
}

/// How [`Account::log_order`] moves the account from `pre` to `post` and
/// what it returns: an `Open` becomes the live position or is refused as a
/// duplicate; a `Close` or `Stop` against the live position closes it
/// unconditionally, banks the profit and appends the ledger row; one
/// without a live position is refused, naming the position already closed
/// when the ledger knows the identifier.
pub open spec fn log_order_transition<TS: TradingStrategy, RS: RiskStrategy>(
    pre: Account<TS, RS>,
    post: Account<TS, RS>,
    order: Order,
    r: Result<(), AccountError>,
) -> bool {
    &&& post.market == pre.market
&&& post.price_history == pre.price_history
&&& post.trading_strategy == pre.trading_strategy
&&& post.risk_strategy == pre.risk_strategy
&&& post.risk_per_trade == pre.risk_per_trade
&&& match order {
        Order::Open(e) => match pre.live_trade {
            None => {
                &&& post.live_trade == Some(e)
            &&& post.closed_trades@ == pre.closed_trades@
            &&& post.balance == pre.balance
            &&& r == Ok::<(), AccountError>(())
            },
            Some(l) => {
                &&& post.live_trade == pre.live_trade
            &&& post.closed_trades@ == pre.closed_trades@
            &&& post.balance == pre.balance
            &&& r == Err::<(), AccountError>(AccountError::DuplicateEntry(l.position_id))
            },
        },
        Order::Close(x) | Order::Stop(x) => match pre.live_trade {
            Some(l) => {
                let t = trade_closed_spec(l, x);
                &&& post.live_trade is None
            &&& post.closed_trades@ == pre.closed_trades@.push(t)
            &&& post.balance.amount.m == pre.balance.amount.m + t.profit.amount.m
            &&& post.balance.currency == pre.balance.currency
            &&& r == Ok::<(), AccountError>(())
            },
            None => {
                &&& post.live_trade is None
            &&& post.closed_trades@ == pre.closed_trades@
            &&& post.balance == pre.balance
            &&& if closed_has_id(pre.closed_trades@, x.position_id@) {
                    r == Err::<(), AccountError>(AccountError::PositionAlreadyClosed(
                        x.position_id,
                    ))
                } else {
                    r == Err::<(), AccountError>(AccountError::NoMatchingEntry(x.position_id))
                }
            },
        },
    }
}

/// Inserts a trade into a ledger slice kept sorted by entry time: the
/// trade moves left past every strictly later trade, so trades entered at
/// the same instant keep their encounter order.
pub open spec fn insert_sorted_spec(s: Seq<Trade>, t: Trade) -> Seq<Trade>
    decreases s.len(),
{
    if s.len() > 0 && s.last().entry_time.key_spec() > t.entry_time.key_spec() {
        insert_sorted_spec(s.drop_last(), t).push(s.last())
    } else {
        s.push(t)
    }
}

/// A trade sequence ordered by non-decreasing entry time.
pub open spec fn sorted_by_entry_time(s: Seq<Trade>) -> bool {
    forall|i: int, j: int|
        0 <= i <= j < s.len() ==> #[trigger] s[i].entry_time.key_spec()
            <= #[trigger] s[j].entry_time.key_spec()
}

/// The trades projected from an account: every closed trade in ledger
/// order, then the live position valued against the latest quote.
pub open spec fn projected_trades_spec<TS: TradingStrategy, RS: RiskStrategy>(
    a: Account<TS, RS>,
    latest_price: Price,
) -> Seq<Trade> {
    match a.live_trade {
        None => a.closed_trades@,
        Some(l) => a.closed_trades@.push(trade_open_spec(l, latest_price)),
    }
}

/// What [`Account::trade_log`] returns: the projected trades, stably
/// sorted by entry time.
pub open spec fn trade_log_spec<TS: TradingStrategy, RS: RiskStrategy>(
    a: Account<TS, RS>,
    latest_price: Price,
) -> Seq<Trade> {
    sort_by_entry_time_spec(projected_trades_spec(a, latest_price))
}

/// Stable insertion sort of a trade sequence by entry time.
pub open spec fn sort_by_entry_time_spec(s: Seq<Trade>) -> Seq<Trade>
    decreases s.len(),
{
    if s.len() == 0 {
        Seq::empty()
    } else {
        insert_sorted_spec(sort_by_entry_time_spec(s.drop_last()), s.last())
    }
}

/// Inserting into a sorted ledger keeps it sorted.
proof fn lemma_insert_sorted_keeps_sorted(s: Seq<Trade>, t: Trade)
    requires
        sorted_by_entry_time(s),
    ensures
        sorted_by_entry_time(insert_sorted_spec(s, t)),
        insert_sorted_spec(s, t).len() == s.len() + 1,
        forall|i: int|
            0 <= i < insert_sorted_spec(s, t).len() ==> (#[trigger] insert_sorted_spec(s, t)[i]
                == t || exists|j: int| 0 <= j < s.len() && insert_sorted_spec(s, t)[i] == s[j]),
    decreases s.len(),
{
    let r = insert_sorted_spec(s, t);
    if s.len() > 0 && s.last().entry_time.key_spec() > t.entry_time.key_spec() {
        assert(sorted_by_entry_time(s.drop_last()));
        lemma_insert_sorted_keeps_sorted(s.drop_last(), t);
        let inner = insert_sorted_spec(s.drop_last(), t);
        assert(r == inner.push(s.last()));
        assert forall|i: int| 0 <= i < inner.len() implies #[trigger] inner[i].entry_time.key_spec()
            <= s.last().entry_time.key_spec() by {
            if inner[i] == t {
            } else {
                let j = choose|j: int| 0 <= j < s.drop_last().len() && inner[i] == s.drop_last()[j];
                assert(s.drop_last()[j] == s[j]);
                assert(s[j].entry_time.key_spec() <= s.last().entry_time.key_spec());
            }
        }
        assert forall|i: int| 0 <= i < r.len() implies (#[trigger] r[i] == t || exists|j: int|
            0 <= j < s.len() && r[i] == s[j]) by {
            if i < inner.len() {
                assert(inner[i] == r[i]);
                if inner[i] != t {
                    let j = choose|j: int|
                        0 <= j < s.drop_last().len() && inner[i] == s.drop_last()[j];
                    assert(r[i] == s[j]);
                }
            } else {
                assert(r[i] == s[s.len() - 1]);
            }
        }
    } else {
        assert(r == s.push(t));
        if s.len() > 0 {
            assert forall|i: int, j: int| 0 <= i <= j < r.len() implies #[trigger] r[
                i
            ].entry_time.key_spec() <= #[trigger] r[j].entry_time.key_spec() by {
                if j < s.len() {
                } else {
                    if i < s.len() {
                        assert(s[i].entry_time.key_spec() <= s.last().entry_time.key_spec());
                        assert(s.last().entry_time.key_spec() <= t.entry_time.key_spec());
                    }
                }
            }
        }
    }
}

/// The stable sort of any trade sequence is sorted by entry time.
pub proof fn lemma_sort_by_entry_time_sorted(s: Seq<Trade>)
    ensures
        sorted_by_entry_time(sort_by_entry_time_spec(s)),
    decreases s.len(),
{
    if s.len() > 0 {
        lemma_sort_by_entry_time_sorted(s.drop_last());
        lemma_insert_sorted_keeps_sorted(sort_by_entry_time_spec(s.drop_last()), s.last());
    }
}

/// The trade log of any account is sorted by non-decreasing entry time.
pub proof fn lemma_trade_log_sorted<TS: TradingStrategy, RS: RiskStrategy>(
    a: Account<TS, RS>,
    latest_price: Price,
)
    ensures
        sorted_by_entry_time(trade_log_spec(a, latest_price)),
{
    lemma_sort_by_entry_time_sorted(projected_trades_spec(a, latest_price));
}

/// Splitting view of the stable insert: with `i` the first index from
/// which every trade is strictly later than `t`, the insert places `t`
/// exactly there.
proof fn lemma_insert_sorted_split(s: Seq<Trade>, t: Trade, i: int)
    requires
        0 <= i <= s.len(),
        forall|j: int|
            i <= j < s.len() ==> #[trigger] s[j].entry_time.key_spec() > t.entry_time.key_spec(),
        i > 0 ==> s[i - 1].entry_time.key_spec() <= t.entry_time.key_spec(),
    ensures
        insert_sorted_spec(s, t) == s.subrange(0, i) + seq![t] + s.subrange(i, s.len() as int),
    decreases s.len(),
{
    if i == s.len() {
        assert(insert_sorted_spec(s, t) == s.push(t));
        assert(s.subrange(0, i) + seq![t] + s.subrange(i, s.len() as int) =~= s.push(t));
    } else {
        assert(s.last().entry_time.key_spec() > t.entry_time.key_spec());
        lemma_insert_sorted_split(s.drop_last(), t, i);
        assert(s.drop_last().subrange(0, i) =~= s.subrange(0, i));
        assert(s.drop_last().subrange(i, s.drop_last().len() as int) =~= s.subrange(
            i,
            s.len() - 1,
        ));
        assert(insert_sorted_spec(s, t) =~= s.subrange(0, i) + seq![t] + s.subrange(
            i,
            s.len() as int,
        ));
    }
}

/// Every entry time in a ledger stays within the year bound.
pub open spec fn trade_years_ok(s: Seq<Trade>) -> bool {
    forall|i: int| 0 <= i < s.len() ==> (#[trigger] s[i]).entry_time.year <= 1_000_000_000
}

/// Inserts a trade into a vector kept sorted by entry time, before the
/// run of strictly later trades.
fn insert_trade_sorted(trades: &mut Vec<Trade>, t: Trade)
    requires
        trade_years_ok(old(trades)@),
        t.entry_time.year <= 1_000_000_000,
    ensures
        final(trades)@ == insert_sorted_spec(old(trades)@, t),
        trade_years_ok(final(trades)@),
{
    let tkey = t.entry_time.key();
    let mut i: usize = trades.len();
    while i > 0 && trades[i - 1].entry_time.key() > tkey
        invariant
            0 <= i <= trades@.len(),
            trade_years_ok(trades@),
            t.entry_time.year <= 1_000_000_000,
            tkey == t.entry_time.key_spec(),
            forall|j: int|
                i <= j < trades@.len() ==> #[trigger] trades@[j].entry_time.key_spec()
                    > t.entry_time.key_spec(),
        decreases i,
    {
        i = i - 1;
    }
    proof {
        lemma_insert_sorted_split(trades@, t, i as int);
    }
    let ghost pre = trades@;
    trades.insert(i, t);
    proof {
        assert(trades@ =~= pre.subrange(0, i as int) + seq![t] + pre.subrange(
            i as int,
            pre.len() as int,
        ));
        assert forall|k: int| 0 <= k < trades@.len() implies (#[trigger] trades@[k]).entry_time.year
            <= 1_000_000_000 by {
            if k < i {
                assert(trades@[k] == pre[k]);
            } else if k > i {
                assert(trades@[k] == pre[k - 1]);
            }
        }
    }
}

impl<TS, RS> Account<TS, RS> where TS: TradingStrategy, RS: RiskStrategy {
    /// The account's standing well-formedness: rules and strategies in
    /// range, one currency throughout, the balance in range, every stored
    /// frame in range, and any live position with bounded numbers and a
    /// nonzero risk.
    pub open spec fn wf(self) -> bool {
        &&& self.market.wf()
    &&& self.market.min_deal_size.currency == self.balance.currency
    &&& self.price_history.wf()
    &&& self.trading_strategy.wf()
    &&& self.risk_strategy.wf()
    &&& 0 <= self.risk_per_trade.m <= 1_000_000
    &&& -BALANCE_LIMIT <= self.balance.amount.m <= BALANCE_LIMIT
    &&& match self.live_trade {
            Some(e) => e.wf() && risk_spec(e) != 0 && e.size.currency == self.balance.currency,
            None => true,
        }
    &&& forall|i: int|
            0 <= i < self.closed_trades@.len()
                ==> (#[trigger] self.closed_trades@[i]).entry_time.year <= 1_000_000_000
    }

    /// A fresh account with an opening balance, no history, no live
    /// position and an empty ledger.
    pub fn new(
        market: Market,
        trading_strategy: TS,
        risk_strategy: RS,
        risk_per_trade: Points,
        opening_balance: CurrencyAmount,
        resolution: Resolution,
    ) -> (r: Account<TS, RS>)
        requires
            market.wf(),
            market.min_deal_size.currency == opening_balance.currency,
            trading_strategy.wf(),
            risk_strategy.wf(),
            0 <= risk_per_trade.m <= 1_000_000,
            -BALANCE_LIMIT <= opening_balance.amount.m <= BALANCE_LIMIT,
            resolution.wf(),
        ensures
            r.balance == opening_balance,
            r.market == market,
            r.trading_strategy == trading_strategy,
            r.risk_strategy == risk_strategy,
            r.risk_per_trade == risk_per_trade,
            r.price_history.resolution == resolution,
            r.price_history.history@.len() == 0,
            r.closed_trades@.len() == 0,
            r.live_trade is None,
            r.wf(),
    {
        Account {
            balance: opening_balance,
            market,
            trading_strategy,
            risk_strategy,
            risk_per_trade,
            price_history: PriceHistory { resolution, history: Vec::new() },
            closed_trades: Vec::new(),
            live_trade: None,
        }
    }

    /// Takes one new frame of price information and proposes the orders it
    /// calls for.  Only the price history changes; the live position, the
    /// ledger and the balance move when a confirmed order is logged back.
    pub fn update_price(&mut self, frame: Frame) -> (orders: Vec<Order>)
        requires
            old(self).wf(),
            frame.wf(),
        ensures
            final(self).wf(),
            final(self).price_history.history@ == old(self).price_history.history@.insert(
                0,
                frame,
            ),
            final(self).price_history.resolution == old(self).price_history.resolution,
            final(self).balance == old(self).balance,
            final(self).market == old(self).market,
            final(self).trading_strategy == old(self).trading_strategy,
            final(self).risk_strategy == old(self).risk_strategy,
            final(self).risk_per_trade == old(self).risk_per_trade,
            final(self).closed_trades == old(self).closed_trades,
            final(self).live_trade == old(self).live_trade,
            update_orders_post(*old(self), final(self).price_history, frame, orders@),
    {
        self.price_history.history.insert(0, frame);
        let time = frame.close_time;
        let trend = self.trading_strategy.trend(&self.price_history);
        let ghost h2 = self.price_history;
        let mut orders: Vec<Order> = Vec::new();

        // Handle exits first.
        match &self.live_trade {
            None => {},
            Some(lt) => {
                if matches!(lt.direction, Direction::Buy) && frame.low.bid.m <= lt.stop.m {
                    // Stop-loss: evaluated on the candle's extreme, filled
                    // at its close.
                    orders.push(Order::Stop(lt.exit(frame.close, time)));
                } else if matches!(lt.direction, Direction::Sell) && frame.high.ask.m
                    >= lt.stop.m {
                    orders.push(Order::Stop(lt.exit(frame.close, time)));
                } else if matches!(trend, Trend::Neutral) {
                    orders.push(Order::Close(lt.exit(frame.close, time)));
                } else if matches!(trend, Trend::Bullish) && matches!(
                    lt.direction,
                    Direction::Sell,
                ) {
                    orders.push(Order::Close(lt.exit(frame.close, time)));
                } else if matches!(trend, Trend::Bearish) && matches!(
                    lt.direction,
                    Direction::Buy,
                ) {
                    orders.push(Order::Close(lt.exit(frame.close, time)));
                }
            },
        }
        assert(orders@ == exit_orders_spec(old(self).live_trade, frame, trend));

        // Enter a new position on a directional trend, once any exit has
        // freed the single position slot.
        if self.live_trade.is_none() || orders.len() > 0 {
            let dir_opt = match trend {
                Trend::Bullish => Some(Direction::Buy),
                Trend::Bearish => Some(Direction::Sell),
                Trend::Neutral => None,
            };
            if let Some(dir) = dir_opt {
                proof {
                    assert(-1_000_000_000_000_000_000_000_000_000_000_000_000
                        <= self.balance.amount.m * self.risk_per_trade.m
                        <= 1_000_000_000_000_000_000_000_000_000_000_000_000) by (nonlinear_arith)
                        requires
                            -BALANCE_LIMIT as int <= self.balance.amount.m <= BALANCE_LIMIT as int,
                            0 <= self.risk_per_trade.m <= 1_000_000,
                    ;
                    crate::points::lemma_round_div_range(
                        self.balance.amount.m * self.risk_per_trade.m,
                        1_000_000,
                        -1_000_000_000_000_000_000_000_000_000_000,
                        1_000_000_000_000_000_000_000_000_000_000,
                    );
                }
                let risk = self.balance.times(self.risk_per_trade);
                proof {
                    assert(risk == risk_budget_spec(*old(self)));
                }
                match self.risk_strategy.stop(dir, &self.price_history) {
                    Err(_) => {},
                    Ok(s) => {
                        let price = match dir {
                            Direction::Buy => frame.close.ask,
                            Direction::Sell => frame.close.bid,
                        };
                        proof {
                            assert(self.price_history.history@[0] == frame);
                            assert(price == entry_price_spec(dir, h2));
                        }
                        if price.m != s.m {
                            match self.risk_strategy.entry(dir, &self.price_history, risk) {
                                Ok(en) => {
                                    let ghost exits = exit_orders_spec(
                                        old(self).live_trade,
                                        frame,
                                        trend,
                                    );
                                    orders.push(Order::Open(en));
                                    proof {
                                        assert(open_attempt_spec(
                                            old(self).risk_strategy,
                                            old(self).live_trade is None,
                                            exits.len() > 0,
                                            trend,
                                            h2,
                                        ) == Some((dir, s)));
                                        assert(orders@.subrange(0, exits.len() as int) =~= exits);
                                        assert(orders@.last() == Order::Open(en));
                                    }
                                },
                                Err(_) => {
                                    proof {
                                        assert(false);
                                    }
                                },
                            }
                        }
                    },
                }
            }
        }
        orders
    }

    /// Logs an order that has been placed: the authoritative state
    /// transition.  A `Close` or `Stop` against a live position closes it
    /// whatever identifier the exit carries; under the single-position
    /// regime the caller always closes the currently live position.
    pub fn log_order(&mut self, order: Order) -> (r: Result<(), AccountError>)
        requires
            old(self).wf(),
            log_order_req(*old(self), order),
        ensures
            final(self).wf(),
            log_order_transition(*old(self), *final(self), order, r),
    {
        match order {
            Order::Open(e) => match &self.live_trade {
                Some(l) => Err(AccountError::DuplicateEntry(l.position_id.clone())),
                None => {
                    self.live_trade = Some(e);
                    Ok(())
                },
            },
            Order::Close(x) | Order::Stop(x) => {
                let live = self.live_trade.take();
                match live {
                    Some(l) => {
                        let trade = Trade::closed(&l, &x);
                        self.balance = self.balance.plus(trade.profit);
                        self.closed_trades.push(trade);
                        Ok(())
                    },
                    None => {
                        let n = self.closed_trades.len();
                        let mut found = false;
                        let mut i: usize = 0;
                        while i < n
                            invariant
                                0 <= i <= n,
                                n == self.closed_trades@.len(),
                                found == exists|j: int|
                                    0 <= j < i && #[trigger] self.closed_trades@[j].id@
                                        == x.position_id@,
                            decreases n - i,
                        {
                            if self.closed_trades[i].id == x.position_id {
                                found = true;
                            }
                            i = i + 1;
                        }
                        if found {
                            Err(AccountError::PositionAlreadyClosed(x.position_id))
                        } else {
                            Err(AccountError::NoMatchingEntry(x.position_id))
                        }
                    },
                }
            },
        }
    }

    /// Projects the ledger: every closed trade plus the live position, if
    /// any, valued against the latest quote, sorted by ascending entry
    /// time.  Trades are recomputed on demand, never mutated in place.
    pub fn trade_log(&self, latest_price: Price) -> (r: Vec<Trade>)
        requires
            self.wf(),
            latest_price.wf(),
        ensures
            r@ == trade_log_spec(*self, latest_price),
            sorted_by_entry_time(r@),
    {
        let mut trades: Vec<Trade> = Vec::new();
        let n = self.closed_trades.len();
        let mut i: usize = 0;
        while i < n
            invariant
                self.wf(),
                n == self.closed_trades@.len(),
                0 <= i <= n,
                trade_years_ok(trades@),
                trades@ == sort_by_entry_time_spec(self.closed_trades@.subrange(0, i as int)),
            decreases n - i,
        {
            let t = self.closed_trades[i].duplicate();
            insert_trade_sorted(&mut trades, t);
            i = i + 1;
            proof {
                assert(self.closed_trades@.subrange(0, i as int).drop_last()
                    =~= self.closed_trades@.subrange(0, i - 1));
                assert(self.closed_trades@.subrange(0, i as int).last()
                    == self.closed_trades@[i - 1]);
            }
        }
        proof {
            assert(self.closed_trades@.subrange(0, n as int) =~= self.closed_trades@);
        }
        match &self.live_trade {
            None => {},
            Some(l) => {
                let t = Trade::open(l, latest_price);
                insert_trade_sorted(&mut trades, t);
                proof {
                    assert(projected_trades_spec(*self, latest_price).drop_last()
                        =~= self.closed_trades@);
                }
            },
        }
        proof {
            lemma_sort_by_entry_time_sorted(projected_trades_spec(*self, latest_price));
        }
        trades
    }
}

/// A second `Open` while a position is live is always refused as a
/// duplicate and leaves the account unchanged: at most one position is
/// live at any time.
pub proof fn lemma_second_open_rejected<TS: TradingStrategy, RS: RiskStrategy>(
    pre: Account<TS, RS>,
    post: Account<TS, RS>,
    e: Entry,
    r: Result<(), AccountError>,
)
    requires
        pre.live_trade is Some,
        log_order_transition(pre, post, Order::Open(e), r),
    ensures
        r == Err::<(), AccountError>(AccountError::DuplicateEntry(
            pre.live_trade->Some_0.position_id,
        )),
        post.live_trade == pre.live_trade,
        post.closed_trades@ == pre.closed_trades@,
        post.balance == pre.balance,
{
}

} // verus!
