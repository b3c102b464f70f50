//! The backtest orchestrator.
//!
//! A backtest replays an ordered (oldest-first) series of frames through
//! an account.  Every proposed order is stamped with the running position
//! counter before it is logged: an `Open` takes the current counter, a
//! `Close` or `Stop` takes the current counter and then advances it, so an
//! entry and its eventual exit always share one identifier.  Proposed
//! opens are validated against the market first; a rejected open is
//! dropped.  Every attempted order lands in the audit trace.

use crate::account::{log_order_transition, update_orders_post, Account, AccountError};
use crate::market::{validate_spec, MarketError};
use crate::price::Frame;
use crate::strategy::{RiskStrategy, TradingStrategy};
use crate::trade::{Entry, Exit, Order};
use vstd::arithmetic::div_mod::lemma_div_is_strictly_smaller;
use vstd::prelude::*;
use vstd::string::StringExecFns;

verus! {

/// Why an attempted order was not booked: the market refused the entry,
/// or the account refused the transition.
#[derive(Debug)]
pub enum OrderError {
    Market(MarketError),
    Account(AccountError),
}

/// The decimal digit character for one digit value.
pub open spec fn digit_char(d: int) -> char {
    if d == 0 {
        '0'
    } else if d == 1 {
        '1'
    } else if d == 2 {
        '2'
    } else if d == 3 {
        '3'
    } else if d == 4 {
        '4'
    } else if d == 5 {
        '5'
    } else if d == 6 {
        '6'
    } else if d == 7 {
        '7'
    } else if d == 8 {
        '8'
    } else {
        '9'
    }
}

/// The decimal digits of a number, most significant first.
pub open spec fn digits_spec(n: nat) -> Seq<char>
    decreases n,
{
    if n < 10 {
        seq![digit_char(n as int)]
    } else {
        digits_spec(n / 10).push(digit_char((n % 10) as int))
    }
}

/// The one-character string for a digit.
fn digit_str(d: usize) -> (r: &'static str)
    requires
        d < 10,
    ensures
        r@ == seq![digit_char(d as int)],
{
    proof {
        reveal_strlit("0");
        reveal_strlit("1");
        reveal_strlit("2");
        reveal_strlit("3");
        reveal_strlit("4");
        reveal_strlit("5");
        reveal_strlit("6");
        reveal_strlit("7");
        reveal_strlit("8");
        reveal_strlit("9");
    }
    let r = match d {
        0 => "0",
        1 => "1",
        2 => "2",
        3 => "3",
        4 => "4",
        5 => "5",
        6 => "6",
        7 => "7",
        8 => "8",
        _ => "9",
    };
    proof {
        assert(r@ =~= seq![digit_char(d as int)]);
    }
    r
}

/// The decimal rendering of a counter value.
fn usize_to_string(n: usize) -> (r: String)
    ensures
        r@ == digits_spec(n as nat),
    decreases n,
{
    if n < 10 {
        digit_str(n).to_owned()
    } else {
        proof {
            lemma_div_is_strictly_smaller(n as int, 10);
        }
        let rest = usize_to_string(n / 10);
        let r = rest.concat(digit_str(n % 10));
        proof {
            assert(r@ =~= digits_spec((n / 10) as nat).push(digit_char((n as nat % 10) as int)));
        }
        r
    }
}

/// Whether `s` is `e` with its position identifier replaced by `id`.
pub open spec fn stamped_entry(e: Entry, s: Entry, id: Seq<char>) -> bool {
    &&& s.position_id@ == id
&&& s.direction == e.direction
&&& s.price == e.price
&&& s.stop == e.stop
&&& s.size == e.size
&&& s.time == e.time
}

/// Whether `s` is `x` with its position identifier replaced by `id`.
pub open spec fn stamped_exit(x: Exit, s: Exit, id: Seq<char>) -> bool {
    &&& s.position_id@ == id
&&& s.price == x.price
&&& s.time == x.time
}

/// A deterministic backtest run over one account, with the running
/// position counter and the audit trace of every attempted order.
pub struct Backtest<TS, RS> where TS: TradingStrategy, RS: RiskStrategy {
    pub account: Account<TS, RS>,
    pub p_id: usize,
    pub trace: Vec<Result<Order, OrderError>>,
}

/// How placing one proposed order moves the backtest from `pre` to
/// `post`, and which event it reports: an `Open` is validated against the
/// market, stamped with the current counter and logged; a `Close` or
/// `Stop` is stamped and logged, and a successful close advances the
/// counter.
pub open spec fn place_rel<TS: TradingStrategy, RS: RiskStrategy>(
    pre: Backtest<TS, RS>,
    post: Backtest<TS, RS>,
    order: Order,
    ev: Result<Order, OrderError>,
) -> bool {
    &&& post.trace == pre.trace
&&& match order {
        Order::Open(e) => match validate_spec(pre.account.market, e, pre.account.balance) {
            Err(me) => {
                &&& post.account == pre.account
            &&& post.p_id == pre.p_id
            &&& ev == Err::<Order, OrderError>(OrderError::Market(me))
            },
            Ok(()) => exists|st: Entry, lr: Result<(), AccountError>|
                {
                    &&& stamped_entry(e, st, digits_spec(pre.p_id as nat))
                &&& #[trigger] log_order_transition(pre.account, post.account, Order::Open(st), lr)
                &&& post.p_id == pre.p_id
                &&& match lr {
                        Ok(()) => ev matches Ok(o) && o matches Order::Open(o_en)
                            && stamped_entry(e, o_en, digits_spec(pre.p_id as nat)),
                        Err(ae) => ev == Err::<Order, OrderError>(OrderError::Account(ae)),
                    }
                },
        },
        Order::Close(x) => exists|st: Exit, lr: Result<(), AccountError>|
            {
                &&& stamped_exit(x, st, digits_spec(pre.p_id as nat))
            &&& #[trigger] log_order_transition(pre.account, post.account, Order::Close(st), lr)
            &&& match lr {
                    Ok(()) => {
                        &&& post.p_id == pre.p_id + 1
                    &&& ev matches Ok(o) && (o matches Order::Close(o_x) && stamped_exit(
                            x,
                            o_x,
                            digits_spec(pre.p_id as nat),
                        ))
                    },
                    Err(ae) => post.p_id == pre.p_id && ev == Err::<Order, OrderError>(
                        OrderError::Account(ae),
                    ),
                }
            },
        Order::Stop(x) => exists|st: Exit, lr: Result<(), AccountError>|
            {
                &&& stamped_exit(x, st, digits_spec(pre.p_id as nat))
            &&& #[trigger] log_order_transition(pre.account, post.account, Order::Stop(st), lr)
            &&& match lr {
                    Ok(()) => {
                        &&& post.p_id == pre.p_id + 1
                    &&& ev matches Ok(o) && (o matches Order::Stop(o_x) && stamped_exit(
                            x,
                            o_x,
                            digits_spec(pre.p_id as nat),
                        ))
                    },
                    Err(ae) => post.p_id == pre.p_id && ev == Err::<Order, OrderError>(
                        OrderError::Account(ae),
                    ),
                }
            },
    }
}

/// How processing the proposed orders of one frame, in order, moves the
/// backtest: each order is placed and its event appended to the trace.
pub open spec fn orders_fold_rel<TS: TradingStrategy, RS: RiskStrategy>(
    pre: Backtest<TS, RS>,
    post: Backtest<TS, RS>,
    orders: Seq<Order>,
) -> bool
    decreases orders.len(),
{
    if orders.len() == 0 {
        post == pre
    } else {
        exists|mid: Backtest<TS, RS>, ev: Result<Order, OrderError>|
            {
                &&& #[trigger] place_event_rel(pre, mid, orders[0], ev)
            &&& orders_fold_rel(mid, post, orders.drop_first())
            }
    }
}

/// One placed order together with its trace entry.
pub open spec fn place_event_rel<TS: TradingStrategy, RS: RiskStrategy>(
    pre: Backtest<TS, RS>,
    mid: Backtest<TS, RS>,
    order: Order,
    ev: Result<Order, OrderError>,
) -> bool {
    exists|placed: Backtest<TS, RS>|
        {
            &&& #[trigger] place_rel(pre, placed, order, ev)
        &&& mid.account == placed.account
        &&& mid.p_id == placed.p_id
        &&& mid.trace@ == pre.trace@.push(ev)
        }
}

/// How replaying one frame moves the backtest: the account takes the
/// frame, and each proposed order is placed in encounter order.
pub open spec fn frame_rel<TS: TradingStrategy, RS: RiskStrategy>(
    pre: Backtest<TS, RS>,
    post: Backtest<TS, RS>,
    frame: Frame,
) -> bool {
    exists|mid: Backtest<TS, RS>, orders: Seq<Order>|
        {
            &&& #[trigger] update_step_rel(pre, mid, frame, orders)
        &&& orders_fold_rel(mid, post, orders)
        }
}

/// The account's price update inside a backtest step.
pub open spec fn update_step_rel<TS: TradingStrategy, RS: RiskStrategy>(
    pre: Backtest<TS, RS>,
    mid: Backtest<TS, RS>,
    frame: Frame,
    orders: Seq<Order>,
) -> bool {
    &&& mid.p_id == pre.p_id
&&& mid.trace == pre.trace
&&& mid.account.wf()
&&& mid.account.price_history.history@ == pre.account.price_history.history@.insert(0, frame)
&&& mid.account.price_history.resolution == pre.account.price_history.resolution
&&& mid.account.balance == pre.account.balance
&&& mid.account.market == pre.account.market
&&& mid.account.trading_strategy == pre.account.trading_strategy
&&& mid.account.risk_strategy == pre.account.risk_strategy
&&& mid.account.risk_per_trade == pre.account.risk_per_trade
&&& mid.account.closed_trades == pre.account.closed_trades
&&& mid.account.live_trade == pre.account.live_trade
&&& update_orders_post(pre.account, mid.account.price_history, frame, orders)
}

/// How a whole run moves the backtest: one frame at a time, oldest first.
pub open spec fn run_rel<TS: TradingStrategy, RS: RiskStrategy>(
    pre: Backtest<TS, RS>,
    post: Backtest<TS, RS>,
    frames: Seq<Frame>,
) -> bool
    decreases frames.len(),
{
    if frames.len() == 0 {
        post == pre
    } else {
        exists|mid: Backtest<TS, RS>|
            {
                &&& #[trigger] frame_rel(pre, mid, frames[0])
            &&& run_rel(mid, post, frames.drop_first())
            }
    }
}

/// What one proposed order needs before it can be placed: bounded numbers
/// where the market and the account will compute with them, and counter
/// headroom where a close will advance it.
pub open spec fn place_ok<TS: TradingStrategy, RS: RiskStrategy>(
    bt: Backtest<TS, RS>,
    order: Order,
) -> bool {
    match order {
        Order::Open(e) => {
            &&& e.price.wf()
        &&& e.stop.wf()
        &&& e.size.currency == bt.account.balance.currency
        &&& -10_000_000_000_000_000_000_000_000 <= e.size.amount.m * e.price.m
                <= 10_000_000_000_000_000_000_000_000
        &&& (validate_spec(bt.account.market, e, bt.account.balance) is Ok
                && bt.account.live_trade is None ==> (e.wf() && crate::trade::risk_spec(e) != 0))
        },
        Order::Close(x) | Order::Stop(x) => {
            &&& (match bt.account.live_trade {
                Some(l) => x.wf() && -crate::points::BALANCE_LIMIT <= bt.account.balance.amount.m
                    + crate::trade::closed_profit_spec(l, x) <= crate::points::BALANCE_LIMIT,
                None => true,
            })
        &&& (bt.account.live_trade is Some ==> bt.p_id < usize::MAX)
        },
    }
}

/// What every order of every frame of a run needs: the conditions of
/// [`place_ok`] at each intermediate state the replay reaches.
pub open spec fn orders_ok<TS: TradingStrategy, RS: RiskStrategy>(
    bt: Backtest<TS, RS>,
    orders: Seq<Order>,
) -> bool
    decreases orders.len(),
{
    orders.len() == 0 || {
        &&& place_ok(bt, orders[0])
    &&& forall|mid: Backtest<TS, RS>, ev: Result<Order, OrderError>|
            #[trigger] place_event_rel(bt, mid, orders[0], ev) ==> orders_ok(
                mid,
                orders.drop_first(),
            )
    }
}

/// The run precondition, frame by frame: each frame is well-formed and
/// every order it provokes can be placed, at every state the replay can
/// reach.
pub open spec fn frames_ok<TS: TradingStrategy, RS: RiskStrategy>(
    bt: Backtest<TS, RS>,
    frames: Seq<Frame>,
) -> bool
    decreases frames.len(),
{
    frames.len() == 0 || {
        &&& frames[0].wf()
    &&& forall|mid: Backtest<TS, RS>, orders: Seq<Order>|
            #[trigger] update_step_rel(bt, mid, frames[0], orders) ==> orders_ok(mid, orders)
    &&& forall|mid: Backtest<TS, RS>| #[trigger] frame_rel(bt, mid, frames[0]) ==> frames_ok(
            mid,
            frames.drop_first(),
        )
    }
}

/// Chaining one more frame onto a replayed prefix replays the whole.
proof fn lemma_run_rel_snoc<TS: TradingStrategy, RS: RiskStrategy>(
    a: Backtest<TS, RS>,
    b: Backtest<TS, RS>,
    c: Backtest<TS, RS>,
    frames: Seq<Frame>,
    f: Frame,
)
    requires
        run_rel(a, b, frames),
        frame_rel(b, c, f),
    ensures
        run_rel(a, c, frames.push(f)),
    decreases frames.len(),
{
    if frames.len() == 0 {
        assert(frames.push(f)[0] == f);
        assert(frames.push(f).drop_first() =~= Seq::<Frame>::empty());
        assert(run_rel(c, c, frames.push(f).drop_first()));
    } else {
        let mid = choose|mid: Backtest<TS, RS>|
            #[trigger] frame_rel(a, mid, frames[0]) && run_rel(mid, b, frames.drop_first());
        lemma_run_rel_snoc(mid, b, c, frames.drop_first(), f);
        assert(frames.push(f)[0] == frames[0]);
        assert(frames.push(f).drop_first() =~= frames.drop_first().push(f));
    }
}

impl<TS, RS> Backtest<TS, RS> where TS: TradingStrategy, RS: RiskStrategy {
    /// The account is in range and the trace may grow.
    pub open spec fn wf(self) -> bool {
        self.account.wf()
    }

    /// A fresh backtest around an account, with the counter at zero and an
    /// empty trace.
    pub fn new(account: Account<TS, RS>) -> (r: Backtest<TS, RS>)
        ensures
            r.account == account,
            r.p_id == 0,
            r.trace@.len() == 0,
    {
        Backtest { account, p_id: 0, trace: Vec::new() }
    }

    /// Places one proposed order: validates and stamps an `Open`, stamps a
    /// `Close` or `Stop` and advances the counter on a successful close.
    fn place_order(&mut self, order: Order) -> (ev: Result<Order, OrderError>)
        requires
            old(self).wf(),
            place_ok(*old(self), order),
        ensures
            final(self).wf(),
            final(self).trace == old(self).trace,
            place_rel(*old(self), *final(self), order, ev),
    {
        match order {
            Order::Open(entry) => {
                match self.account.market.validate_entry(&entry, self.account.balance) {
                    Err(e) => Err(OrderError::Market(e)),
                    Ok(()) => {
                        let stamped = Entry {
                            position_id: usize_to_string(self.p_id),
                            direction: entry.direction,
                            price: entry.price,
                            stop: entry.stop,
                            size: entry.size,
                            time: entry.time,
                        };
                        let o = Order::Open(stamped.duplicate());
                        let ghost st = stamped;
                        let r = self.account.log_order(Order::Open(stamped));
                        proof {
                            assert(log_order_transition(
                                old(self).account,
                                self.account,
                                Order::Open(st),
                                r,
                            ));
                        }
                        match r {
                            Ok(()) => Ok(o),
                            Err(ae) => Err(OrderError::Account(ae)),
                        }
                    },
                }
            },
            Order::Close(exit) => {
                let stamped = Exit {
                    position_id: usize_to_string(self.p_id),
                    price: exit.price,
                    time: exit.time,
                };
                let o = Order::Close(stamped.duplicate());
                let ghost st = stamped;
                let r = self.account.log_order(Order::Close(stamped));
                proof {
                    assert(log_order_transition(
                        old(self).account,
                        self.account,
                        Order::Close(st),
                        r,
                    ));
                }
                match r {
                    Ok(()) => {
                        self.p_id = self.p_id + 1;
                        Ok(o)
                    },
                    Err(ae) => Err(OrderError::Account(ae)),
                }
            },
            Order::Stop(exit) => {
                let stamped = Exit {
                    position_id: usize_to_string(self.p_id),
                    price: exit.price,
                    time: exit.time,
                };
                let o = Order::Stop(stamped.duplicate());
                let ghost st = stamped;
                let r = self.account.log_order(Order::Stop(stamped));
                proof {
                    assert(log_order_transition(
                        old(self).account,
                        self.account,
                        Order::Stop(st),
                        r,
                    ));
                }
                match r {
                    Ok(()) => {
                        self.p_id = self.p_id + 1;
                        Ok(o)
                    },
                    Err(ae) => Err(OrderError::Account(ae)),
                }
            },
        }
    }

    /// Replays a full price series, oldest first, feeding every frame to
    /// the account, placing every proposed order and recording every
    /// attempt in the trace.
    pub fn run(&mut self, prices: &Vec<Frame>)
        requires
            old(self).wf(),
            frames_ok(*old(self), prices@),
        ensures
            final(self).wf(),
            run_rel(*old(self), *final(self), prices@),
    {
        let n = prices.len();
        proof {
            assert(prices@.subrange(0, n as int) =~= prices@);
            assert(prices@.subrange(0, 0) =~= Seq::<Frame>::empty());
        }
        let mut k: usize = 0;
        while k < n
            invariant
                n == prices@.len(),
                0 <= k <= n,
                self.wf(),
                run_rel(*old(self), *self, prices@.subrange(0, k as int)),
                frames_ok(*self, prices@.subrange(k as int, n as int)),
            decreases n - k,
        {
            let ghost pre_frame = *self;
            let ghost rest = prices@.subrange(k as int, n as int);
            proof {
                assert(rest[0] == prices@[k as int]);
            }
            let frame = prices[k];
            let mut orders = self.account.update_price(frame);
            let ghost mid0 = *self;
            let ghost all_orders = orders@;
            proof {
                assert(update_step_rel(pre_frame, mid0, frame, all_orders));
                assert(orders_ok(mid0, all_orders));
                assert(all_orders.subrange(0, all_orders.len() as int) =~= all_orders);
                assert(all_orders.subrange(0, 0) =~= Seq::<Order>::empty());
            }
            let m = orders.len();
            let mut j: usize = 0;
            while j < m
                invariant
                    m == all_orders.len(),
                    0 <= j <= m,
                    orders@ == all_orders,
                    self.wf(),
                    orders_fold_rel(mid0, *self, all_orders.subrange(0, j as int)),
                    orders_ok(*self, all_orders.subrange(j as int, m as int)),
                decreases m - j,
            {
                let ghost pre_place = *self;
                let ghost tail = all_orders.subrange(j as int, m as int);
                proof {
                    assert(tail[0] == all_orders[j as int]);
                }
                let order = orders[j].duplicate();
                let event = self.place_order(order);
                let ghost placed = *self;
                self.trace.push(event);
                proof {
                    assert(place_event_rel(pre_place, *self, all_orders[j as int], event));
                    assert(orders_ok(*self, tail.drop_first()));
                    assert(tail.drop_first() =~= all_orders.subrange(j + 1, m as int));
                    lemma_orders_fold_snoc(
                        mid0,
                        pre_place,
                        *self,
                        all_orders.subrange(0, j as int),
                        all_orders[j as int],
                        event,
                    );
                    assert(all_orders.subrange(0, j as int).push(all_orders[j as int])
                        =~= all_orders.subrange(0, j + 1));
                }
                j = j + 1;
            }
            proof {
                assert(all_orders.subrange(0, m as int) =~= all_orders);
                assert(orders_fold_rel(mid0, *self, all_orders));
                assert(frame_rel(pre_frame, *self, frame));
                lemma_run_rel_snoc(
                    *old(self),
                    pre_frame,
                    *self,
                    prices@.subrange(0, k as int),
                    frame,
                );
                assert(prices@.subrange(0, k as int).push(frame) =~= prices@.subrange(
                    0,
                    k + 1,
                ));
                assert(frames_ok(*self, rest.drop_first()));
                assert(rest.drop_first() =~= prices@.subrange(k + 1, n as int));
            }
            k = k + 1;
        }
        proof {
            assert(prices@.subrange(0, n as int) =~= prices@);
        }
    }
}

/// Chaining one more placed order onto a processed prefix processes the
/// whole.
proof fn lemma_orders_fold_snoc<TS: TradingStrategy, RS: RiskStrategy>(
    a: Backtest<TS, RS>,
    b: Backtest<TS, RS>,
    c: Backtest<TS, RS>,
    orders: Seq<Order>,
    o: Order,
    ev: Result<Order, OrderError>,
)
    requires
        orders_fold_rel(a, b, orders),
        place_event_rel(b, c, o, ev),
    ensures
        orders_fold_rel(a, c, orders.push(o)),
    decreases orders.len(),
{
    if orders.len() == 0 {
        assert(orders.push(o)[0] == o);
        assert(orders.push(o).drop_first() =~= Seq::<Order>::empty());
        assert(orders_fold_rel(c, c, orders.push(o).drop_first()));
    } else {
        let (mid, ev0) = choose|mid: Backtest<TS, RS>, ev0: Result<Order, OrderError>|
            #[trigger] place_event_rel(a, mid, orders[0], ev0) && orders_fold_rel(
                mid,
                b,
                orders.drop_first(),
            );
        lemma_orders_fold_snoc(mid, b, c, orders.drop_first(), o, ev);
        assert(orders.push(o)[0] == orders[0]);
        assert(orders.push(o).drop_first() =~= orders.drop_first().push(o));
    }
}

} // verus!
