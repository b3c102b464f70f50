use betty::account::{Account, AccountError};
use betty::market::Market;
use betty::points::Points;
use betty::price::{Currency, CurrencyAmount, Frame, Price, PriceHistory};
use betty::strategies::constant::{Bearish, Bullish, Neutral, NoRisk};
use betty::strategy::RiskStrategy;
use betty::time::{Resolution, Timestamp};
use betty::trade::{Direction, Entry, Exit, Order, Trade, TradeOutcome, TradeStatus};

fn gbp() -> Currency {
    Currency { code: 826 }
}

fn amount(v: i64) -> CurrencyAmount {
    CurrencyAmount::new(Points::whole(v), gbp())
}

fn amount_micros(m: i128) -> CurrencyAmount {
    CurrencyAmount::new(Points::micros(m), gbp())
}

fn market() -> Market {
    Market {
        code: "UKX".to_string(),
        min_deal_size: amount_micros(500_000),
        min_stop_distance: Points::whole(8),
        margin_factor: Points::micros(500_000),
    }
}

fn date() -> Timestamp {
    Timestamp::new(2021, 1, 1, 10, 1, 0)
}

fn ten_past() -> Timestamp {
    Timestamp::new(2021, 1, 1, 10, 11, 0)
}

fn frame() -> Frame {
    Frame {
        open: Price::new_mid(Points::whole(100), Points::whole(1)),
        close: Price::new_mid(Points::whole(200), Points::whole(1)),
        low: Price::new_mid(Points::whole(50), Points::whole(1)),
        high: Price::new_mid(Points::whole(150), Points::whole(1)),
        close_time: date(),
    }
}

fn history() -> PriceHistory {
    PriceHistory { resolution: Resolution::Minute(10), history: vec![frame()] }
}

fn account() -> Account<Neutral, NoRisk> {
    Account::new(
        market(),
        Neutral {},
        NoRisk {},
        Points::micros(10_000),
        amount(1000),
        Resolution::Minute(10),
    )
}

#[test]
fn logs_a_price_update() {
    let mut account = account();
    let expected = frame();
    account.update_price(expected);

    let actual = account.price_history.history[0];

    assert_eq!(actual, expected);
}

#[test]
fn triggers_a_stop() -> Result<(), AccountError> {
    let mut account = account();

    let open_1 = Entry {
        position_id: "1".to_string(),
        direction: Direction::Buy,
        price: Points::whole(100),
        stop: Points::whole(90),
        size: amount(2),
        time: date(),
    };
    let close_1 = Exit {
        position_id: "1".to_string(),
        price: Points::whole(89), // slippage
        time: date(),
    };
    account.log_order(Order::Open(open_1))?;
    account.log_order(Order::Close(close_1))?;

    let open = Entry {
        position_id: "2".to_string(),
        direction: Direction::Buy,
        price: Points::whole(100),
        stop: Points::whole(90),
        size: amount(1),
        time: date(),
    };
    account.log_order(Order::Open(open.clone()))?;

    let price = Frame { close_time: ten_past(), ..frame() };

    let actual = account.update_price(price);
    let expected = vec![Order::Stop(Exit {
        position_id: "2".to_string(),
        price: Points::micros(199_500_000),
        time: ten_past(),
    })];

    Ok(assert_eq!(actual, expected))
}

#[test]
fn opens_a_position_based_on_a_trend() {
    let mut long_account = Account::new(
        market(),
        Bullish {},
        NoRisk {},
        Points::micros(10_000),
        amount(1000),
        Resolution::Minute(10),
    );
    let mut short_account = Account::new(
        market(),
        Bearish {},
        NoRisk {},
        Points::micros(10_000),
        amount(1000),
        Resolution::Minute(10),
    );

    let expected_long = vec![Order::Open(
        long_account.risk_strategy.entry(Direction::Buy, &history(), amount(10)).unwrap(),
    )];
    let actual_long = long_account.update_price(frame());

    assert_eq!(actual_long, expected_long);

    let expected_short = vec![Order::Open(
        short_account.risk_strategy.entry(Direction::Sell, &history(), amount(10)).unwrap(),
    )];
    let actual_short = short_account.update_price(frame());

    assert_eq!(actual_short, expected_short);
}

#[test]
fn closes_a_position_based_on_a_trend_ending() -> Result<(), AccountError> {
    let mut long_account = Account::new(
        market(),
        Neutral {},
        NoRisk {},
        Points::micros(10_000),
        amount(1000),
        Resolution::Minute(10),
    );
    let long_open = Entry {
        position_id: "1".to_string(),
        direction: Direction::Buy,
        price: Points::whole(40),
        stop: Points::whole(30),
        size: amount(1),
        time: date(),
    };
    long_account.log_order(Order::Open(long_open.clone()))?;

    let mut short_account = Account::new(
        market(),
        Neutral {},
        NoRisk {},
        Points::micros(10_000),
        amount(1000),
        Resolution::Minute(10),
    );
    let short_open = Entry {
        position_id: "1".to_string(),
        direction: Direction::Sell,
        price: Points::whole(250),
        stop: Points::whole(260),
        size: amount(1),
        time: date(),
    };
    short_account.log_order(Order::Open(short_open.clone()))?;

    let expected_long = vec![Order::Close(Exit {
        position_id: "1".to_string(),
        price: Points::micros(199_500_000),
        time: date(),
    })];
    let actual_long = long_account.update_price(frame());

    assert_eq!(actual_long, expected_long);

    let expected_short = vec![Order::Close(Exit {
        position_id: "1".to_string(),
        price: Points::micros(200_500_000),
        time: date(),
    })];
    let actual_short = short_account.update_price(frame());

    assert_eq!(actual_short, expected_short);

    Ok(())
}

#[test]
fn reverses_a_positon_based_on_tred_reversal() -> Result<(), ()> {
    let mut long_account = Account::new(
        market(),
        Bearish {},
        NoRisk {},
        Points::micros(10_000),
        amount(1000),
        Resolution::Minute(10),
    );
    let long_open = Entry {
        position_id: "1".to_string(),
        direction: Direction::Buy,
        price: Points::whole(40),
        stop: Points::whole(30),
        size: amount(1),
        time: date(),
    };
    long_account.log_order(Order::Open(long_open)).map_err(|_| ())?;

    let mut short_account = Account::new(
        market(),
        Bullish {},
        NoRisk {},
        Points::micros(10_000),
        amount(1000),
        Resolution::Minute(10),
    );
    let short_open = Entry {
        position_id: "1".to_string(),
        direction: Direction::Sell,
        price: Points::whole(250),
        stop: Points::whole(260),
        size: amount(1),
        time: date(),
    };
    short_account.log_order(Order::Open(short_open)).map_err(|_| ())?;

    let expected_long = vec![
        Order::Close(Exit {
            position_id: "1".to_string(),
            price: Points::micros(199_500_000),
            time: date(),
        }),
        Order::Open(
            long_account
                .risk_strategy
                .entry(Direction::Sell, &history(), amount(10))
                .map_err(|_| ())?,
        ),
    ];
    let actual_long = long_account.update_price(frame());

    assert_eq!(actual_long, expected_long);

    let expected_short = vec![
        Order::Close(Exit {
            position_id: "1".to_string(),
            price: Points::micros(200_500_000),
            time: date(),
        }),
        Order::Open(
            short_account
                .risk_strategy
                .entry(Direction::Buy, &history(), amount(10))
                .map_err(|_| ())?,
        ),
    ];
    let actual_short = short_account.update_price(frame());

    assert_eq!(actual_short, expected_short);

    Ok(())
}

#[test]
fn account_gives_an_empty_trade_log_for_no_orders() {
    let account = account();
    let latest_price = Price { bid: Points::whole(110), ask: Points::whole(110) };

    let expected: Vec<Trade> = vec![];
    let actual = account.trade_log(latest_price);

    assert_eq!(actual, expected);
}

#[test]
fn logs_an_open_trade_for_a_single_order() -> Result<(), AccountError> {
    let mut account = account();
    let latest_price = Price { bid: Points::whole(110), ask: Points::whole(112) };

    let open = Entry {
        position_id: "1".to_string(),
        direction: Direction::Buy,
        price: Points::whole(100),
        stop: Points::whole(90),
        size: amount(1),
        time: date(),
    };
    account.log_order(Order::Open(open.clone()))?;

    let expected = vec![Trade {
        id: "1".to_string(),
        status: TradeStatus::Open,
        direction: Direction::Buy,
        entry_time: open.time,
        entry_price: open.price,
        exit_time: None,
        exit_price: None,
        stop: Points::whole(90),
        size: open.size,
        risk: amount(10),
        outcome: TradeOutcome::Profit,
        price_diff: Points::whole(10),
        profit: amount(10),
        risk_reward: Points::micros(1_000_000),
    }];
    let actual = account.trade_log(latest_price);

    assert_eq!(actual, expected);

    Ok(())
}

#[test]
fn logs_a_closed_trade_for_a_pair_of_orders() -> Result<(), AccountError> {
    let mut account = account();
    let latest_price = Price { bid: Points::whole(110), ask: Points::whole(112) };

    let open = Entry {
        position_id: "1".to_string(),
        direction: Direction::Buy,
        price: Points::whole(100),
        stop: Points::whole(90),
        size: amount(1),
        time: date(),
    };
    account.log_order(Order::Open(open.clone()))?;

    let close = Exit {
        position_id: "1".to_string(),
        price: Points::whole(150),
        time: Timestamp::new(2021, 1, 1, 14, 1, 0),
    };
    account.log_order(Order::Close(close.clone()))?;

    let expected = vec![Trade {
        id: "1".to_string(),
        status: TradeStatus::Closed,
        direction: Direction::Buy,
        entry_time: open.time,
        entry_price: Points::whole(100),
        exit_time: Some(close.time),
        exit_price: Some(close.price),
        stop: open.stop,
        size: open.size,
        risk: amount(10),
        outcome: TradeOutcome::Profit,
        price_diff: Points::whole(50),
        profit: amount(50),
        risk_reward: Points::micros(5_000_000),
    }];
    let actual = account.trade_log(latest_price);

    assert_eq!(actual, expected);

    Ok(())
}

#[test]
fn logs_three_trades_for_five_orders() -> Result<(), AccountError> {
    let mut account = account();
    let latest_price = Price { bid: Points::whole(64), ask: Points::whole(66) };

    // Closed long stop, closed short win, open long loss.
    let open_1 = Entry {
        position_id: "1".to_string(),
        direction: Direction::Buy,
        price: Points::whole(100),
        stop: Points::whole(90),
        size: amount(2),
        time: date(),
    };
    let close_1 = Exit {
        position_id: "1".to_string(),
        price: Points::whole(89), // slippage
        time: Timestamp::new(2021, 1, 1, 10, 11, 0),
    };
    let open_2 = Entry {
        position_id: "2".to_string(),
        direction: Direction::Sell,
        price: Points::whole(80),
        stop: Points::whole(85),
        size: amount(1),
        time: Timestamp::new(2021, 1, 1, 10, 21, 0),
    };
    let close_2 = Exit {
        position_id: "2".to_string(),
        price: Points::whole(60),
        time: Timestamp::new(2021, 1, 1, 10, 31, 0),
    };
    let open_3 = Entry {
        position_id: "3".to_string(),
        direction: Direction::Buy,
        price: Points::whole(70),
        stop: Points::whole(60),
        size: amount(1),
        time: Timestamp::new(2021, 1, 1, 10, 41, 0),
    };

    let expected = vec![
        Trade::closed(&open_1, &close_1),
        Trade::closed(&open_2, &close_2),
        Trade::open(&open_3, latest_price),
    ];

    account.log_order(Order::Open(open_1))?;
    account.log_order(Order::Stop(close_1))?;
    account.log_order(Order::Open(open_2))?;
    account.log_order(Order::Stop(close_2))?;
    account.log_order(Order::Open(open_3))?;

    let actual = account.trade_log(latest_price);

    assert_eq!(actual, expected);

    Ok(())
}

#[test]
fn account_does_not_allow_to_log_a_close_order_without_matching_open(
) -> Result<(), AccountError> {
    let mut account = account();

    let open_1 = Entry {
        position_id: "1".to_string(),
        direction: Direction::Buy,
        price: Points::whole(100),
        stop: Points::whole(90),
        size: amount(2),
        time: date(),
    };
    let close_1 = Exit {
        position_id: "1".to_string(),
        price: Points::whole(89), // slippage
        time: ten_past(),
    };
    account.log_order(Order::Open(open_1))?;
    account.log_order(Order::Stop(close_1))?;

    let close = Exit {
        position_id: "3".to_string(),
        price: Points::whole(89), // slippage
        time: ten_past(),
    };

    assert_eq!(
        Err(AccountError::NoMatchingEntry("3".to_string())),
        account.log_order(Order::Close(close.clone()))
    );

    assert_eq!(
        Err(AccountError::NoMatchingEntry("3".to_string())),
        account.log_order(Order::Stop(close))
    );

    Ok(())
}

#[test]
fn rejects_an_order_with_duplicate_position_id() -> Result<(), AccountError> {
    let mut account = account();

    let open_1 = Entry {
        position_id: "1".to_string(),
        direction: Direction::Buy,
        price: Points::whole(100),
        stop: Points::whole(90),
        size: amount(2),
        time: date(),
    };
    account.log_order(Order::Open(open_1.clone()))?;

    assert_eq!(
        Err(AccountError::DuplicateEntry("1".to_string())),
        account.log_order(Order::Open(open_1))
    );

    Ok(())
}

#[test]
fn rejects_orders_for_closed_positions() -> Result<(), AccountError> {
    let mut account = account();

    let open_1 = Entry {
        position_id: "1".to_string(),
        direction: Direction::Buy,
        price: Points::whole(100),
        stop: Points::whole(90),
        size: amount(2),
        time: date(),
    };
    let close_1 = Exit {
        position_id: "1".to_string(),
        price: Points::whole(89), // slippage
        time: ten_past(),
    };
    account.log_order(Order::Open(open_1))?;
    account.log_order(Order::Close(close_1.clone()))?;

    let open_2 = Entry {
        position_id: "2".to_string(),
        direction: Direction::Buy,
        price: Points::whole(100),
        stop: Points::whole(90),
        size: amount(2),
        time: date(),
    };
    let close_2 = Exit {
        position_id: "2".to_string(),
        price: Points::whole(89), // slippage
        time: ten_past(),
    };
    account.log_order(Order::Open(open_2))?;
    account.log_order(Order::Stop(close_2.clone()))?;

    assert_eq!(
        Err(AccountError::PositionAlreadyClosed("1".to_string())),
        account.log_order(Order::Close(close_1.clone()))
    );
    assert_eq!(
        Err(AccountError::PositionAlreadyClosed("1".to_string())),
        account.log_order(Order::Stop(close_1))
    );
    assert_eq!(
        Err(AccountError::PositionAlreadyClosed("2".to_string())),
        account.log_order(Order::Close(close_2.clone()))
    );
    assert_eq!(
        Err(AccountError::PositionAlreadyClosed("2".to_string())),
        account.log_order(Order::Close(close_2))
    );

    Ok(())
}

#[test]
fn trade_log_sorts_by_entry_time() -> Result<(), AccountError> {
    let mut account = account();
    let latest_price = Price { bid: Points::whole(110), ask: Points::whole(112) };

    // Logged later but entered earlier: the log must reorder.
    let open_late = Entry {
        position_id: "1".to_string(),
        direction: Direction::Buy,
        price: Points::whole(100),
        stop: Points::whole(90),
        size: amount(1),
        time: Timestamp::new(2021, 1, 1, 12, 0, 0),
    };
    let close_late = Exit {
        position_id: "1".to_string(),
        price: Points::whole(110),
        time: Timestamp::new(2021, 1, 1, 12, 30, 0),
    };
    let open_early = Entry {
        position_id: "2".to_string(),
        direction: Direction::Buy,
        price: Points::whole(100),
        stop: Points::whole(90),
        size: amount(1),
        time: Timestamp::new(2021, 1, 1, 9, 0, 0),
    };
    let close_early = Exit {
        position_id: "2".to_string(),
        price: Points::whole(120),
        time: Timestamp::new(2021, 1, 1, 9, 30, 0),
    };
    account.log_order(Order::Open(open_late))?;
    account.log_order(Order::Close(close_late))?;
    account.log_order(Order::Open(open_early))?;
    account.log_order(Order::Close(close_early))?;

    let log = account.trade_log(latest_price);
    assert_eq!(log.len(), 2);
    assert_eq!(log[0].id, "2".to_string());
    assert_eq!(log[1].id, "1".to_string());
    assert!(log[0].entry_time.key() <= log[1].entry_time.key());

    Ok(())
}

#[test]
fn stop_fills_at_the_frame_close() -> Result<(), AccountError> {
    // A live long position with stop 90; the next frame trades down to 50
    // but closes at 199.5: exactly one stop order, filled at the close.
    let mut account = account();
    let open = Entry {
        position_id: "1".to_string(),
        direction: Direction::Buy,
        price: Points::whole(100),
        stop: Points::whole(90),
        size: amount(1),
        time: date(),
    };
    account.log_order(Order::Open(open))?;

    let frame = Frame {
        open: Price { bid: Points::whole(100), ask: Points::whole(100) },
        close: Price { bid: Points::micros(199_500_000), ask: Points::whole(200) },
        low: Price { bid: Points::whole(50), ask: Points::whole(50) },
        high: Price { bid: Points::whole(150), ask: Points::whole(150) },
        close_time: ten_past(),
    };
    let orders = account.update_price(frame);

    let expected = vec![Order::Stop(Exit {
        position_id: "1".to_string(),
        price: Points::micros(199_500_000),
        time: ten_past(),
    })];
    assert_eq!(orders, expected);

    Ok(())
}

#[test]
fn triggers_a_stop_on_a_short_position() -> Result<(), AccountError> {
    let mut account = account();

    let open = Entry {
        position_id: "1".to_string(),
        direction: Direction::Sell,
        price: Points::whole(100),
        stop: Points::whole(110),
        size: amount(1),
        time: date(),
    };
    account.log_order(Order::Open(open))?;

    let price = Frame { close_time: ten_past(), ..frame() };

    // The frame's high ask of 150.5 trades through the stop at 110; the
    // short position buys back at the frame's closing ask.
    let actual = account.update_price(price);
    let expected = vec![Order::Stop(Exit {
        position_id: "1".to_string(),
        price: Points::micros(200_500_000),
        time: ten_past(),
    })];

    Ok(assert_eq!(actual, expected))
}
