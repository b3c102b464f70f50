use betty::account::{Account, AccountError};
use betty::market::Market;
use betty::points::Points;
use betty::price::{Currency, CurrencyAmount, Price};
use betty::strategies::constant::Neutral;
use betty::strategies::donchian::Donchian;
use betty::time::{Resolution, Timestamp};
use betty::trade::{Direction, Entry, Exit, Order, Trade};

fn gbp() -> Currency {
    Currency { code: 826 }
}

fn amount(v: i64) -> CurrencyAmount {
    CurrencyAmount::new(Points::whole(v), gbp())
}

fn market() -> Market {
    Market {
        code: "UKX".to_string(),
        min_deal_size: CurrencyAmount::new(Points::micros(500_000), gbp()),
        min_stop_distance: Points::whole(8),
        margin_factor: Points::micros(500_000),
    }
}

fn date() -> Timestamp {
    Timestamp::new(2021, 1, 1, 10, 1, 0)
}

fn ten_past() -> Timestamp {
    Timestamp::new(2021, 1, 1, 10, 11, 0)
}

fn account() -> Account<Neutral, Donchian> {
    Account::new(
        market(),
        Neutral {},
        Donchian { channel_length: 1 },
        Points::micros(10_000),
        amount(1000),
        Resolution::Minute(10),
    )
}

#[test]
fn mod_gives_an_empty_trade_log_for_no_orders() {
    let account = account();
    let latest_price = Price { bid: Points::whole(110), ask: Points::whole(110) };

    let expected: Vec<Trade> = vec![];
    let actual = account.trade_log(latest_price);

    assert_eq!(actual, expected);
}

#[test]
fn mod_does_not_allow_to_log_a_close_order_without_matching_open() -> Result<(), AccountError> {
    let mut account = account();

    let open_1 = Entry {
        position_id: "1".to_string(),
        direction: Direction::Buy,
        price: Points::whole(100),
        stop: Points::whole(90),
        size: amount(2),
        time: date(),
    };
    let close_1 = Exit {
        position_id: "1".to_string(),
        price: Points::whole(89), // slippage
        time: ten_past(),
    };
    account.log_order(Order::Open(open_1))?;
    account.log_order(Order::Stop(close_1))?;

    let close = Exit {
        position_id: "3".to_string(),
        price: Points::whole(89), // slippage
        time: ten_past(),
    };

    assert_eq!(
        Err(AccountError::NoMatchingEntry("3".to_string())),
        account.log_order(Order::Close(close.clone()))
    );

    assert_eq!(
        Err(AccountError::NoMatchingEntry("3".to_string())),
        account.log_order(Order::Stop(close))
    );

    Ok(())
}

#[test]
fn mod_rejects_orders_for_closed_positions() -> Result<(), AccountError> {
    let mut account = account();

    let open_1 = Entry {
        position_id: "1".to_string(),
        direction: Direction::Buy,
        price: Points::whole(100),
        stop: Points::whole(90),
        size: amount(2),
        time: date(),
    };
    let close_1 = Exit {
        position_id: "1".to_string(),
        price: Points::whole(89), // slippage
        time: ten_past(),
    };
    account.log_order(Order::Open(open_1))?;
    account.log_order(Order::Close(close_1.clone()))?;

    let open_2 = Entry {
        position_id: "2".to_string(),
        direction: Direction::Buy,
        price: Points::whole(100),
        stop: Points::whole(90),
        size: amount(2),
        time: date(),
    };
    let close_2 = Exit {
        position_id: "2".to_string(),
        price: Points::whole(89), // slippage
        time: ten_past(),
    };
    account.log_order(Order::Open(open_2))?;
    account.log_order(Order::Stop(close_2.clone()))?;

    assert_eq!(
        Err(AccountError::PositionAlreadyClosed("1".to_string())),
        account.log_order(Order::Close(close_1.clone()))
    );
    assert_eq!(
        Err(AccountError::PositionAlreadyClosed("1".to_string())),
        account.log_order(Order::Stop(close_1))
    );
    assert_eq!(
        Err(AccountError::PositionAlreadyClosed("2".to_string())),
        account.log_order(Order::Close(close_2.clone()))
    );
    assert_eq!(
        Err(AccountError::PositionAlreadyClosed("2".to_string())),
        account.log_order(Order::Close(close_2))
    );

    Ok(())
}
