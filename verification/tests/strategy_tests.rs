use betty::points::Points;
use betty::price::{Currency, CurrencyAmount, Frame, Price, PriceHistory};
use betty::strategies::constant::ConstStop;
use betty::strategies::donchian::Donchian;
use betty::strategy::{RiskStrategy, RiskStrategyError};
use betty::time::{Resolution, Timestamp};
use betty::trade::{Direction, Entry};

fn gbp() -> Currency {
    Currency { code: 826 }
}

// History that jumps between two price levels.
fn oscilating_history(
    min_level: i64,
    max_level: i64,
    spread: i64,
    start_time: Timestamp,
    resolution: Resolution,
    length: usize,
) -> PriceHistory {
    let max = Price::new_mid(Points::whole(max_level), Points::whole(spread));
    let min = Price::new_mid(Points::whole(min_level), Points::whole(spread));
    let high = Price::new_mid(Points::whole(max_level - 100), Points::whole(spread));
    let low = Price::new_mid(Points::whole(min_level + 100), Points::whole(spread));

    let mut history: Vec<Frame> = Vec::new();
    let mut time = start_time;
    for i in 0..length {
        time = time.add_resolution(resolution);
        let frame = if i % 2 == 0 {
            Frame { open: high, close: low, high: max, low: min, close_time: time }
        } else {
            Frame { open: low, close: high, high: max, low: min, close_time: time }
        };
        history.push(frame);
    }
    history.reverse();

    PriceHistory { resolution, history }
}

#[test]
fn calculates_exp_average() {}

#[test]
fn calculates_entry() {
    let risk = CurrencyAmount::new(Points::micros(10_100_000), gbp());
    let rs_buy = ConstStop { stop: Points::whole(600) };
    let rs_sell = ConstStop { stop: Points::whole(800) };

    let history = PriceHistory {
        resolution: Resolution::Minute(10),
        history: vec![Frame {
            open: Price::new_mid(Points::whole(100), Points::whole(2)),
            close: Price::new_mid(Points::whole(700), Points::whole(2)), // only close matters
            high: Price::new_mid(Points::whole(200), Points::whole(2)),
            low: Price::new_mid(Points::whole(300), Points::whole(2)),
            close_time: Timestamp::new(2021, 1, 1, 12, 30, 0),
        }],
    };

    let expected_buy = Ok(Entry {
        position_id: String::new(),
        direction: Direction::Buy,
        price: Points::whole(701),
        stop: Points::whole(600),
        size: CurrencyAmount::new(Points::micros(100_000), gbp()),
        time: Timestamp::new(2021, 1, 1, 12, 30, 0),
    });
    let expected_sell = Ok(Entry {
        position_id: String::new(),
        direction: Direction::Sell,
        price: Points::whole(699),
        stop: Points::whole(800),
        size: CurrencyAmount::new(Points::micros(100_000), gbp()),
        time: Timestamp::new(2021, 1, 1, 12, 30, 0),
    });

    assert_eq!(rs_buy.entry(Direction::Buy, &history, risk), expected_buy);
    assert_eq!(rs_sell.entry(Direction::Sell, &history, risk), expected_sell);
}

#[test]
fn strategy_rejects_entry_without_enough_history() {
    let balance = CurrencyAmount::new(Points::whole(1020), gbp());
    let rs = Donchian { channel_length: 4 };
    let history = oscilating_history(
        600,
        1000,
        2,
        Timestamp::new(2021, 1, 1, 12, 0, 0),
        Resolution::Minute(10),
        3,
    );

    assert_eq!(
        rs.entry(Direction::Buy, &history, balance),
        Err(RiskStrategyError::NotEnoughHistory)
    );
}

#[test]
fn calculates_entry_with_stable_history() {
    let risk = CurrencyAmount::new(Points::micros(10_200_000), gbp());
    let rs = Donchian { channel_length: 2 };
    let history = oscilating_history(
        600,
        1000,
        2,
        Timestamp::new(2021, 1, 1, 12, 0, 0),
        Resolution::Minute(10),
        3,
    );

    let expected_buy = Ok(Entry {
        position_id: String::new(),
        direction: Direction::Buy,
        price: Points::whole(701),
        stop: Points::whole(599),
        size: CurrencyAmount::new(Points::micros(100_000), gbp()),
        time: Timestamp::new(2021, 1, 1, 12, 30, 0),
    });
    let expected_sell = Ok(Entry {
        position_id: String::new(),
        direction: Direction::Sell,
        price: Points::whole(699),
        stop: Points::whole(1001),
        size: CurrencyAmount::new(Points::micros(33_775), gbp()),
        time: Timestamp::new(2021, 1, 1, 12, 30, 0),
    });

    assert_eq!(rs.entry(Direction::Buy, &history, risk), expected_buy);
    assert_eq!(rs.entry(Direction::Sell, &history, risk), expected_sell);
}

#[test]
fn strategy_sets_stop_based_on_recent_history() {
    let risk = CurrencyAmount::new(Points::whole(10), gbp());
    let short_rs = Donchian { channel_length: 2 };

    let long_rs = Donchian { channel_length: 8 };

    let mut h = oscilating_history(
        600,
        1000,
        2,
        Timestamp::new(2021, 1, 1, 12, 50, 0),
        Resolution::Minute(10),
        5,
    )
    .history;
    let mut h2 = oscilating_history(
        200,
        2000,
        2,
        Timestamp::new(2021, 1, 1, 12, 0, 0),
        Resolution::Minute(10),
        5,
    )
    .history;
    h.append(&mut h2);

    let history = PriceHistory { resolution: Resolution::Minute(10), history: h };

    let short_expected_buy = Ok(Entry {
        position_id: String::new(),
        direction: Direction::Buy,
        price: Points::whole(701),
        stop: Points::whole(599),
        size: CurrencyAmount::new(Points::micros(98_039), gbp()),
        time: Timestamp::new(2021, 1, 1, 13, 40, 0),
    });
    let short_expected_sell = Ok(Entry {
        position_id: String::new(),
        direction: Direction::Sell,
        price: Points::whole(699),
        stop: Points::whole(1001),
        size: CurrencyAmount::new(Points::micros(33_113), gbp()),
        time: Timestamp::new(2021, 1, 1, 13, 40, 0),
    });

    let long_expected_buy = Ok(Entry {
        position_id: String::new(),
        direction: Direction::Buy,
        price: Points::whole(701),
        stop: Points::whole(199),
        size: CurrencyAmount::new(Points::micros(19_920), gbp()),
        time: Timestamp::new(2021, 1, 1, 13, 40, 0),
    });
    let long_expected_sell = Ok(Entry {
        position_id: String::new(),
        direction: Direction::Sell,
        price: Points::whole(699),
        stop: Points::whole(2001),
        size: CurrencyAmount::new(Points::micros(7_680), gbp()),
        time: Timestamp::new(2021, 1, 1, 13, 40, 0),
    });

    assert_eq!(short_rs.entry(Direction::Buy, &history, risk), short_expected_buy);
    assert_eq!(short_rs.entry(Direction::Sell, &history, risk), short_expected_sell);

    assert_eq!(long_rs.entry(Direction::Buy, &history, risk), long_expected_buy);
    assert_eq!(long_rs.entry(Direction::Sell, &history, risk), long_expected_sell);
}
