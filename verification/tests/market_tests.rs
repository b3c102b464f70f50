use betty::market::{Market, MarketError};
use betty::points::Points;
use betty::price::{Currency, CurrencyAmount};
use betty::time::Timestamp;
use betty::trade::{Direction, Entry};

fn gbp() -> Currency {
    Currency { code: 826 }
}

fn market() -> Market {
    Market {
        code: "GDAXI".to_string(),
        margin_factor: Points::micros(50_000), // 5%
        min_deal_size: CurrencyAmount::new(Points::micros(500_000), gbp()),
        min_stop_distance: Points::whole(12),
    }
}

fn date() -> Timestamp {
    Timestamp::new(2021, 1, 1, 10, 1, 0)
}

fn entry_with(balance: CurrencyAmount, risk_per_trade: Points, stop_distance: Points) -> Entry {
    let price = Points::whole(15000);
    Entry {
        position_id: String::new(),
        direction: Direction::Buy,
        price,
        stop: price.minus(stop_distance),
        size: balance.times(risk_per_trade).over_points(stop_distance),
        time: date(),
    }
}

#[test]
fn validates_an_ok_trade() {
    let market = market();
    let balance = CurrencyAmount::new(Points::whole(1000), gbp());
    let entry = entry_with(balance, Points::micros(10_000), Points::whole(15));

    let expected = Ok(());
    let actual = market.validate_entry(&entry, balance);

    assert_eq!(actual, expected);
}

#[test]
fn rejects_entry_below_minimum_deal_size() {
    let market = market();
    let balance = CurrencyAmount::new(Points::whole(1000), gbp());
    // 10 GBP of risk over 21 points sizes the deal at 0.48 GBP per point.
    let entry = entry_with(balance, Points::micros(10_000), Points::whole(21));

    let expected = Err(MarketError::DealTooSmall);
    let actual = market.validate_entry(&entry, balance);

    assert_eq!(actual, expected);
}

#[test]
fn rejects_entry_with_stop_too_close() {
    let market = market();
    let balance = CurrencyAmount::new(Points::whole(1000), gbp());
    // 10 GBP of risk over 10 points: one GBP per point, margin 750.
    let entry = entry_with(balance, Points::micros(10_000), Points::whole(10));

    let expected = Err(MarketError::StopTooClose);
    let actual = market.validate_entry(&entry, balance);

    assert_eq!(actual, expected);
}

#[test]
fn rejects_entry_with_insufficient_margin() {
    let market = market();
    let balance = CurrencyAmount::new(Points::whole(1000), gbp());
    // 28 GBP of risk over 20 points: 1.4 GBP per point, margin 1050.
    let entry = entry_with(balance, Points::micros(28_000), Points::whole(20));

    let expected = Err(MarketError::InsufficientBalance);
    let actual = market.validate_entry(&entry, balance);

    assert_eq!(actual, expected);
}
