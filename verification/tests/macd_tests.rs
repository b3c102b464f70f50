use betty::points::Points;
use betty::price::{Frame, Price, PriceHistory};
use betty::strategies::macd::MACD;
use betty::strategy::{TradingStrategy, Trend};
use betty::time::{Resolution, Timestamp};

fn flat_frame(mid: i64, minute: u8) -> Frame {
    let p = Price::new_mid(Points::whole(mid), Points::whole(0));
    Frame {
        open: p,
        close: p,
        high: p,
        low: p,
        close_time: Timestamp::new(2021, 1, 1, 12, minute, 0),
    }
}

#[test]
fn macd_calculates_samples_needed() {
    let actual = MACD::samples_needed(40, Points::micros(100_000));
    let expected = 47;

    assert_eq!(actual, expected);
}

#[test]
fn macd_values_track_the_moving_averages() {
    // With a one-sample short window the short EMA is the raw series; with
    // a one-sample signal window the signal line is the MACD line itself.
    let m = MACD {
        short: 1,
        long: 3,
        signal: 1,
        entry_lim: Points::whole(10),
        exit_lim: Points::whole(10),
    };
    let frames = vec![flat_frame(100, 1), flat_frame(100, 2), flat_frame(200, 3)];
    let values = m.macd(&frames);

    assert_eq!(values.len(), 3);
    assert_eq!(values[2].short_ema, Points::whole(200));
    // Long EMA with weight 1/2: halfway between 100 and 200.
    assert_eq!(values[2].long_ema, Points::whole(150));
    assert_eq!(values[2].macd, Points::whole(50));
    assert_eq!(values[2].macd_signal, Points::whole(50));
    assert_eq!(values[2].macd_trend, Points::whole(0));
    assert_eq!(values[0].trend, Trend::Neutral);
    assert_eq!(values[2].trend, Trend::Bullish);
}

#[test]
fn macd_turns_bullish_after_a_jump() {
    // Seven frames of history are enough for windows of at most three
    // samples; a jump in the last close pushes the MACD line over the
    // entry threshold.
    let m = MACD {
        short: 1,
        long: 3,
        signal: 1,
        entry_lim: Points::whole(10),
        exit_lim: Points::whole(10),
    };
    let mut frames: Vec<Frame> = Vec::new();
    for i in 0..6 {
        frames.push(flat_frame(100, i + 1));
    }
    frames.push(flat_frame(200, 7));
    frames.reverse(); // newest first
    let history = PriceHistory { resolution: Resolution::Minute(1), history: frames };

    assert_eq!(m.trend(&history), Trend::Bullish);
}

#[test]
fn macd_stays_neutral_without_enough_history() {
    let m = MACD {
        short: 1,
        long: 3,
        signal: 1,
        entry_lim: Points::whole(10),
        exit_lim: Points::whole(10),
    };
    // samples_needed(3, 0.1) + 1 frames are required; two are not enough.
    let history = PriceHistory {
        resolution: Resolution::Minute(1),
        history: vec![flat_frame(200, 2), flat_frame(100, 1)],
    };

    assert_eq!(m.trend(&history), Trend::Neutral);
}

#[test]
fn macd_stays_neutral_on_a_flat_market() {
    let m = MACD {
        short: 1,
        long: 3,
        signal: 1,
        entry_lim: Points::whole(10),
        exit_lim: Points::whole(10),
    };
    let mut frames: Vec<Frame> = Vec::new();
    for i in 0..10 {
        frames.push(flat_frame(100, i + 1));
    }
    frames.reverse();
    let history = PriceHistory { resolution: Resolution::Minute(1), history: frames };

    assert_eq!(m.trend(&history), Trend::Neutral);
}
