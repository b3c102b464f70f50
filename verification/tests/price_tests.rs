use betty::points::Points;
use betty::price::{Currency, CurrencyAmount, Price};

fn gbp() -> Currency {
    Currency { code: 826 }
}

fn eur() -> Currency {
    Currency { code: 978 }
}

#[test]
fn mid_price_is_the_average_of_the_sides() {
    let p = Price { bid: Points::whole(99), ask: Points::whole(101) };
    assert_eq!(p.mid_price(), Points::whole(100));
    assert_eq!(p.spread(), Points::whole(2));
}

#[test]
fn price_difference_compares_mid_prices() {
    let a = Price { bid: Points::whole(99), ask: Points::whole(101) };
    let b = Price { bid: Points::whole(89), ask: Points::whole(91) };
    assert_eq!(a.minus(b), Points::whole(10));
}

#[test]
fn amounts_of_one_currency_divide_into_a_ratio() {
    let profit = CurrencyAmount::new(Points::whole(50), gbp());
    let risk = CurrencyAmount::new(Points::whole(10), gbp());
    assert_eq!(profit.ratio(risk), Some(Points::whole(5)));
}

#[test]
fn amounts_of_different_currencies_do_not_divide() {
    let profit = CurrencyAmount::new(Points::whole(50), gbp());
    let risk = CurrencyAmount::new(Points::whole(10), eur());
    assert_eq!(profit.ratio(risk), None);
}

#[test]
fn a_zero_divisor_gives_no_ratio() {
    let profit = CurrencyAmount::new(Points::whole(50), gbp());
    let risk = CurrencyAmount::new(Points::zero(), gbp());
    assert_eq!(profit.ratio(risk), None);
}

#[test]
fn scaling_rounds_to_six_decimal_places() {
    // A third of a pound per point, scaled by a third of a point.
    let third = CurrencyAmount::new(Points::micros(333_333), gbp());
    let scaled = third.times(Points::micros(333_333));
    assert_eq!(scaled.amount, Points::micros(111_111));
}
