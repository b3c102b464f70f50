use betty::maths::ema_series;
use betty::points::Points;

#[test]
fn empty_value_ema() {
    let values: Vec<Points> = vec![];
    let actual = ema_series(&values, 40);
    let expected: Vec<Points> = vec![];

    assert_eq!(actual, expected);
}

#[test]
fn single_value_ema() {
    let values = vec![Points::whole(5)];
    let actual = ema_series(&values, 40);
    let expected = vec![Points::whole(5)];

    assert_eq!(actual, expected);
}

#[test]
fn ema_of_a_constant() {
    let values = vec![Points::whole(3); 50];
    let actual = ema_series(&values, 40);
    let expected = values.clone();

    assert_eq!(actual, expected);
}

#[test]
fn ema_of_a_constant_fraction() {
    let values = vec![Points::micros(2_500_000); 10];
    let actual = ema_series(&values, 7);
    let expected = values.clone();

    assert_eq!(actual, expected);
}

#[test]
fn ema_of_a_step_change() {
    let mut values = vec![Points::whole(0); 3];
    values.extend(vec![Points::whole(5); 87]);

    let actual_short = ema_series(&values, 20);
    let actual_long = ema_series(&values, 40);

    // The EMA converges to 5.0.
    assert!(Points::whole(5).m - actual_short.last().unwrap().m < Points::micros(1_000).m);
    // The shorter window converges to 5.0 faster.
    assert!(actual_short
        .iter()
        .zip(actual_long.iter())
        .all(|(s, l)| s.m >= l.m));
}

#[test]
fn ema_of_a_step_change_is_monotone() {
    let mut values = vec![Points::whole(0); 3];
    values.extend(vec![Points::whole(5); 20]);

    let out = ema_series(&values, 5);
    for w in out.windows(2) {
        assert!(w[0].m <= w[1].m);
        assert!(w[1].m <= Points::whole(5).m);
    }
}
