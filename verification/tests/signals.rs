#![allow(non_snake_case)]

use stock_tracker::signals::{
    MaxPrice, MinPrice, PriceDifference, Ratio, WindowedSMA, HUNDREDTHS_PER_UNIT,
};

/// A price in currency units as a count of hundredths.
fn hundredths(series: &[f64]) -> Vec<i64> {
    series.iter().map(|p| (p * 100.0).round() as i64).collect()
}

/// A count of hundredths as a price in currency units.
fn units(price: i64) -> f64 {
    price as f64 / 100.0
}

fn value(r: Ratio) -> f64 {
    r.num as f64 / r.den as f64
}

/// The means in currency units: each sum in units over the count.
fn means(series: &[f64], window_size: usize) -> Option<Vec<f64>> {
    WindowedSMA { window_size }
        .calculate(&hundredths(series))
        .map(|m| m.into_iter().map(|r| r.num as f64 / 100.0 / r.den as f64).collect())
}

fn difference(series: &[f64]) -> Option<(f64, f64)> {
    PriceDifference {}
        .calculate(&hundredths(series))
        .map(|(abs_diff, rel_diff)| (abs_diff as f64 / 100.0, value(rel_diff)))
}

fn minimum(series: &[f64]) -> Option<f64> {
    MinPrice {}.calculate(&hundredths(series)).map(units)
}

fn maximum(series: &[f64]) -> Option<f64> {
    MaxPrice {}.calculate(&hundredths(series)).map(units)
}

#[test]
fn test_PriceDifference_calculate() {
    assert_eq!(difference(&[]), None);
    assert_eq!(difference(&[1.0]), Some((0.0, 0.0)));
    assert_eq!(difference(&[1.0, 0.0]), Some((-1.0, -1.0)));
    assert_eq!(difference(&[2.0, 3.0, 5.0, 6.0, 1.0, 2.0, 10.0]), Some((8.0, 4.0)));
    assert_eq!(difference(&[0.0, 3.0, 5.0, 6.0, 1.0, 2.0, 1.0]), Some((1.0, 1.0)));
}

#[test]
fn test_MinPrice_calculate() {
    assert_eq!(minimum(&[]), None);
    assert_eq!(minimum(&[1.0]), Some(1.0));
    assert_eq!(minimum(&[1.0, 0.0]), Some(0.0));
    assert_eq!(minimum(&[2.0, 3.0, 5.0, 6.0, 1.0, 2.0, 10.0]), Some(1.0));
    assert_eq!(minimum(&[0.0, 3.0, 5.0, 6.0, 1.0, 2.0, 1.0]), Some(0.0));
}

#[test]
fn test_MaxPrice_calculate() {
    assert_eq!(maximum(&[]), None);
    assert_eq!(maximum(&[1.0]), Some(1.0));
    assert_eq!(maximum(&[1.0, 0.0]), Some(1.0));
    assert_eq!(maximum(&[2.0, 3.0, 5.0, 6.0, 1.0, 2.0, 10.0]), Some(10.0));
    assert_eq!(maximum(&[0.0, 3.0, 5.0, 6.0, 1.0, 2.0, 1.0]), Some(6.0));
}

#[test]
fn test_WindowedSMA_calculate() {
    let series = vec![2.0, 4.5, 5.3, 6.5, 4.7];

    assert_eq!(means(&series, 3), Some(vec![3.9333333333333336, 5.433333333333334, 5.5]));

    assert_eq!(means(&series, 5), Some(vec![4.6]));

    assert_eq!(means(&series, 10), Some(vec![]));
}

#[test]
fn prices_in_currency_units_are_counts_of_hundredths() {
    assert_eq!(HUNDREDTHS_PER_UNIT, 100);
    assert_eq!(hundredths(&[2.0, 4.5, 5.3, 6.5, 4.7, 0.0, -1.25]), vec![200, 450, 530, 650, 470, 0, -125]);
}

#[test]
fn price_difference_is_exact() {
    let signal = PriceDifference {};
    assert_eq!(signal.calculate(&[]), None);
    assert_eq!(
        signal.calculate(&[200, 300, 500, 600, 100, 200, 1000]),
        Some((800, Ratio { num: 800, den: 200 }))
    );
    assert_eq!(signal.calculate(&[-400, 600]), Some((1000, Ratio { num: 1000, den: -400 })));
    assert_eq!(signal.calculate(&[1, 3]), Some((2, Ratio { num: 2, den: 1 })));
}

#[test]
fn price_difference_divides_by_one_unit_where_the_first_price_is_zero() {
    let signal = PriceDifference {};
    assert_eq!(
        signal.calculate(&[0, 300, 500, 600, 100, 200, 100]),
        Some((100, Ratio { num: 100, den: 100 }))
    );
    assert_eq!(signal.calculate(&[0, 100]), Some((100, Ratio { num: 100, den: 100 })));
    assert_eq!(signal.calculate(&[0, 1]), Some((1, Ratio { num: 1, den: 100 })));
    assert_eq!(signal.calculate(&[0, -250]), Some((-250, Ratio { num: -250, den: 100 })));
    assert_eq!(signal.calculate(&[0]), Some((0, Ratio { num: 0, den: 100 })));
    assert_eq!(difference(&[0.0, 1.0]), Some((1.0, 1.0)));
    assert_eq!(difference(&[0.0, 0.01]), Some((0.01, 0.01)));
    assert_eq!(difference(&[0.0, -2.5]), Some((-2.5, -2.5)));
}

#[test]
fn price_difference_of_one_price_is_zero() {
    let signal = PriceDifference {};
    for x in [i64::MIN, -7, 0, 1, 250, i64::MAX] {
        let (abs_diff, rel_diff) = signal.calculate(&[x]).unwrap();
        assert_eq!(abs_diff, 0);
        assert_eq!(rel_diff.num, 0);
        assert_eq!(rel_diff.den, if x == 0 { 100 } else { x as i128 });
    }
}

#[test]
fn price_difference_spans_the_whole_range() {
    let signal = PriceDifference {};
    let (abs_diff, rel_diff) = signal.calculate(&[i64::MIN, 5, i64::MAX]).unwrap();
    assert_eq!(abs_diff, i64::MAX as i128 - i64::MIN as i128);
    assert_eq!(rel_diff, Ratio { num: abs_diff, den: i64::MIN as i128 });
}

#[test]
fn minimum_and_maximum_enclose_every_price() {
    let series: Vec<i64> = vec![17, -3, 44, 0, 44, -3, 9, i64::MAX, i64::MIN];
    let lo = MinPrice {}.calculate(&series).unwrap();
    let hi = MaxPrice {}.calculate(&series).unwrap();
    assert_eq!(lo, i64::MIN);
    assert_eq!(hi, i64::MAX);
    for p in &series {
        assert!(lo <= *p && *p <= hi);
    }
    assert!(series.contains(&lo));
    assert!(series.contains(&hi));
}

#[test]
fn windowed_sma_gives_exact_sums() {
    let series = vec![200, 450, 530, 650, 470];
    assert_eq!(
        WindowedSMA { window_size: 3 }.calculate(&series),
        Some(vec![
            Ratio { num: 1180, den: 3 },
            Ratio { num: 1630, den: 3 },
            Ratio { num: 1650, den: 3 },
        ])
    );
    assert_eq!(
        WindowedSMA { window_size: 5 }.calculate(&series),
        Some(vec![Ratio { num: 2300, den: 5 }])
    );
    assert_eq!(
        WindowedSMA { window_size: 2 }.calculate(&[-5, 5, 7]),
        Some(vec![Ratio { num: 0, den: 2 }, Ratio { num: 12, den: 2 }])
    );
}

#[test]
fn windowed_sma_is_undefined_for_small_windows_and_empty_series() {
    assert_eq!(WindowedSMA { window_size: 0 }.calculate(&[1, 2, 3]), None);
    assert_eq!(WindowedSMA { window_size: 1 }.calculate(&[1, 2, 3]), None);
    assert_eq!(WindowedSMA { window_size: 3 }.calculate(&[]), None);
    assert_eq!(WindowedSMA { window_size: 4 }.calculate(&[1, 2, 3]), Some(vec![]));
    assert_eq!(
        WindowedSMA { window_size: 3 }.calculate(&[1, 2, 3]),
        Some(vec![Ratio { num: 6, den: 3 }])
    );
}

#[test]
fn windowed_sma_does_not_overflow_on_extreme_prices() {
    let series = vec![i64::MAX, i64::MAX, i64::MIN, i64::MIN];
    assert_eq!(
        WindowedSMA { window_size: 2 }.calculate(&series),
        Some(vec![
            Ratio { num: 2 * (i64::MAX as i128), den: 2 },
            Ratio { num: -1, den: 2 },
            Ratio { num: 2 * (i64::MIN as i128), den: 2 },
        ])
    );
}

#[test]
fn ratio_zero_is_zero_over_one() {
    assert_eq!(Ratio::zero(), Ratio { num: 0, den: 1 });
}
