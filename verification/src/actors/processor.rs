//! The compute stage: from a price history to its indicators.

use crate::messages::{Indicators, Quote};
use crate::signals::{
    difference_base, is_maximum, is_minimum, window_sum, MaxPrice, MinPrice, PriceDifference,
    Ratio, WindowedSMA,
};
use vstd::prelude::*;

verus! {

/// The window of the moving average that the compute stage reports.
pub const SMA_WINDOW: usize = 30;

/// The moving average that is reported for a series: the mean of its last
/// `SMA_WINDOW` prices, or zero where it holds fewer.
pub open spec fn last_moving_average(s: Seq<i64>) -> Ratio {
    if s.len() < SMA_WINDOW {
        Ratio { num: 0, den: 1 }
    } else {
        Ratio {
            num: window_sum(s, s.len() - SMA_WINDOW, SMA_WINDOW as nat) as i128,
            den: SMA_WINDOW as i128,
        }
    }
}

/// The compute stage.
pub struct Processor;

impl Processor {
    /// The indicators of a price history. An empty history is discarded:
    /// `None`. Any other gives its last price, its lowest and highest price,
    /// the difference from its first price to its last over the first
    /// price, or over one currency unit where the first price is zero, and
    /// the last mean of the moving average.
    pub fn handle(&self, msg: &Quote) -> (r: Option<Indicators>)
        ensures
            r is None <==> msg.series@.len() == 0,
            r matches Some(found) ==> {
                &&& found.symbol == msg.symbol
                &&& found.from == msg.from
                &&& found.last_price == msg.series@.last()
                &&& is_minimum(msg.series@, found.period_min)
                &&& is_maximum(msg.series@, found.period_max)
                &&& found.pct_change.num == msg.series@.last() - msg.series@.first()
                &&& found.pct_change.den == difference_base(msg.series@.first())
                &&& found.moving_average == last_moving_average(msg.series@)
            },
    {
        let series: &[i64] = msg.series.as_slice();
        let len: usize = series.len();
        if len == 0 {
            return None;
        }
        let period_max: i64 = match (MaxPrice {}).calculate(series) {
            Some(m) => m,
            None => series[0],
        };
        let period_min: i64 = match (MinPrice {}).calculate(series) {
            Some(m) => m,
            None => series[0],
        };
        let last_price: i64 = series[len - 1];
        let pct_change: Ratio = match (PriceDifference {}).calculate(series) {
            Some((_, rel_diff)) => rel_diff,
            None => Ratio::zero(),
        };
        let moving_average: Ratio = match (WindowedSMA { window_size: SMA_WINDOW }).calculate(
            series,
        ) {
            Some(means) => if means.len() > 0 {
                means[means.len() - 1]
            } else {
                Ratio::zero()
            },
            None => Ratio::zero(),
        };
        Some(
            Indicators {
                symbol: msg.symbol.clone(),
                from: msg.from,
                last_price,
                pct_change,
                period_min,
                period_max,
                moving_average,
            },
        )
    }
}

} // verus!
