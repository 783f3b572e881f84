//! The messages that pass between the stages of the pipeline.
//!
//! A moment in time is a count of milliseconds since the Unix epoch, and a
//! price a count of hundredths of the currency unit.

use crate::signals::Ratio;
use vstd::prelude::*;

verus! {

/// A request to retrieve the price history of each symbol from `from` to `to`.
#[derive(Clone, Debug)]
pub struct FetchQuotes {
    pub symbols: Vec<String>,
    pub from: i64,
    pub to: i64,
}

/// The price history of one symbol from `from` to `to`, oldest price first.
#[derive(Clone, Debug)]
pub struct Quote {
    pub symbol: String,
    pub from: i64,
    pub to: i64,
    pub series: Vec<i64>,
}

/// The indicators computed from one price history.
#[derive(Debug)]
pub struct Indicators {
    pub symbol: String,
    pub from: i64,
    pub last_price: i64,
    pub pct_change: Ratio,
    pub period_min: i64,
    pub period_max: i64,
    pub moving_average: Ratio,
}

impl Clone for Indicators {
    fn clone(&self) -> (r: Self)
        ensures
            r == *self,
    {
        Indicators {
            symbol: self.symbol.clone(),
            from: self.from,
            last_price: self.last_price,
            pct_change: self.pct_change,
            period_min: self.period_min,
            period_max: self.period_max,
            moving_average: self.moving_average,
        }
    }
}

/// A request to serve queries on the given port.
#[derive(Clone, Copy, Debug)]
pub struct StartHttpServer(pub u32);

/// A query for the given number of most recent indicators.
#[derive(Clone, Copy, Debug)]
pub struct GetIndicators(pub usize);

} // verus!
