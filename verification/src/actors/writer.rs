//! The durable sink: a table of indicators as text, a header and then one
//! line for each set of indicators.
//!
//! Prices are counts of hundredths of the currency unit.

use crate::decimal::{
    hundredths_text, magnitude, magnitude_of, push_hundredths, quotient_text, rounded,
};
use crate::messages::Indicators;
use vstd::prelude::*;
use vstd::string::StringExecFns;

verus! {

/// The RFC 3339 text of the moment `millis` milliseconds after the Unix
/// epoch, in UTC; `None` where the calendar in use cannot hold the moment.
pub uninterp spec fn rfc3339_text(millis: i64) -> Option<Seq<char>>;

/// Writes a moment as RFC 3339 text with `chrono`:
/// `DateTime::from_timestamp_millis` makes the moment, or nothing where it
/// is out of range, and `DateTime::to_rfc3339` writes it. The text is a
/// function of the count of milliseconds alone.
#[verifier::external_body]
fn rfc3339(millis: i64) -> (r: Option<String>)
    ensures
        match r {
            Some(text) => rfc3339_text(millis) == Some(text@),
            None => rfc3339_text(millis) is None,
        },
{
    match chrono::DateTime::from_timestamp_millis(millis) {
        Some(moment) => Some(moment.to_rfc3339()),
        None => None,
    }
}

/// The factor from a relative difference to hundredths of a percent.
pub const PERCENT_HUNDREDTHS: u128 = 10000;

/// The numbers of the indicators can be written: both quotients have a
/// denominator, and the relative difference in hundredths of a percent is
/// within range.
pub open spec fn numbers_writable(msg: Indicators) -> bool {
    &&& msg.pct_change.den != 0
    &&& msg.moving_average.den != 0
    &&& magnitude_of(msg.pct_change.num as int) * PERCENT_HUNDREDTHS <= u128::MAX
}

/// The indicators can be written as a line: their numbers can, and the
/// start of their period is a moment of the calendar.
pub open spec fn writable(msg: Indicators) -> bool {
    &&& rfc3339_text(msg.from) is Some
    &&& numbers_writable(msg)
}

/// The line of a set of indicators whose period starts at the moment
/// written `time`: that moment, the symbol, the last price, the change in
/// percent, the lowest and the highest price and the moving average,
/// separated by commas, each number with two decimal places.
pub open spec fn line_text_at(time: Seq<char>, msg: Indicators) -> Seq<char> {
    time + ","@ + msg.symbol@ + ",$"@ + hundredths_text(msg.last_price as int) + ","@
        + quotient_text(
        msg.pct_change.num as int,
        msg.pct_change.den as int,
        PERCENT_HUNDREDTHS as nat,
    ) + "%,$"@ + hundredths_text(msg.period_min as int) + ",$"@ + hundredths_text(
        msg.period_max as int,
    ) + ",$"@ + quotient_text(
        msg.moving_average.num as int,
        msg.moving_average.den as int,
        1,
    )
}

/// The line of a set of indicators, the start of the period in RFC 3339.
pub open spec fn line_text(msg: Indicators) -> Seq<char> {
    line_text_at(rfc3339_text(msg.from).unwrap(), msg)
}

/// Indicators whose relative difference is that of two prices, over a
/// divisor, and whose moving average has a denominator, have numbers that
/// can be written.
pub proof fn lemma_price_changes_are_writable(msg: Indicators, first: i64, last: i64)
    requires
        msg.pct_change.num == last - first,
        msg.pct_change.den != 0,
        msg.moving_average.den != 0,
    ensures
        numbers_writable(msg),
{
}

/// The header of the table.
pub fn header() -> (r: &'static str)
    ensures
        r@ == "period start,symbol,price,change %,min,max,30d avg"@,
{
    "period start,symbol,price,change %,min,max,30d avg"
}

/// Appends a price to `out`, written with two decimal places.
fn push_price(out: &mut String, price: i64)
    ensures
        final(out)@ == old(out)@ + hundredths_text(price as int),
{
    let distance: u128 = magnitude(price as i128);
    push_hundredths(out, price < 0, distance);
}

/// The line of a set of indicators whose period starts at the moment
/// written `time`, or `None` where their numbers cannot be written.
pub fn csv_line_at(time: &str, msg: &Indicators) -> (r: Option<String>)
    ensures
        r is Some <==> numbers_writable(*msg),
        r matches Some(text) ==> text@ == line_text_at(time@, *msg),
{
    let change = match rounded(msg.pct_change.num, msg.pct_change.den, PERCENT_HUNDREDTHS) {
        Some(change) => change,
        None => { return None; },
    };
    let average = match rounded(msg.moving_average.num, msg.moving_average.den, 1) {
        Some(average) => average,
        None => { return None; },
    };
    let mut out: String = String::from_str(time);
    out.append(",");
    out.append(msg.symbol.as_str());
    out.append(",$");
    push_price(&mut out, msg.last_price);
    out.append(",");
    push_hundredths(&mut out, change.0, change.1);
    out.append("%,$");
    push_price(&mut out, msg.period_min);
    out.append(",$");
    push_price(&mut out, msg.period_max);
    out.append(",$");
    push_hundredths(&mut out, average.0, average.1);
    proof {
        assert(msg.moving_average.num * 1 == msg.moving_average.num);
        assert(out@ =~= line_text_at(time@, *msg));
    }
    Some(out)
}

/// The line of a set of indicators, or `None` where they cannot be written.
pub fn csv_line(msg: &Indicators) -> (r: Option<String>)
    ensures
        r is Some <==> writable(*msg),
        r matches Some(text) ==> text@ == line_text(*msg),
{
    match rfc3339(msg.from) {
        Some(time) => csv_line_at(time.as_str(), msg),
        None => None,
    }
}

/// The durable sink: the name of its file, and whether the file was opened.
pub struct Writer {
    pub filename: String,
    pub opened: bool,
}

impl Writer {
    /// A sink for the file of the given name, not yet opened.
    pub fn new(filename: String) -> (r: Self)
        ensures
            r.filename == filename,
            !r.opened,
    {
        Writer { filename, opened: false }
    }

    /// Takes note that the file was opened. The header is to be written
    /// first, once: it is returned the first time, and `None` after that.
    pub fn started(&mut self) -> (r: Option<&'static str>)
        ensures
            final(self).opened,
            final(self).filename == old(self).filename,
            r is Some <==> !old(self).opened,
            r matches Some(text) ==> text@ == "period start,symbol,price,change %,min,max,30d avg"@,
    {
        let first: bool = !self.opened;
        self.opened = true;
        if first {
            Some(header())
        } else {
            None
        }
    }

    /// What is to be appended to the file for a set of indicators: a line
    /// break and their line. Nothing is, where the file was not opened or
    /// the indicators cannot be written.
    pub fn handle(&self, msg: &Indicators) -> (r: Option<String>)
        ensures
            r is Some <==> self.opened && writable(*msg),
            r matches Some(text) ==> text@ == "\n"@ + line_text(*msg),
    {
        if !self.opened {
            return None;
        }
        match csv_line(msg) {
            Some(text) => {
                let mut out: String = String::from_str("\n");
                out.append(text.as_str());
                Some(out)
            },
            None => None,
        }
    }
}

} // verus!
