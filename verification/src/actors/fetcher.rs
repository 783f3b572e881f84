//! The fetch stage: one retrieval per symbol, and the price history that
//! each completed retrieval gives.

use crate::messages::{FetchQuotes, Quote};
use vstd::prelude::*;

verus! {

/// One daily quote as retrieved: the moment it was taken, in seconds since
/// the Unix epoch, and the adjusted closing price.
pub type DailyQuote = (u64, i64);

/// The reason a retrieval gave no quotes.
#[derive(Clone, Copy, Debug, PartialEq, Eq, Structural)]
pub enum RetrievalError {
    /// The service could not be reached or refused the request.
    Connection,
    /// The answer of the service could not be read.
    Malformed,
}

/// A retrieval to perform: the price history of `symbol` from `from` to `to`.
pub struct Retrieval {
    pub symbol: String,
    pub from: i64,
    pub to: i64,
}

/// No quote is older than one before it.
pub open spec fn time_ascending(quotes: Seq<DailyQuote>) -> bool {
    forall|i: int, j: int| 0 <= i <= j < quotes.len() ==> quotes[i].0 <= quotes[j].0
}

/// Whether a quote was taken at the moment `t`.
pub open spec fn at_moment(t: u64) -> spec_fn(DailyQuote) -> bool {
    |q: DailyQuote| q.0 == t
}

/// The quotes taken at the moment `t`, in the order in which they stand.
pub open spec fn taken_at(quotes: Seq<DailyQuote>, t: u64) -> Seq<DailyQuote> {
    quotes.filter(at_moment(t))
}

/// `sorted` holds the quotes of `quotes` by ascending time, those of one
/// moment in the order that they had.
pub open spec fn is_sorted_by_time(sorted: Seq<DailyQuote>, quotes: Seq<DailyQuote>) -> bool {
    &&& sorted.len() == quotes.len()
    &&& time_ascending(sorted)
    &&& forall|t: u64| #[trigger] taken_at(sorted, t) == taken_at(quotes, t)
}

/// The prices of a sequence of quotes, in their order.
pub open spec fn prices_of(quotes: Seq<DailyQuote>) -> Seq<i64> {
    quotes.map_values(|q: DailyQuote| q.1)
}

/// `series` is the price history that the outcome of a retrieval gives: the
/// prices of the quotes by ascending time, or nothing where it failed.
pub open spec fn is_series_of(
    series: Seq<i64>,
    outcome: Result<Vec<DailyQuote>, RetrievalError>,
) -> bool {
    match outcome {
        Ok(quotes) => exists|sorted: Seq<DailyQuote>|
            #[trigger] is_sorted_by_time(sorted, quotes@) && series == prices_of(sorted),
        Err(_) => series.len() == 0,
    }
}

/// Sorts the quotes by their moment with `slice::sort_by_cached_key`, which
/// is a stable sort: the result is in ascending order of the key, and
/// quotes of equal key keep the order that they had.
#[verifier::external_body]
fn sort_by_time(quotes: &mut Vec<DailyQuote>)
    ensures
        is_sorted_by_time(final(quotes)@, old(quotes)@),
{
    quotes.sort_by_cached_key(|k| k.0);
}

/// The fetch stage.
pub struct Fetcher;

impl Fetcher {
    /// The retrievals that a request asks for: one for each of its symbols,
    /// in their order, each over the period of the request.
    pub fn handle(&self, msg: &FetchQuotes) -> (r: Vec<Retrieval>)
        ensures
            r@.len() == msg.symbols@.len(),
            forall|i: int|
                0 <= i < r@.len() ==> {
                    &&& (#[trigger] r@[i]).symbol == msg.symbols@[i]
                    &&& r@[i].from == msg.from
                    &&& r@[i].to == msg.to
                },
    {
        let mut out: Vec<Retrieval> = Vec::new();
        let mut i: usize = 0;
        while i < msg.symbols.len()
            invariant
                i <= msg.symbols@.len(),
                out@.len() == i,
                forall|j: int|
                    0 <= j < i ==> {
                        &&& (#[trigger] out@[j]).symbol == msg.symbols@[j]
                        &&& out@[j].from == msg.from
                        &&& out@[j].to == msg.to
                    },
            decreases msg.symbols@.len() - i,
        {
            out.push(Retrieval { symbol: msg.symbols[i].clone(), from: msg.from, to: msg.to });
            i += 1;
        }
        out
    }

    /// The prices of the quotes, in their order.
    pub fn prices(quotes: &Vec<DailyQuote>) -> (r: Vec<i64>)
        ensures
            r@ == prices_of(quotes@),
    {
        let mut series: Vec<i64> = Vec::new();
        let mut i: usize = 0;
        while i < quotes.len()
            invariant
                i <= quotes@.len(),
                series@ == prices_of(quotes@.take(i as int)),
            decreases quotes@.len() - i,
        {
            series.push(quotes[i].1);
            assert(series@ =~= prices_of(quotes@.take(i + 1)));
            i += 1;
        }
        assert(quotes@.take(quotes@.len() as int) =~= quotes@);
        series
    }

    /// The price history that the outcome of a retrieval gives. A failed
    /// retrieval gives the empty history; a completed one the prices of its
    /// quotes, oldest first.
    pub fn fetch_data(outcome: Result<Vec<DailyQuote>, RetrievalError>) -> (r: Vec<i64>)
        ensures
            is_series_of(r@, outcome),
    {
        match outcome {
            Err(_) => Vec::new(),
            Ok(quotes) => {
                let mut quotes = quotes;
                let ghost given = quotes@;
                sort_by_time(&mut quotes);
                assert(is_sorted_by_time(quotes@, given));
                Fetcher::prices(&quotes)
            },
        }
    }

    /// The message that a completed retrieval is published as: the price
    /// history of its symbol over its period.
    pub fn completed(
        &self,
        retrieval: &Retrieval,
        outcome: Result<Vec<DailyQuote>, RetrievalError>,
    ) -> (r: Quote)
        ensures
            r.symbol == retrieval.symbol,
            r.from == retrieval.from,
            r.to == retrieval.to,
            is_series_of(r.series@, outcome),
    {
        Quote {
            symbol: retrieval.symbol.clone(),
            from: retrieval.from,
            to: retrieval.to,
            series: Fetcher::fetch_data(outcome),
        }
    }
}

/// Taking the last quote away takes it from the quotes of its moment, and
/// leaves those of every other moment as they are.
proof fn lemma_taken_at_drop_last(quotes: Seq<DailyQuote>, t: u64)
    requires
        quotes.len() > 0,
    ensures
        quotes.last().0 == t ==> taken_at(quotes, t) == taken_at(quotes.drop_last(), t).push(
            quotes.last(),
        ),
        quotes.last().0 != t ==> taken_at(quotes, t) == taken_at(quotes.drop_last(), t),
{
    reveal(Seq::filter);
}

/// The last quote of an ascending sequence is no older than any quote that
/// another sequence with the same quotes at each moment holds.
proof fn lemma_last_is_latest(a: Seq<DailyQuote>, b: Seq<DailyQuote>)
    requires
        a.len() > 0,
        b.len() > 0,
        time_ascending(b),
        forall|t: u64| #[trigger] taken_at(a, t) == taken_at(b, t),
    ensures
        a.last().0 <= b.last().0,
{
    let t = a.last().0;
    let at = at_moment(t);
    a.lemma_filter_contains(at, a.len() - 1);
    assert(taken_at(a, t) == taken_at(b, t));
    b.lemma_filter_contains_rev(at, a.last());
    let j = choose|j: int| 0 <= j < b.len() && b[j] == a.last();
    assert(b[j].0 <= b[b.len() - 1].0);
}

/// Two ascending sequences of one length that hold the same quotes at each
/// moment, in the same order, are one sequence.
proof fn lemma_ascending_with_same_moments(a: Seq<DailyQuote>, b: Seq<DailyQuote>)
    requires
        a.len() == b.len(),
        time_ascending(a),
        time_ascending(b),
        forall|t: u64| #[trigger] taken_at(a, t) == taken_at(b, t),
    ensures
        a == b,
    decreases a.len(),
{
    if a.len() == 0 {
        assert(a =~= b);
    } else {
        lemma_last_is_latest(a, b);
        lemma_last_is_latest(b, a);
        let last = a.last().0;
        let a0 = a.drop_last();
        let b0 = b.drop_last();
        lemma_taken_at_drop_last(a, last);
        lemma_taken_at_drop_last(b, last);
        assert(taken_at(a, last) == taken_at(b, last));
        assert(taken_at(a0, last).push(a.last()).last() == a.last());
        assert(taken_at(b0, last).push(b.last()).last() == b.last());
        assert(a.last() == b.last());
        assert forall|t: u64| #[trigger] taken_at(a0, t) == taken_at(b0, t) by {
            lemma_taken_at_drop_last(a, t);
            lemma_taken_at_drop_last(b, t);
            assert(taken_at(a, t) == taken_at(b, t));
            if t == last {
                assert(taken_at(a0, t) =~= taken_at(a0, t).push(a.last()).drop_last());
                assert(taken_at(b0, t) =~= taken_at(b0, t).push(b.last()).drop_last());
            }
        }
        assert(time_ascending(a0)) by {
            assert forall|i: int, j: int| 0 <= i <= j < a0.len() implies a0[i].0 <= a0[j].0 by {
                assert(a[i].0 <= a[j].0);
            }
        }
        assert(time_ascending(b0)) by {
            assert forall|i: int, j: int| 0 <= i <= j < b0.len() implies b0[i].0 <= b0[j].0 by {
                assert(b[i].0 <= b[j].0);
            }
        }
        lemma_ascending_with_same_moments(a0, b0);
        assert(a =~= a0.push(a.last()));
        assert(b =~= b0.push(b.last()));
    }
}

/// A quote stands among the quotes of its moment as often as among all.
proof fn lemma_count_at_moment(quotes: Seq<DailyQuote>, q: DailyQuote)
    ensures
        taken_at(quotes, q.0).to_multiset().count(q) == quotes.to_multiset().count(q),
    decreases quotes.len(),
{
    broadcast use vstd::multiset::group_multiset_axioms;

    if quotes.len() == 0 {
        reveal(Seq::filter);
        assert(taken_at(quotes, q.0) =~= quotes);
    } else {
        let before = quotes.drop_last();
        let last = quotes.last();
        lemma_taken_at_drop_last(quotes, q.0);
        lemma_count_at_moment(before, q);
        assert(quotes =~= before.push(last));
        vstd::seq_lib::to_multiset_build(before, last);
        if last.0 == q.0 {
            vstd::seq_lib::to_multiset_build(taken_at(before, q.0), last);
        }
    }
}

/// Quotes sorted by time are the quotes that were given, each as often: a
/// rearrangement that adds none and loses none.
pub proof fn lemma_sorted_is_permutation(sorted: Seq<DailyQuote>, quotes: Seq<DailyQuote>)
    requires
        is_sorted_by_time(sorted, quotes),
    ensures
        sorted.to_multiset() == quotes.to_multiset(),
{
    assert forall|q: DailyQuote|
        sorted.to_multiset().count(q) == quotes.to_multiset().count(q) by {
        lemma_count_at_moment(sorted, q);
        lemma_count_at_moment(quotes, q);
        assert(taken_at(sorted, q.0) == taken_at(quotes, q.0));
    }
    assert(sorted.to_multiset() =~= quotes.to_multiset());
}

/// There is one way only to sort given quotes by time: two sequences that
/// both order them so are equal, and so are the price histories of an
/// outcome.
pub proof fn lemma_sorted_by_time_unique(
    a: Seq<DailyQuote>,
    b: Seq<DailyQuote>,
    quotes: Seq<DailyQuote>,
)
    requires
        is_sorted_by_time(a, quotes),
        is_sorted_by_time(b, quotes),
    ensures
        a == b,
{
    assert forall|t: u64| #[trigger] taken_at(a, t) == taken_at(b, t) by {
        assert(taken_at(a, t) == taken_at(quotes, t));
        assert(taken_at(b, t) == taken_at(quotes, t));
    }
    lemma_ascending_with_same_moments(a, b);
}

/// The outcome of a retrieval has one price history.
pub proof fn lemma_series_unique(
    first: Seq<i64>,
    second: Seq<i64>,
    outcome: Result<Vec<DailyQuote>, RetrievalError>,
)
    requires
        is_series_of(first, outcome),
        is_series_of(second, outcome),
    ensures
        first == second,
{
    match outcome {
        Ok(quotes) => {
            let a = choose|a: Seq<DailyQuote>|
                #[trigger] is_sorted_by_time(a, quotes@) && first == prices_of(a);
            let b = choose|b: Seq<DailyQuote>|
                #[trigger] is_sorted_by_time(b, quotes@) && second == prices_of(b);
            lemma_sorted_by_time_unique(a, b, quotes@);
        },
        Err(_) => {
            assert(first =~= second);
        },
    }
}

} // verus!
