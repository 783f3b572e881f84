//! The four indicator calculators: minimum, maximum, price difference and
//! windowed simple moving average.
//!
//! Each takes a series of prices, oldest first, and returns either a defined
//! result or `None`. A price is a whole number of hundredths of the currency
//! unit: 1.00 is the price 100.

use vstd::prelude::*;

verus! {

/// The number of hundredths in one currency unit.
pub const HUNDREDTHS_PER_UNIT: i64 = 100;

/// An exact quotient `num / den`.
#[derive(Clone, Copy, Debug, PartialEq, Eq, Structural)]
pub struct Ratio {
    pub num: i128,
    pub den: i128,
}

impl Ratio {
    /// The denominator is not zero.
    pub open spec fn wf(self) -> bool {
        self.den != 0
    }

    /// The quotient with value zero that stands for "no value".
    pub fn zero() -> (r: Ratio)
        ensures
            r == (Ratio { num: 0, den: 1 }),
    {
        Ratio { num: 0, den: 1 }
    }
}

/// `m` occurs in `s` and no element of `s` is below it.
pub open spec fn is_minimum(s: Seq<i64>, m: i64) -> bool {
    &&& s.contains(m)
    &&& forall|i: int| 0 <= i < s.len() ==> m <= #[trigger] s[i]
}

/// `m` occurs in `s` and no element of `s` is above it.
pub open spec fn is_maximum(s: Seq<i64>, m: i64) -> bool {
    &&& s.contains(m)
    &&& forall|i: int| 0 <= i < s.len() ==> #[trigger] s[i] <= m
}

/// The lowest price of a series.
pub struct MinPrice {}

impl MinPrice {
    /// `None` exactly for the empty series, else its least element.
    pub fn calculate(&self, series: &[i64]) -> (r: Option<i64>)
        ensures
            r is None <==> series@.len() == 0,
            r matches Some(m) ==> is_minimum(series@, m),
    {
        if series.len() == 0 {
            return None;
        }
        let mut best: i64 = series[0];
        let mut i: usize = 1;
        while i < series.len()
            invariant
                1 <= i <= series@.len(),
                exists|j: int| 0 <= j < i && series@[j] == best,
                forall|j: int| 0 <= j < i ==> best <= #[trigger] series@[j],
            decreases series@.len() - i,
        {
            if series[i] < best {
                best = series[i];
            }
            i += 1;
        }
        Some(best)
    }
}

/// The highest price of a series.
pub struct MaxPrice {}

impl MaxPrice {
    /// `None` exactly for the empty series, else its greatest element.
    pub fn calculate(&self, series: &[i64]) -> (r: Option<i64>)
        ensures
            r is None <==> series@.len() == 0,
            r matches Some(m) ==> is_maximum(series@, m),
    {
        if series.len() == 0 {
            return None;
        }
        let mut best: i64 = series[0];
        let mut i: usize = 1;
        while i < series.len()
            invariant
                1 <= i <= series@.len(),
                exists|j: int| 0 <= j < i && series@[j] == best,
                forall|j: int| 0 <= j < i ==> #[trigger] series@[j] <= best,
            decreases series@.len() - i,
        {
            if series[i] > best {
                best = series[i];
            }
            i += 1;
        }
        Some(best)
    }
}

/// The divisor of the relative difference: the first price, or one currency
/// unit where that price is zero.
pub open spec fn difference_base(first: i64) -> int {
    if first == 0 {
        HUNDREDTHS_PER_UNIT as int
    } else {
        first as int
    }
}

/// The change from the first price of a series to its last: the absolute
/// difference, and the divisor that makes it relative. `None` for the empty
/// series.
pub open spec fn price_difference(s: Seq<i64>) -> Option<(int, int)> {
    if s.len() == 0 {
        None
    } else {
        Some((s.last() - s.first(), difference_base(s.first())))
    }
}

/// The change of price over a series.
pub struct PriceDifference {}

impl PriceDifference {
    /// `None` exactly for the empty series. Otherwise the pair of the
    /// absolute difference `last - first`, in hundredths, and the relative
    /// difference, that difference over the first price; a first price of
    /// zero divides as one currency unit.
    pub fn calculate(&self, series: &[i64]) -> (r: Option<(i128, Ratio)>)
        ensures
            r is None <==> series@.len() == 0,
            r matches Some((abs_diff, rel_diff)) ==> {
                &&& price_difference(series@) == Some((abs_diff as int, rel_diff.den as int))
                &&& rel_diff.num == abs_diff
                &&& rel_diff.wf()
            },
    {
        if series.len() == 0 {
            return None;
        }
        let first: i64 = series[0];
        let last: i64 = series[series.len() - 1];
        let abs_diff: i128 = last as i128 - first as i128;
        let base: i128 = if first == 0 {
            HUNDREDTHS_PER_UNIT as i128
        } else {
            first as i128
        };
        Some((abs_diff, Ratio { num: abs_diff, den: base }))
    }
}

/// The sum of the `n` prices of `s` that start at index `start`.
pub open spec fn window_sum(s: Seq<i64>, start: int, n: nat) -> int
    decreases n,
{
    if n == 0 {
        0
    } else {
        window_sum(s, start, (n - 1) as nat) + s[start + n - 1]
    }
}

/// The number of windows of length `n` in a series of length `len`.
pub open spec fn window_count(len: nat, n: nat) -> nat {
    if len < n {
        0
    } else {
        (len - n + 1) as nat
    }
}

/// A sum of `n` prices lies within `n` times the range of a price.
pub proof fn lemma_window_sum_bounds(s: Seq<i64>, start: int, n: nat)
    requires
        0 <= start,
        start + n <= s.len(),
    ensures
        -(n * 0x8000_0000_0000_0000) <= window_sum(s, start, n) <= n * 0x7fff_ffff_ffff_ffff,
    decreases n,
{
    if n > 0 {
        lemma_window_sum_bounds(s, start, (n - 1) as nat);
    }
}

/// The simple moving average over a sliding window of fixed size.
pub struct WindowedSMA {
    /// The number of prices in each window.
    pub window_size: usize,
}

impl WindowedSMA {
    /// `None` exactly when the series is empty or the window size is at most
    /// 1. Otherwise one mean per window of `window_size` consecutive prices,
    /// in the order of the windows' first prices: none at all where the
    /// series is shorter than the window. Each mean is the sum of its
    /// window over the window size.
    pub fn calculate(&self, series: &[i64]) -> (r: Option<Vec<Ratio>>)
        ensures
            r is None <==> (series@.len() == 0 || self.window_size <= 1),
            r matches Some(means) ==> {
                &&& means@.len() == window_count(series@.len(), self.window_size as nat)
                &&& forall|k: int|
                    0 <= k < means@.len() ==> {
                        &&& (#[trigger] means@[k]).num == window_sum(
                            series@,
                            k,
                            self.window_size as nat,
                        )
                        &&& means@[k].den == self.window_size
                    }
            },
    {
        let n: usize = self.window_size;
        let len: usize = series.len();
        if len == 0 || n <= 1 {
            return None;
        }
        let mut means: Vec<Ratio> = Vec::new();
        if len < n {
            return Some(means);
        }
        let count: usize = len - n + 1;
        let mut k: usize = 0;
        while k < count
            invariant
                n > 1,
                len == series@.len(),
                n <= len,
                count == len - n + 1,
                k <= count,
                means@.len() == k,
                forall|j: int|
                    0 <= j < k ==> {
                        &&& (#[trigger] means@[j]).num == window_sum(series@, j, n as nat)
                        &&& means@[j].den == n
                    },
            decreases count - k,
        {
            let mut sum: i128 = 0;
            let mut i: usize = 0;
            while i < n
                invariant
                    len == series@.len(),
                    k + n <= len,
                    i <= n,
                    sum == window_sum(series@, k as int, i as nat),
                decreases n - i,
            {
                proof {
                    lemma_window_sum_bounds(series@, k as int, i as nat);
                    assert(i * 0x8000_0000_0000_0000 <= 0xffff_ffff_ffff_ffff * 0x8000_0000_0000_0000)
                        by (nonlinear_arith)
                        requires
                            i <= 0xffff_ffff_ffff_ffff,
                    ;
                    assert(i * 0x7fff_ffff_ffff_ffff <= 0xffff_ffff_ffff_ffff * 0x7fff_ffff_ffff_ffff)
                        by (nonlinear_arith)
                        requires
                            i <= 0xffff_ffff_ffff_ffff,
                    ;
                }
                sum = sum + series[k + i] as i128;
                i += 1;
            }
            means.push(Ratio { num: sum, den: n as i128 });
            k += 1;
        }
        Some(means)
    }
}

/// A minimum is at most a maximum of the same series, and every price lies
/// between the two.
pub proof fn lemma_minimum_maximum_enclose(s: Seq<i64>, lo: i64, hi: i64)
    requires
        is_minimum(s, lo),
        is_maximum(s, hi),
    ensures
        lo <= hi,
        forall|i: int| 0 <= i < s.len() ==> lo <= #[trigger] s[i] <= hi,
{
    let j = choose|j: int| 0 <= j < s.len() && s[j] == lo;
    assert(s[j] <= hi);
}

/// A series has at most one minimum and at most one maximum, and has both
/// exactly when it is not empty.
pub proof fn lemma_minimum_maximum_unique(s: Seq<i64>, a: i64, b: i64)
    ensures
        is_minimum(s, a) && is_minimum(s, b) ==> a == b,
        is_maximum(s, a) && is_maximum(s, b) ==> a == b,
        is_minimum(s, a) || is_maximum(s, a) ==> s.len() > 0,
{
    if is_minimum(s, a) && is_minimum(s, b) {
        let i = choose|i: int| 0 <= i < s.len() && s[i] == a;
        let j = choose|j: int| 0 <= j < s.len() && s[j] == b;
        assert(b <= s[i] && a <= s[j]);
    }
    if is_maximum(s, a) && is_maximum(s, b) {
        let i = choose|i: int| 0 <= i < s.len() && s[i] == a;
        let j = choose|j: int| 0 <= j < s.len() && s[j] == b;
        assert(s[i] <= b && s[j] <= a);
    }
}

/// Where the first price is zero, the relative difference is the absolute
/// difference in currency units: the last price over one unit.
pub proof fn lemma_zero_first_price_divides_by_one_unit(s: Seq<i64>)
    requires
        s.len() > 0,
        s.first() == 0,
    ensures
        price_difference(s) == Some((s.last() as int, HUNDREDTHS_PER_UNIT as int)),
{
}

/// Where the first price is not zero, the relative difference is the
/// absolute difference over the first price.
pub proof fn lemma_first_price_divides(s: Seq<i64>)
    requires
        s.len() > 0,
        s.first() != 0,
    ensures
        price_difference(s) == Some((s.last() - s.first(), s.first() as int)),
{
}

/// Over a series of one price both differences are zero, whatever the price.
pub proof fn lemma_single_price_difference(x: i64)
    ensures
        price_difference(seq![x]) == Some((0int, difference_base(x))),
        difference_base(x) != 0,
{
}

} // verus!
