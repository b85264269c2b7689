//! Latencies and their percentiles.

use vstd::multiset::Multiset;
use vstd::prelude::*;

verus! {

/// A histogram of latencies, which is one of `hdrhistogram`.
#[verifier::external_body]
pub struct LatencyHistogram {
    inner: hdrhistogram::Histogram<u64>,
}

/// The values that were recorded, each as often as it was.
pub uninterp spec fn recorded(h: LatencyHistogram) -> Multiset<u64>;

/// What the histogram was made with: the lowest value that it tells from zero, the
/// highest that it takes, and the number of significant digits.
pub uninterp spec fn limits(h: LatencyHistogram) -> (u64, u64, u8);

/// What the histogram reports for a percentage of its values.
pub uninterp spec fn percentile(h: LatencyHistogram, percent: u8) -> u64;

/// Up to this many values the rank of a percentile is exact.
pub const EXACT_RANKS: u64 = 0x100_0000_0000;

/// Where there are values, the result is one of them or at most a thousandth above one.
pub open spec fn is_near_one(values: Multiset<u64>, r: u64) -> bool {
    values.len() > 0 ==> exists|v: u64| #[trigger]
        values.contains(v) && v <= r && (r - v) * 1000 <= v
}

/// While there are not too many values, at least the percentage of them is not above
/// the result.
pub open spec fn has_rank(values: Multiset<u64>, r: u64, percent: u8) -> bool {
    values.len() <= EXACT_RANKS ==> values.filter(|v: u64| v <= r).len() * 100 >= percent
        * values.len()
}

/// Where there are values, but not too many, less than the percentage of them lies so
/// far below the result that they can be told from it.
pub open spec fn is_lowest(values: Multiset<u64>, r: u64, percent: u8) -> bool {
    0 < values.len() <= EXACT_RANKS ==> values.filter(
        |v: u64| v < r && (r - v) * 1000 > v,
    ).len() * 100 < percent * values.len()
}

/// Whether a percentage is one that some value is found for: all of the values can be
/// too many to be counted exactly.
pub open spec fn is_found(values: Multiset<u64>, percent: u8) -> bool {
    1 <= percent <= 99 || (percent == 100 && values.len() <= EXACT_RANKS)
}

/// Whether the histogram takes no value of the upper half of the numbers, where the
/// ranges of values are cut off.
pub open spec fn is_bounded(limits: (u64, u64, u8)) -> bool {
    limits.1 <= 0x7fff_ffff_ffff_ffff
}

/// Whether the histogram tells values apart that differ by more than a thousandth.
pub open spec fn has_three_digits(limits: (u64, u64, u8)) -> bool {
    is_bounded(limits) && limits.0 == 1 && limits.2 == 3
}

impl LatencyHistogram {
    /// `hdrhistogram::Histogram::new_with_bounds`: an empty histogram, where the lowest
    /// value is at least one and at most half the highest, and there are at most five
    /// digits.
    #[verifier::external_body]
    pub(crate) fn with_bounds(low: u64, high: u64, digits: u8) -> (r: Option<Self>)
        ensures
            1 <= low <= 0xffff_ffff && 2 * low <= high && digits <= 5 ==> r is Some,
            low == 0 || high < 2 * low || digits > 5 ==> r is None,
            r matches Some(h) ==> recorded(h) == Multiset::<u64>::empty(),
            r matches Some(h) ==> limits(h) == (low, high, digits),
    {
        hdrhistogram::Histogram::new_with_bounds(low, high, digits).ok().map(
            |inner| LatencyHistogram { inner },
        )
    }

    /// `hdrhistogram::Histogram::record`: takes every value up to the highest that the
    /// histogram was made for; says whether it took this one.
    #[verifier::external_body]
    pub(crate) fn record(&mut self, value: u64) -> (r: bool)
        ensures
            value <= limits(*old(self)).1 ==> r,
            r ==> recorded(*final(self)) == recorded(*old(self)).insert(value),
            !r ==> recorded(*final(self)) == recorded(*old(self)),
            limits(*final(self)) == limits(*old(self)),
    {
        self.inner.record(value).is_ok()
    }

    /// `hdrhistogram::Histogram::len`: how many values were recorded.
    #[verifier::external_body]
    fn inner_len(&self) -> (r: u64)
        ensures
            recorded(*self).len() <= u64::MAX ==> r == recorded(*self).len(),
    {
        self.inner.len()
    }

    /// `hdrhistogram::Histogram::value_at_percentile` on a whole percentage, which is
    /// `value_at_quantile` on a hundredth of it. The result has the name [`percentile`].
    /// An empty histogram gives zero. Between one and ninety-nine percent a larger
    /// percentage gives no smaller result. The rest is said of histograms that take no
    /// value of the upper half of the numbers, between one and ninety-nine percent and,
    /// while there are at most [`EXACT_RANKS`] values, at a hundred: the result is the
    /// top of the range of values that a recorded one cannot be told from, which with
    /// three digits lies within a thousandth of it; and at least the percentage of the
    /// values, while there are at most [`EXACT_RANKS`], is not above the result. For
    /// three percentages, whose hundredths are not rounded up, less than the percentage
    /// lies below that range.
    #[verifier::external_body]
    fn inner_value_at_percentile(&self, percent: u8) -> (r: u64)
        requires
            recorded(*self).len() <= u64::MAX,
        ensures
            r == percentile(*self, percent),
            recorded(*self).len() == 0 ==> r == 0,
            1 <= percent <= 99 ==> forall|q: u8|
                percent <= q <= 99 ==> r <= #[trigger] percentile(*self, q),
            is_found(recorded(*self), percent) && has_three_digits(limits(*self)) ==> is_near_one(
                recorded(*self),
                r,
            ),
            is_found(recorded(*self), percent) && is_bounded(limits(*self)) ==> has_rank(
                recorded(*self),
                r,
                percent,
            ),
            (percent == 50 || percent == 95 || percent == 99) && has_three_digits(limits(*self))
                ==> is_lowest(recorded(*self), r, percent),
    {
        self.inner.value_at_percentile(percent.into())
    }

    /// How many values were recorded.
    pub fn len(&self) -> (r: u64)
        ensures
            recorded(*self).len() <= u64::MAX ==> r == recorded(*self).len(),
    {
        self.inner_len()
    }

    /// The value that the percentage of all recorded ones does not exceed.
    pub fn value_at_percentile(&self, percent: u8) -> (r: u64)
        requires
            recorded(*self).len() <= u64::MAX,
        ensures
            r == percentile(*self, percent),
            recorded(*self).len() == 0 ==> r == 0,
            1 <= percent <= 99 ==> forall|q: u8|
                percent <= q <= 99 ==> r <= #[trigger] percentile(*self, q),
            is_found(recorded(*self), percent) && has_three_digits(limits(*self)) ==> is_near_one(
                recorded(*self),
                r,
            ),
            is_found(recorded(*self), percent) && is_bounded(limits(*self)) ==> has_rank(
                recorded(*self),
                r,
                percent,
            ),
            (percent == 50 || percent == 95 || percent == 99) && has_three_digits(limits(*self))
                ==> is_lowest(recorded(*self), r, percent),
    {
        self.inner_value_at_percentile(percent)
    }
}

} // verus!
