//! Nearest-rank statistics over the timed trials of one target.

use vstd::prelude::*;
use vstd::relations::sorted_by;
use vstd::relations::total_ordering;
use vstd::seq_lib::lemma_sorted_unique;
use vstd::seq_lib::to_multiset_build;
use vstd::seq_lib::to_multiset_insert;
use crate::metrics::Decimal;

verus! {

/// The smaller of two integers.
pub open spec fn min_int(a: int, b: int) -> int {
    if a <= b { a } else { b }
}

/// Index of the median sample among `n` sorted samples: `n / 2`, kept below `n`.
pub open spec fn p50_index(n: int) -> int {
    min_int(n / 2, n - 1)
}

/// Index of the 95th-percentile sample: the integer part of `0.95 * n`, kept below `n`.
pub open spec fn p95_index(n: int) -> int {
    min_int((n * 95) / 100, n - 1)
}

/// Index of the 99th-percentile sample: the integer part of `0.99 * n`, kept below `n`.
pub open spec fn p99_index(n: int) -> int {
    min_int((n * 99) / 100, n - 1)
}

/// The three nearest-rank indices for a run of `n` trials.
#[derive(Clone, Copy, Debug, PartialEq, Eq, Structural)]
pub struct PercentileIndices {
    pub p50: usize,
    pub p95: usize,
    pub p99: usize,
}

/// Computes the nearest-rank indices for `n >= 1` trials.
pub fn percentile_indices(n: usize) -> (r: PercentileIndices)
    requires
        n >= 1,
    ensures
        r.p50 == p50_index(n as int),
        r.p95 == p95_index(n as int),
        r.p99 == p99_index(n as int),
        r.p50 <= r.p95 <= r.p99 < n,
{
    let last: usize = n - 1;
    let wide: u128 = n as u128;
    let q95: u128 = wide * 95 / 100;
    let q99: u128 = wide * 99 / 100;
    let half: usize = n / 2;
    let p50: usize = if half < last { half } else { last };
    let p95: usize = if q95 < last as u128 { q95 as usize } else { last };
    let p99: usize = if q99 < last as u128 { q99 as usize } else { last };
    PercentileIndices { p50, p95, p99 }
}

/// The order in which samples are ranked: smaller durations first.
pub open spec fn sample_order() -> spec_fn(u64, u64) -> bool {
    |a: u64, b: u64| a <= b
}

/// The samples of a run in ascending order.
pub open spec fn ascending(samples: Seq<u64>) -> Seq<u64> {
    samples.sort_by(sample_order())
}

/// The sum of all samples.
pub open spec fn sum_of(samples: Seq<u64>) -> int
    decreases samples.len(),
{
    if samples.len() == 0 {
        0
    } else {
        sum_of(samples.drop_last()) + samples.last()
    }
}

/// `sample_order` is a total order, and `ascending` yields the one sorted
/// arrangement of the samples.
pub proof fn lemma_ascending(samples: Seq<u64>)
    ensures
        total_ordering(sample_order()),
        sorted_by(ascending(samples), sample_order()),
        ascending(samples).to_multiset() == samples.to_multiset(),
        ascending(samples).len() == samples.len(),
{
    broadcast use vstd::seq_lib::group_to_multiset_ensures;

    samples.lemma_sort_by_ensures(sample_order());
    assert(ascending(samples).to_multiset().len() == samples.to_multiset().len());
}

/// Sorts the samples ascending.
pub fn sort_samples(samples: &Vec<u64>) -> (sorted: Vec<u64>)
    ensures
        sorted@ == ascending(samples@),
{
    let mut out: Vec<u64> = Vec::new();
    let mut i: usize = 0;
    assert(out@ =~= samples@.subrange(0, 0));
    while i < samples.len()
        invariant
            i <= samples.len(),
            out.len() == i,
            sorted_by(out@, sample_order()),
            out@.to_multiset() == samples@.subrange(0, i as int).to_multiset(),
        decreases samples.len() - i,
    {
        let x: u64 = samples[i];
        let mut j: usize = out.len();
        while j > 0 && out[j - 1] > x
            invariant
                j <= out.len(),
                forall|k: int| j <= k < out.len() ==> out@[k] > x,
            decreases j,
        {
            j = j - 1;
        }
        let ghost before = out@;
        out.insert(j, x);
        proof {
            to_multiset_insert(before, j as int, x);
            to_multiset_build(samples@.subrange(0, i as int), x);
            assert(samples@.subrange(0, i + 1) =~= samples@.subrange(0, i as int).push(x));
            assert forall|a: int, b: int| 0 <= a < b < out@.len() implies sample_order()(
                out@[a],
                out@[b],
            ) by {
                if a < j && b > j {
                    assert(sample_order()(before[a], before[b - 1]));
                } else if a < j && b < j {
                    assert(sample_order()(before[a], before[b]));
                } else if a > j {
                    assert(sample_order()(before[a - 1], before[b - 1]));
                } else if b == j {
                    assert(sample_order()(before[a], before[j - 1]));
                }
            }
        }
        i = i + 1;
    }
    proof {
        assert(samples@.subrange(0, i as int) =~= samples@);
        lemma_ascending(samples@);
        lemma_sorted_unique(out@, ascending(samples@), sample_order());
    }
    out
}

/// What one run of timed trials amounts to. Durations are in nanoseconds.
#[derive(Clone, Copy, Debug, PartialEq, Eq, Structural)]
pub struct TrialSummary {
    /// Number of trials.
    pub trials: usize,
    /// Sum of all samples.
    pub total_ns: u128,
    /// Mean duration, rounded down.
    pub average_ns: u64,
    /// Median sample by nearest rank.
    pub p50_ns: u64,
    /// 95th-percentile sample by nearest rank.
    pub p95_ns: u64,
    /// 99th-percentile sample by nearest rank.
    pub p99_ns: u64,
}

/// The summary that a sequence of at least one sample determines.
pub open spec fn summary_of(samples: Seq<u64>) -> TrialSummary {
    let n = samples.len() as int;
    TrialSummary {
        trials: samples.len() as usize,
        total_ns: sum_of(samples) as u128,
        average_ns: (sum_of(samples) / n) as u64,
        p50_ns: ascending(samples)[p50_index(n)],
        p95_ns: ascending(samples)[p95_index(n)],
        p99_ns: ascending(samples)[p99_index(n)],
    }
}

/// The sum of `n` samples is at most `n` times the largest `u64`.
pub proof fn lemma_sum_bounds(samples: Seq<u64>)
    ensures
        0 <= sum_of(samples) <= samples.len() * u64::MAX,
    decreases samples.len(),
{
    if samples.len() > 0 {
        lemma_sum_bounds(samples.drop_last());
        assert((samples.len() - 1) * u64::MAX + u64::MAX == samples.len() * u64::MAX)
            by (nonlinear_arith);
    }
}

/// The nearest-rank indices are in range and never decrease from the median
/// to the 95th and on to the 99th percentile.
pub proof fn lemma_percentile_indices_ordered(n: int)
    requires
        n >= 1,
    ensures
        0 <= p50_index(n) <= p95_index(n) <= p99_index(n) <= n - 1,
{
}

/// In every run of at least one trial the median is no larger than the 95th
/// percentile, which is no larger than the 99th, and each is a sample of the run.
pub proof fn lemma_percentiles_ordered(samples: Seq<u64>)
    requires
        samples.len() >= 1,
    ensures
        summary_of(samples).p50_ns <= summary_of(samples).p95_ns <= summary_of(samples).p99_ns,
        samples.contains(summary_of(samples).p50_ns),
        samples.contains(summary_of(samples).p95_ns),
        samples.contains(summary_of(samples).p99_ns),
{
    broadcast use vstd::seq_lib::group_to_multiset_ensures;

    let n = samples.len() as int;
    let sorted = ascending(samples);
    lemma_ascending(samples);
    lemma_percentile_indices_ordered(n);
    assert(p50_index(n) < p95_index(n) ==> sample_order()(
        sorted[p50_index(n)],
        sorted[p95_index(n)],
    ));
    assert(p95_index(n) < p99_index(n) ==> sample_order()(
        sorted[p95_index(n)],
        sorted[p99_index(n)],
    ));
    assert(sorted.contains(sorted[p50_index(n)]));
    assert(sorted.contains(sorted[p95_index(n)]));
    assert(sorted.contains(sorted[p99_index(n)]));
    assert(sorted.to_multiset().count(sorted[p50_index(n)]) > 0);
    assert(sorted.to_multiset().count(sorted[p95_index(n)]) > 0);
    assert(sorted.to_multiset().count(sorted[p99_index(n)]) > 0);
}

/// A run of one trial has that trial as its mean and as all three percentiles.
pub proof fn lemma_single_trial(samples: Seq<u64>)
    requires
        samples.len() == 1,
    ensures
        summary_of(samples).trials == 1,
        summary_of(samples).average_ns == samples[0],
        summary_of(samples).p50_ns == samples[0],
        summary_of(samples).p95_ns == samples[0],
        summary_of(samples).p99_ns == samples[0],
{
    lemma_percentiles_ordered(samples);
    assert(samples.drop_last() =~= Seq::<u64>::empty());
    assert(sum_of(samples) == sum_of(samples.drop_last()) + samples.last());
    assert(sum_of(samples.drop_last()) == 0);
    assert(sum_of(samples) == samples[0]);
}

/// Adds up the samples.
pub fn total(samples: &Vec<u64>) -> (sum: u128)
    ensures
        sum == sum_of(samples@),
{
    let mut sum: u128 = 0;
    let mut i: usize = 0;
    assert(samples@.subrange(0, 0) =~= Seq::<u64>::empty());
    while i < samples.len()
        invariant
            i <= samples.len(),
            sum == sum_of(samples@.subrange(0, i as int)),
        decreases samples.len() - i,
    {
        proof {
            let next = samples@.subrange(0, i + 1);
            assert(next.drop_last() =~= samples@.subrange(0, i as int));
            lemma_sum_bounds(next);
            assert(next.len() * u64::MAX <= usize::MAX * u64::MAX) by (nonlinear_arith)
                requires
                    next.len() <= usize::MAX,
            ;
            assert(usize::MAX * u64::MAX <= u64::MAX * u64::MAX) by (nonlinear_arith)
                requires
                    usize::MAX <= u64::MAX,
            ;
        }
        sum = sum + samples[i] as u128;
        i = i + 1;
    }
    assert(samples@.subrange(0, i as int) =~= samples@);
    sum
}

/// Summarises a run of at least one trial: count, sum, mean and the three
/// nearest-rank percentiles. The percentiles are samples of the run, taken
/// from the ascending arrangement without interpolation.
pub fn summarize(samples: &Vec<u64>) -> (r: TrialSummary)
    requires
        samples.len() >= 1,
    ensures
        r == summary_of(samples@),
        r.p50_ns <= r.p95_ns <= r.p99_ns,
{
    let n: usize = samples.len();
    let sum: u128 = total(samples);
    let sorted: Vec<u64> = sort_samples(samples);
    let at: PercentileIndices = percentile_indices(n);
    proof {
        lemma_ascending(samples@);
        lemma_sum_bounds(samples@);
        assert(sum_of(samples@) / (n as int) <= u64::MAX) by (nonlinear_arith)
            requires
                0 <= sum_of(samples@) <= n * u64::MAX,
                n >= 1,
        ;
        assert(at.p50 < at.p95 ==> sample_order()(sorted@[at.p50 as int], sorted@[at.p95 as int]));
        assert(at.p95 < at.p99 ==> sample_order()(sorted@[at.p95 as int], sorted@[at.p99 as int]));
    }
    TrialSummary {
        trials: n,
        total_ns: sum,
        average_ns: (sum / n as u128) as u64,
        p50_ns: sorted[at.p50],
        p95_ns: sorted[at.p95],
        p99_ns: sorted[at.p99],
    }
}

/// `numer * scale / denom`, rounded down.
pub open spec fn scaled_quotient(numer: int, scale: int, denom: int) -> int {
    numer * scale / denom
}

/// Computes `numer * scale / denom` rounded down, where the divisor is not
/// zero and the quotient fits in 64 bits.
pub fn scaled_ratio(numer: u64, scale: u64, denom: u64) -> (r: Option<u64>)
    ensures
        r.is_some() <==> denom > 0 && scaled_quotient(numer as int, scale as int, denom as int)
            <= u64::MAX,
        r.is_some() ==> r.unwrap() == scaled_quotient(numer as int, scale as int, denom as int),
{
    if denom == 0 {
        return None;
    }
    assert(0 <= numer * scale <= u64::MAX * u64::MAX) by (nonlinear_arith)
        requires
            0 <= numer <= u64::MAX,
            0 <= scale <= u64::MAX,
    ;
    let product: u128 = numer as u128 * scale as u128;
    let quotient: u128 = product / denom as u128;
    if quotient > u64::MAX as u128 {
        None
    } else {
        Some(quotient as u64)
    }
}

/// A count per nanosecond is this many millionths of a count per second:
/// a billion nanoseconds to the second, a million millionths to the unit.
pub const MILLIONTHS_PER_SECOND: u64 = 1_000_000_000_000_000;

/// A duration in nanoseconds as a decimal number of milliseconds.
pub open spec fn as_millis(ns: u64) -> Decimal {
    Decimal { millionths: ns }
}

/// The rate per second at which `count` units pass when they take
/// `average_ns` nanoseconds together: `count * 1000 / average` with the
/// average in milliseconds, to six decimals, rounded down. There is none
/// where the average is zero or the rate does not fit.
pub open spec fn per_second(count: int, average_ns: int) -> Option<Decimal> {
    let rate = scaled_quotient(count, MILLIONTHS_PER_SECOND as int, average_ns);
    if average_ns > 0 && rate <= u64::MAX {
        Some(Decimal { millionths: rate as u64 })
    } else {
        None
    }
}

/// A duration in nanoseconds as a decimal number of milliseconds.
pub fn millis(ns: u64) -> (d: Decimal)
    ensures
        d == as_millis(ns),
{
    Decimal { millionths: ns }
}

/// Computes the rate per second of `count` units in `average_ns` nanoseconds.
pub fn rate_per_second(count: u64, average_ns: u64) -> (r: Option<Decimal>)
    ensures
        r == per_second(count as int, average_ns as int),
{
    match scaled_ratio(count, MILLIONTHS_PER_SECOND, average_ns) {
        Some(rate) => Some(Decimal { millionths: rate }),
        None => None,
    }
}

/// `numer / denom` to six decimals, rounded down, where the divisor is not
/// zero and the quotient fits.
pub open spec fn ratio(numer: int, denom: int) -> Option<Decimal> {
    let q = scaled_quotient(numer, 1_000_000, denom);
    if denom > 0 && q <= u64::MAX {
        Some(Decimal { millionths: q as u64 })
    } else {
        None
    }
}

/// Computes `numer / denom` to six decimals.
pub fn decimal_ratio(numer: u64, denom: u64) -> (r: Option<Decimal>)
    ensures
        r == ratio(numer as int, denom as int),
{
    match scaled_ratio(numer, 1_000_000, denom) {
        Some(q) => Some(Decimal { millionths: q }),
        None => None,
    }
}

} // verus!
