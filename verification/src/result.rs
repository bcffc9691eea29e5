//! The outcome of one run of one target.

use vstd::prelude::*;
use crate::clock::system_now;
use crate::clock::Timestamp;
use crate::metrics::MetricMap;

verus! {

/// The outcome of one run: which target ran, what was measured, and when
/// the run completed.
#[derive(Clone, Debug)]
pub struct BenchmarkResult {
    /// Identifier of the target.
    pub target_id: String,
    /// Measurements of the run.
    pub metrics: MetricMap,
    /// When the run completed.
    pub timestamp: Timestamp,
}

impl BenchmarkResult {
    /// A record of a run that completed now. The timestamp is whatever the
    /// system clock says.
    pub fn new(target_id: &str, metrics: MetricMap) -> (r: BenchmarkResult)
        ensures
            r.target_id@ == target_id@,
            r.metrics == metrics,
    {
        BenchmarkResult::with_timestamp(target_id, metrics, system_now())
    }

    /// A record of a run that completed at `timestamp`.
    pub fn with_timestamp(target_id: &str, metrics: MetricMap, timestamp: Timestamp) -> (r:
        BenchmarkResult)
        ensures
            r.target_id@ == target_id@,
            r.metrics == metrics,
            r.timestamp == timestamp,
    {
        BenchmarkResult { target_id: target_id.to_owned(), metrics, timestamp }
    }

    /// Identifier of the target.
    pub fn target_id(&self) -> (id: &str)
        ensures
            id@ == self.target_id@,
    {
        self.target_id.as_str()
    }

    /// Measurements of the run.
    pub fn metrics(&self) -> (m: &MetricMap)
        ensures
            *m == self.metrics,
    {
        &self.metrics
    }

    /// When the run completed.
    pub fn timestamp(&self) -> (t: Timestamp)
        ensures
            t == self.timestamp,
    {
        self.timestamp
    }

    /// Whether two records name the same target, hold the same measurements
    /// and were completed at the same time.
    pub fn same(&self, other: &BenchmarkResult) -> (r: bool)
        ensures
            r == (self.target_id@ == other.target_id@ && self.metrics@ == other.metrics@
                && self.timestamp == other.timestamp),
    {
        self.target_id == other.target_id && self.timestamp.secs == other.timestamp.secs
            && self.timestamp.nanos == other.timestamp.nanos && self.metrics.same(&other.metrics)
    }

    /// A copy with the same identifier, measurements and timestamp.
    pub fn duplicate(&self) -> (r: BenchmarkResult)
        ensures
            r.target_id@ == self.target_id@,
            r.metrics@ == self.metrics@,
            r.metrics.names() == self.metrics.names(),
            r.timestamp == self.timestamp,
    {
        BenchmarkResult {
            target_id: self.target_id.clone(),
            metrics: self.metrics.duplicate(),
            timestamp: self.timestamp,
        }
    }
}

} // verus!
