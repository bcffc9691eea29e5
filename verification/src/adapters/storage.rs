//! Storage targets: writing, reading and content addressing.

use vstd::prelude::*;
use crate::adapters::name_of;
use crate::adapters::description_of;
use crate::adapters::TargetKind;
use crate::adapters::TargetView;
use crate::clock::Timestamp;
use crate::metrics::empty_metrics;
use crate::metrics::flatten;
use crate::metrics::is_well_known;
use crate::metrics::lemma_well_known_shape;
use crate::metrics::with_real;
use crate::metrics::Decimal;
use crate::metrics::MetricValue;
use crate::metrics::MetricView;
use crate::metrics::MetricsView;
use crate::metrics::StandardMetrics;
use crate::result::BenchmarkResult;
use crate::stats::as_millis;
use crate::stats::millis;
use crate::stats::per_second;
use crate::stats::rate_per_second;
use crate::stats::summarize;
use crate::stats::summary_of;
use crate::stats::TrialSummary;
use crate::adapters::StorageOperation;

verus! {

/// A target that measures one operation of the content store.
#[derive(Clone, Debug)]
pub struct StorageBenchmark {
    data_size: usize,
    id: String,
    operation: StorageOperation,
    iterations: usize,
}

impl View for StorageBenchmark {
    type V = TargetView;

    closed spec fn view(&self) -> TargetView {
        TargetView {
            id: self.id@,
            size: self.data_size as nat,
            iterations: self.iterations as nat,
            kind: TargetKind::Storage(self.operation),
        }
    }
}

/// The name under which an operation is reported.
pub open spec fn operation_name(operation: StorageOperation) -> Seq<char> {
    match operation {
        StorageOperation::Write => "write"@,
        StorageOperation::Read => "read"@,
        StorageOperation::ContentAddressing => "content_addressing"@,
    }
}

/// The custom values of a storage report.
pub open spec fn storage_custom(operation: StorageOperation, bytes_rate: Option<Decimal>) -> Map<
    Seq<char>,
    MetricView,
> {
    with_real(
        Map::<Seq<char>, MetricView>::empty().insert(
            "operation"@,
            MetricView::Text(operation_name(operation)),
        ).insert("backend"@, MetricView::Text("in-memory"@)),
        "throughput_bps"@,
        bytes_rate,
    )
}

/// What a storage target reports for the samples of its trials, in
/// nanoseconds: the mean as duration, payload size and trial count, bytes
/// and operations per second, the three percentiles, and under names of
/// their own the operation, the backend and the bytes per second once more.
pub open spec fn storage_report(size: nat, operation: StorageOperation, samples: Seq<u64>) -> MetricsView {
    let s = summary_of(samples);
    let bytes_rate = per_second(size as int, s.average_ns as int);
    MetricsView {
        duration_ms: Some(as_millis(s.average_ns)),
        data_size_bytes: Some(size as u64),
        iterations: Some(samples.len() as u64),
        bytes_per_second: bytes_rate,
        ops_per_second: per_second(1, s.average_ns as int),
        latency_p50_ms: Some(as_millis(s.p50_ns)),
        latency_p95_ms: Some(as_millis(s.p95_ns)),
        latency_p99_ms: Some(as_millis(s.p99_ns)),
        custom: storage_custom(operation, bytes_rate),
        ..empty_metrics()
    }
}

/// The payload of trial `trial`: the base payload with its first byte, and
/// its second where there is one, replaced by the low and the next byte of
/// the trial's number.
pub open spec fn unique_payload(base: Seq<u8>, trial: nat) -> Seq<u8> {
    let first = base.update(0, (trial % 256) as u8);
    if base.len() > 1 {
        first.update(1, ((trial / 256) % 256) as u8)
    } else {
        first
    }
}

/// No two of the first 65536 trials work on the same payload, where the
/// payload has at least two bytes.
pub proof fn lemma_unique_payloads(base: Seq<u8>, a: nat, b: nat)
    requires
        base.len() >= 2,
        a < b < 65536,
    ensures
        unique_payload(base, a) != unique_payload(base, b),
{
    let x = unique_payload(base, a);
    let y = unique_payload(base, b);
    if a % 256 == b % 256 {
        assert(a / 256 != b / 256);
        assert(x[1] != y[1]);
    } else {
        assert(x[0] != y[0]);
    }
}

impl StorageBenchmark {
    /// A write target over `data_size` bytes, with 100 trials.
    pub fn write(data_size: usize, id: &str) -> (r: StorageBenchmark)
        ensures
            r@ == (TargetView {
                id: id@,
                size: data_size as nat,
                iterations: 100,
                kind: TargetKind::Storage(StorageOperation::Write),
            }),
    {
        StorageBenchmark {
            data_size,
            id: id.to_owned(),
            operation: StorageOperation::Write,
            iterations: 100,
        }
    }

    /// A read target over `data_size` bytes, with 100 trials.
    pub fn read(data_size: usize, id: &str) -> (r: StorageBenchmark)
        ensures
            r@ == (TargetView {
                id: id@,
                size: data_size as nat,
                iterations: 100,
                kind: TargetKind::Storage(StorageOperation::Read),
            }),
    {
        StorageBenchmark {
            data_size,
            id: id.to_owned(),
            operation: StorageOperation::Read,
            iterations: 100,
        }
    }

    /// A content addressing target over `data_size` bytes, with 100 trials.
    pub fn content_addressing(data_size: usize, id: &str) -> (r: StorageBenchmark)
        ensures
            r@ == (TargetView {
                id: id@,
                size: data_size as nat,
                iterations: 100,
                kind: TargetKind::Storage(StorageOperation::ContentAddressing),
            }),
    {
        StorageBenchmark {
            data_size,
            id: id.to_owned(),
            operation: StorageOperation::ContentAddressing,
            iterations: 100,
        }
    }

    /// The same target with another number of trials.
    pub fn with_iterations(self, iterations: usize) -> (r: StorageBenchmark)
        ensures
            r@ == (TargetView { iterations: iterations as nat, ..self@ }),
    {
        let mut r = self;
        r.iterations = iterations;
        r
    }

    /// Identifier of the target.
    pub fn id(&self) -> (id: &str)
        ensures
            id@ == self@.id,
    {
        self.id.as_str()
    }

    /// Display name of the target.
    pub fn name(&self) -> (name: &'static str)
        ensures
            name@ == name_of(self@.kind),
            name@ == match self@.kind {
                TargetKind::Storage(StorageOperation::Write) => "Storage Write"@,
                TargetKind::Storage(StorageOperation::Read) => "Storage Read"@,
                _ => "Content Addressing"@,
            },
    {
        match self.operation {
            StorageOperation::Write => "Storage Write",
            StorageOperation::Read => "Storage Read",
            StorageOperation::ContentAddressing => "Content Addressing",
        }
    }

    /// What the target measures, in a sentence.
    pub fn description(&self) -> (text: &'static str)
        ensures
            text@ == description_of(self@.kind),
            text@ == match self@.kind {
                TargetKind::Storage(StorageOperation::Write) => "Measures storage write throughput"@,
                TargetKind::Storage(StorageOperation::Read) => "Measures storage read throughput"@,
                _ => "Measures content addressing (hash + store) throughput"@,
            },
    {
        match self.operation {
            StorageOperation::Write => "Measures storage write throughput",
            StorageOperation::Read => "Measures storage read throughput",
            StorageOperation::ContentAddressing => "Measures content addressing (hash + store) throughput",
        }
    }

    /// Payload size in bytes.
    pub fn data_size(&self) -> (n: usize)
        ensures
            n == self@.size,
    {
        self.data_size
    }

    /// Number of timed trials.
    pub fn iterations(&self) -> (n: usize)
        ensures
            n == self@.iterations,
    {
        self.iterations
    }

    /// Which operation is measured.
    pub fn operation(&self) -> (k: StorageOperation)
        ensures
            self@.kind == TargetKind::Storage(k),
    {
        self.operation
    }

    /// The payload that trial number `trial` stores or addresses.
    pub fn trial_payload(base: &Vec<u8>, trial: usize) -> (data: Vec<u8>)
        requires
            base.len() >= 1,
        ensures
            data@ == unique_payload(base@, trial as nat),
    {
        let mut data: Vec<u8> = base.clone();
        data.set(0, (trial % 256) as u8);
        if data.len() > 1 {
            data.set(1, ((trial / 256) % 256) as u8);
        }
        data
    }

    /// The measurements of a run, from the duration of each trial in nanoseconds.
    pub fn measure(&self, samples: &Vec<u64>) -> (m: StandardMetrics)
        requires
            samples.len() >= 1,
        ensures
            m.wf(),
            self@.kind matches TargetKind::Storage(k) && m@ == storage_report(
                self@.size,
                k,
                samples@,
            ),
    {
        let s: TrialSummary = summarize(samples);
        let bytes_rate = rate_per_second(self.data_size as u64, s.average_ns);
        let operation: &'static str = match self.operation {
            StorageOperation::Write => "write",
            StorageOperation::Read => "read",
            StorageOperation::ContentAddressing => "content_addressing",
        };
        proof {
            reveal_strlit("operation");
            reveal_strlit("backend");
            reveal_strlit("throughput_bps");
            if is_well_known("operation"@) {
                lemma_well_known_shape("operation"@);
            }
            if is_well_known("backend"@) {
                lemma_well_known_shape("backend"@);
            }
            if is_well_known("throughput_bps"@) {
                lemma_well_known_shape("throughput_bps"@);
            }
        }
        let mut m = StandardMetrics::new().with_duration_ms(millis(s.average_ns)).with_data_size(
            self.data_size as u64,
        ).with_iterations(samples.len() as u64).with_latencies(
            millis(s.p50_ns),
            millis(s.p95_ns),
            millis(s.p99_ns),
        ).with_custom("operation", MetricValue::text(operation)).with_custom(
            "backend",
            MetricValue::text("in-memory"),
        );
        if let Some(rate) = bytes_rate {
            m = m.with_bytes_per_second(rate).with_custom("throughput_bps", MetricValue::Real(rate));
        }
        if let Some(rate) = rate_per_second(1, s.average_ns) {
            m = m.with_ops_per_second(rate);
        }
        m
    }

    /// The record of a run that completed at `timestamp`, from the duration
    /// of each trial in nanoseconds.
    pub fn complete(&self, samples: &Vec<u64>, timestamp: Timestamp) -> (r: BenchmarkResult)
        requires
            samples.len() >= 1,
        ensures
            r.target_id@ == self@.id,
            r.timestamp == timestamp,
            self@.kind matches TargetKind::Storage(k) && r.metrics@ == flatten(
                storage_report(self@.size, k, samples@),
            ),
    {
        let m = self.measure(samples);
        BenchmarkResult::with_timestamp(self.id.as_str(), m.to_json_value(), timestamp)
    }
}

} // verus!
