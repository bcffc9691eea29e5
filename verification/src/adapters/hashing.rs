//! Hashing targets: BLAKE3, SHA-256 and checksum verification.

use vstd::prelude::*;
use crate::adapters::HashType;
use crate::adapters::name_of;
use crate::adapters::description_of;
use crate::adapters::TargetKind;
use crate::adapters::TargetView;
use crate::clock::Timestamp;
use crate::metrics::empty_metrics;
use crate::metrics::flatten;
use crate::metrics::is_well_known;
use crate::metrics::lemma_well_known_shape;
use crate::metrics::with_real;
use crate::metrics::MetricValue;
use crate::metrics::MetricView;
use crate::metrics::MetricsView;
use crate::metrics::StandardMetrics;
use crate::result::BenchmarkResult;
use crate::stats::as_millis;
use crate::stats::millis;
use crate::stats::per_second;
use crate::stats::rate_per_second;
use crate::stats::summarize;
use crate::stats::summary_of;
use crate::stats::TrialSummary;

verus! {

/// A target that measures how fast one kind of hash is computed.
#[derive(Clone, Debug)]
pub struct HashingBenchmark {
    data_size: usize,
    id: String,
    hash_type: HashType,
    iterations: usize,
}

impl View for HashingBenchmark {
    type V = TargetView;

    closed spec fn view(&self) -> TargetView {
        TargetView {
            id: self.id@,
            size: self.data_size as nat,
            iterations: self.iterations as nat,
            kind: TargetKind::Hashing(self.hash_type),
        }
    }
}

/// The name under which an algorithm is reported.
pub open spec fn algorithm_name(hash_type: HashType) -> Seq<char> {
    match hash_type {
        HashType::Blake3 => "BLAKE3"@,
        HashType::Sha256 => "SHA-256"@,
        HashType::Checksum => "BLAKE3-Checksum"@,
    }
}

/// What a hashing target reports for the samples of its trials, in
/// nanoseconds: the mean as duration, payload size and trial count, bytes
/// and operations per second, the three percentiles, and under names of its
/// own the algorithm and the bytes per second once more.
pub open spec fn hashing_report(size: nat, hash_type: HashType, samples: Seq<u64>) -> MetricsView {
    let s = summary_of(samples);
    let bytes_rate = per_second(size as int, s.average_ns as int);
    MetricsView {
        duration_ms: Some(as_millis(s.average_ns)),
        data_size_bytes: Some(size as u64),
        iterations: Some(samples.len() as u64),
        bytes_per_second: bytes_rate,
        ops_per_second: per_second(1, s.average_ns as int),
        latency_p50_ms: Some(as_millis(s.p50_ns)),
        latency_p95_ms: Some(as_millis(s.p95_ns)),
        latency_p99_ms: Some(as_millis(s.p99_ns)),
        custom: with_real(
            Map::<Seq<char>, MetricView>::empty().insert(
                "algorithm"@,
                MetricView::Text(algorithm_name(hash_type)),
            ),
            "throughput_bps"@,
            bytes_rate,
        ),
        ..empty_metrics()
    }
}

impl HashingBenchmark {
    /// A BLAKE3 target over `data_size` bytes, with 1000 trials.
    pub fn blake3(data_size: usize, id: &str) -> (r: HashingBenchmark)
        ensures
            r@ == (TargetView {
                id: id@,
                size: data_size as nat,
                iterations: 1000,
                kind: TargetKind::Hashing(HashType::Blake3),
            }),
    {
        HashingBenchmark { data_size, id: id.to_owned(), hash_type: HashType::Blake3, iterations: 1000 }
    }

    /// A SHA-256 target over `data_size` bytes, with 1000 trials.
    pub fn sha256(data_size: usize, id: &str) -> (r: HashingBenchmark)
        ensures
            r@ == (TargetView {
                id: id@,
                size: data_size as nat,
                iterations: 1000,
                kind: TargetKind::Hashing(HashType::Sha256),
            }),
    {
        HashingBenchmark { data_size, id: id.to_owned(), hash_type: HashType::Sha256, iterations: 1000 }
    }

    /// A checksum verification target over `data_size` bytes, with 1000 trials.
    pub fn checksum(data_size: usize, id: &str) -> (r: HashingBenchmark)
        ensures
            r@ == (TargetView {
                id: id@,
                size: data_size as nat,
                iterations: 1000,
                kind: TargetKind::Hashing(HashType::Checksum),
            }),
    {
        HashingBenchmark {
            data_size,
            id: id.to_owned(),
            hash_type: HashType::Checksum,
            iterations: 1000,
        }
    }

    /// The same target with another number of trials.
    pub fn with_iterations(self, iterations: usize) -> (r: HashingBenchmark)
        ensures
            r@ == (TargetView { iterations: iterations as nat, ..self@ }),
    {
        let mut r = self;
        r.iterations = iterations;
        r
    }

    /// Identifier of the target.
    pub fn id(&self) -> (id: &str)
        ensures
            id@ == self@.id,
    {
        self.id.as_str()
    }

    /// Display name of the target.
    pub fn name(&self) -> (name: &'static str)
        ensures
            name@ == name_of(self@.kind),
            name@ == match self@.kind {
                TargetKind::Hashing(HashType::Blake3) => "BLAKE3 Hashing"@,
                TargetKind::Hashing(HashType::Sha256) => "SHA-256 Hashing"@,
                _ => "Checksum Verification"@,
            },
    {
        match self.hash_type {
            HashType::Blake3 => "BLAKE3 Hashing",
            HashType::Sha256 => "SHA-256 Hashing",
            HashType::Checksum => "Checksum Verification",
        }
    }

    /// What the target measures, in a sentence.
    pub fn description(&self) -> (text: &'static str)
        ensures
            text@ == description_of(self@.kind),
            text@ == match self@.kind {
                TargetKind::Hashing(HashType::Blake3) => "Measures BLAKE3 hashing throughput"@,
                TargetKind::Hashing(HashType::Sha256) => "Measures SHA-256 hashing throughput"@,
                _ => "Measures checksum computation and verification"@,
            },
    {
        match self.hash_type {
            HashType::Blake3 => "Measures BLAKE3 hashing throughput",
            HashType::Sha256 => "Measures SHA-256 hashing throughput",
            HashType::Checksum => "Measures checksum computation and verification",
        }
    }

    /// Payload size in bytes.
    pub fn data_size(&self) -> (n: usize)
        ensures
            n == self@.size,
    {
        self.data_size
    }

    /// Number of timed trials.
    pub fn iterations(&self) -> (n: usize)
        ensures
            n == self@.iterations,
    {
        self.iterations
    }

    /// Which hash is measured.
    pub fn hash_type(&self) -> (k: HashType)
        ensures
            self@.kind == TargetKind::Hashing(k),
    {
        self.hash_type
    }

    /// The measurements of a run, from the duration of each trial in nanoseconds.
    pub fn measure(&self, samples: &Vec<u64>) -> (m: StandardMetrics)
        requires
            samples.len() >= 1,
        ensures
            m.wf(),
            self@.kind matches TargetKind::Hashing(k) && m@ == hashing_report(
                self@.size,
                k,
                samples@,
            ),
    {
        let s: TrialSummary = summarize(samples);
        let bytes_rate = rate_per_second(self.data_size as u64, s.average_ns);
        let algorithm: &'static str = match self.hash_type {
            HashType::Blake3 => "BLAKE3",
            HashType::Sha256 => "SHA-256",
            HashType::Checksum => "BLAKE3-Checksum",
        };
        proof {
            reveal_strlit("algorithm");
            reveal_strlit("throughput_bps");
            if is_well_known("algorithm"@) {
                lemma_well_known_shape("algorithm"@);
            }
            if is_well_known("throughput_bps"@) {
                lemma_well_known_shape("throughput_bps"@);
            }
        }
        let mut m = StandardMetrics::new().with_duration_ms(millis(s.average_ns)).with_data_size(
            self.data_size as u64,
        ).with_iterations(samples.len() as u64).with_latencies(
            millis(s.p50_ns),
            millis(s.p95_ns),
            millis(s.p99_ns),
        ).with_custom("algorithm", MetricValue::text(algorithm));
        if let Some(rate) = bytes_rate {
            m = m.with_bytes_per_second(rate).with_custom("throughput_bps", MetricValue::Real(rate));
        }
        if let Some(rate) = rate_per_second(1, s.average_ns) {
            m = m.with_ops_per_second(rate);
        }
        m
    }

    /// The record of a run that completed at `timestamp`, from the duration
    /// of each trial in nanoseconds.
    pub fn complete(&self, samples: &Vec<u64>, timestamp: Timestamp) -> (r: BenchmarkResult)
        requires
            samples.len() >= 1,
        ensures
            r.target_id@ == self@.id,
            r.timestamp == timestamp,
            self@.kind matches TargetKind::Hashing(k) && r.metrics@ == flatten(
                hashing_report(self@.size, k, samples@),
            ),
    {
        let m = self.measure(samples);
        BenchmarkResult::with_timestamp(self.id.as_str(), m.to_json_value(), timestamp)
    }
}

} // verus!
