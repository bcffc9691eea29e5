//! The encryption target: AES-256-GCM encryption and decryption.

use vstd::prelude::*;
use crate::adapters::name_of;
use crate::adapters::description_of;
use crate::adapters::TargetKind;
use crate::adapters::TargetView;
use crate::clock::Timestamp;
use crate::metrics::empty_metrics;
use crate::metrics::flatten;
use crate::metrics::is_well_known;
use crate::metrics::lemma_well_known_shape;
use crate::metrics::with_real;
use crate::metrics::Decimal;
use crate::metrics::MetricValue;
use crate::metrics::MetricView;
use crate::metrics::MetricsView;
use crate::metrics::StandardMetrics;
use crate::result::BenchmarkResult;
use crate::stats::as_millis;
use crate::stats::millis;
use crate::stats::per_second;
use crate::stats::rate_per_second;
use crate::stats::summarize;
use crate::stats::summary_of;
use crate::stats::TrialSummary;
use crate::text::append_decimal;
use crate::text::decimal;

verus! {

/// A target that measures authenticated encryption and decryption of one payload.
#[derive(Clone, Debug)]
pub struct EncryptionBenchmark {
    data_size: usize,
    id: String,
    iterations: usize,
}

impl View for EncryptionBenchmark {
    type V = TargetView;

    closed spec fn view(&self) -> TargetView {
        TargetView {
            id: self.id@,
            size: self.data_size as nat,
            iterations: self.iterations as nat,
            kind: TargetKind::Encryption,
        }
    }
}

/// The sum of two durations as milliseconds, where it fits.
pub open spec fn summed_millis(a: u64, b: u64) -> Option<Decimal> {
    if a + b <= u64::MAX {
        Some(as_millis((a + b) as u64))
    } else {
        None
    }
}

/// The custom values of an encryption report.
pub open spec fn encryption_custom(size: nat, encrypt_ns: u64, decrypt_ns: u64) -> Map<
    Seq<char>,
    MetricView,
> {
    let m0 = Map::<Seq<char>, MetricView>::empty().insert(
        "encrypt_avg_ms"@,
        MetricView::Real(encrypt_ns),
    ).insert("decrypt_avg_ms"@, MetricView::Real(decrypt_ns)).insert(
        "algorithm"@,
        MetricView::Text("AES-256-GCM"@),
    );
    let m1 = with_real(m0, "encrypt_throughput_bps"@, per_second(size as int, encrypt_ns as int));
    with_real(m1, "decrypt_throughput_bps"@, per_second(size as int, decrypt_ns as int))
}

/// What an encryption target reports for the samples of its trials, in
/// nanoseconds: the two means together as duration, payload size and trial
/// count, the encryption's bytes per second and percentiles, and under names
/// of their own both means, both rates and the algorithm.
pub open spec fn encryption_report(size: nat, encrypt: Seq<u64>, decrypt: Seq<u64>) -> MetricsView {
    let e = summary_of(encrypt);
    let d = summary_of(decrypt);
    MetricsView {
        duration_ms: summed_millis(e.average_ns, d.average_ns),
        data_size_bytes: Some(size as u64),
        iterations: Some(encrypt.len() as u64),
        bytes_per_second: per_second(size as int, e.average_ns as int),
        latency_p50_ms: Some(as_millis(e.p50_ns)),
        latency_p95_ms: Some(as_millis(e.p95_ns)),
        latency_p99_ms: Some(as_millis(e.p99_ns)),
        custom: encryption_custom(size, e.average_ns, d.average_ns),
        ..empty_metrics()
    }
}

/// The pairs that bind a ciphertext to its run: the marker and the payload size in decimal.
pub open spec fn context_of(size: nat) -> Seq<(Seq<char>, Seq<char>)> {
    seq![("benchmark"@, "true"@), ("data_size"@, decimal(size))]
}

impl EncryptionBenchmark {
    /// A target over `data_size` bytes, with 100 trials.
    pub fn new(data_size: usize, id: &str) -> (r: EncryptionBenchmark)
        ensures
            r@ == (TargetView {
                id: id@,
                size: data_size as nat,
                iterations: 100,
                kind: TargetKind::Encryption,
            }),
    {
        EncryptionBenchmark { data_size, id: id.to_owned(), iterations: 100 }
    }

    /// The same target with another number of trials.
    pub fn with_iterations(self, iterations: usize) -> (r: EncryptionBenchmark)
        ensures
            r@ == (TargetView { iterations: iterations as nat, ..self@ }),
    {
        let mut r = self;
        r.iterations = iterations;
        r
    }

    /// Identifier of the target.
    pub fn id(&self) -> (id: &str)
        ensures
            id@ == self@.id,
    {
        self.id.as_str()
    }

    /// Display name of the target.
    pub fn name(&self) -> (name: &'static str)
        ensures
            name@ == name_of(self@.kind),
            name@ == "AES-256-GCM Encryption"@,
    {
        "AES-256-GCM Encryption"
    }

    /// What the target measures, in a sentence.
    pub fn description(&self) -> (text: &'static str)
        ensures
            text@ == description_of(self@.kind),
            text@ == "Measures AES-256-GCM encryption and decryption throughput"@,
    {
        "Measures AES-256-GCM encryption and decryption throughput"
    }

    /// Payload size in bytes.
    pub fn data_size(&self) -> (n: usize)
        ensures
            n == self@.size,
    {
        self.data_size
    }

    /// Number of timed trials.
    pub fn iterations(&self) -> (n: usize)
        ensures
            n == self@.iterations,
    {
        self.iterations
    }

    /// The name and value pairs that are authenticated with every ciphertext.
    pub fn context(&self) -> (pairs: Vec<(String, String)>)
        ensures
            pairs@.len() == 2,
            forall|i: int|
                0 <= i < 2 ==> (#[trigger] pairs@[i]).0@ == context_of(self@.size)[i].0
                    && pairs@[i].1@ == context_of(self@.size)[i].1,
    {
        let mut size_text = String::new();
        append_decimal(&mut size_text, self.data_size as u64);
        assert(size_text@ =~= decimal(self.data_size as nat));
        let mut pairs: Vec<(String, String)> = Vec::new();
        pairs.push(("benchmark".to_owned(), "true".to_owned()));
        pairs.push(("data_size".to_owned(), size_text));
        pairs
    }

    /// The measurements of a run, from the durations of each trial's
    /// encryption and decryption in nanoseconds.
    pub fn measure(&self, encrypt: &Vec<u64>, decrypt: &Vec<u64>) -> (m: StandardMetrics)
        requires
            encrypt.len() >= 1,
            decrypt.len() >= 1,
        ensures
            m.wf(),
            m@ == encryption_report(self@.size, encrypt@, decrypt@),
    {
        let e: TrialSummary = summarize(encrypt);
        let d: TrialSummary = summarize(decrypt);
        proof {
            reveal_strlit("encrypt_avg_ms");
            reveal_strlit("decrypt_avg_ms");
            reveal_strlit("algorithm");
            reveal_strlit("encrypt_throughput_bps");
            reveal_strlit("decrypt_throughput_bps");
            if is_well_known("encrypt_avg_ms"@) {
                lemma_well_known_shape("encrypt_avg_ms"@);
            }
            if is_well_known("decrypt_avg_ms"@) {
                lemma_well_known_shape("decrypt_avg_ms"@);
            }
            if is_well_known("algorithm"@) {
                lemma_well_known_shape("algorithm"@);
            }
            if is_well_known("encrypt_throughput_bps"@) {
                lemma_well_known_shape("encrypt_throughput_bps"@);
            }
            if is_well_known("decrypt_throughput_bps"@) {
                lemma_well_known_shape("decrypt_throughput_bps"@);
            }
        }
        let mut m = StandardMetrics::new().with_data_size(self.data_size as u64).with_iterations(
            encrypt.len() as u64,
        ).with_latencies(millis(e.p50_ns), millis(e.p95_ns), millis(e.p99_ns)).with_custom(
            "encrypt_avg_ms",
            MetricValue::Real(millis(e.average_ns)),
        ).with_custom("decrypt_avg_ms", MetricValue::Real(millis(d.average_ns))).with_custom(
            "algorithm",
            MetricValue::text("AES-256-GCM"),
        );
        if let Some(both) = e.average_ns.checked_add(d.average_ns) {
            m = m.with_duration_ms(millis(both));
        }
        if let Some(rate) = rate_per_second(self.data_size as u64, e.average_ns) {
            m = m.with_bytes_per_second(rate).with_custom(
                "encrypt_throughput_bps",
                MetricValue::Real(rate),
            );
        }
        if let Some(rate) = rate_per_second(self.data_size as u64, d.average_ns) {
            m = m.with_custom("decrypt_throughput_bps", MetricValue::Real(rate));
        }
        m
    }

    /// The record of a run that completed at `timestamp`.
    pub fn complete(&self, encrypt: &Vec<u64>, decrypt: &Vec<u64>, timestamp: Timestamp) -> (r:
        BenchmarkResult)
        requires
            encrypt.len() >= 1,
            decrypt.len() >= 1,
        ensures
            r.target_id@ == self@.id,
            r.timestamp == timestamp,
            r.metrics@ == flatten(encryption_report(self@.size, encrypt@, decrypt@)),
    {
        let m = self.measure(encrypt, decrypt);
        BenchmarkResult::with_timestamp(self.id.as_str(), m.to_json_value(), timestamp)
    }
}

} // verus!
