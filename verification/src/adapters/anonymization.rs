//! Anonymization targets: detection, anonymization of text and of
//! structured documents, and the synthetic records they work on.

use vstd::prelude::*;
use vstd::string::StringExecFns;
use crate::adapters::AnonymizationType;
use crate::adapters::name_of;
use crate::adapters::description_of;
use crate::adapters::TargetKind;
use crate::adapters::TargetView;
use crate::clock::Timestamp;
use crate::metrics::empty_metrics;
use crate::metrics::flatten;
use crate::metrics::is_well_known;
use crate::metrics::lemma_well_known_shape;
use crate::metrics::with_real;
use crate::metrics::Decimal;
use crate::metrics::MetricValue;
use crate::metrics::MetricView;
use crate::metrics::MetricsView;
use crate::metrics::StandardMetrics;
use crate::result::BenchmarkResult;
use crate::stats::as_millis;
use crate::stats::decimal_ratio;
use crate::stats::millis;
use crate::stats::per_second;
use crate::stats::rate_per_second;
use crate::stats::ratio;
use crate::stats::summarize;
use crate::stats::summary_of;
use crate::stats::TrialSummary;
use crate::text::append_decimal;
use crate::text::append_zero_padded;
use crate::text::decimal;
use crate::text::zero_padded;

verus! {

/// A target that measures detection or anonymization over a batch of records.
#[derive(Clone, Debug)]
pub struct AnonymizationBenchmark {
    record_count: usize,
    id: String,
    benchmark_type: AnonymizationType,
    iterations: usize,
}

impl View for AnonymizationBenchmark {
    type V = TargetView;

    closed spec fn view(&self) -> TargetView {
        TargetView {
            id: self.id@,
            size: self.record_count as nat,
            iterations: self.iterations as nat,
            kind: TargetKind::Anonymization(self.benchmark_type),
        }
    }
}

/// What the measured operation counted over all trials of a run.
#[derive(Clone, Copy, Debug, PartialEq, Eq, Structural)]
pub struct Counters {
    /// Bytes in one batch of records.
    pub total_bytes: u64,
    /// Sensitive items found.
    pub total_pii_found: u64,
    /// Sensitive items replaced.
    pub total_anonymized: u64,
}

/// The telephone number of record `i`: `555-` and two groups of four digits.
pub open spec fn phone_text(i: nat) -> Seq<char> {
    "555-"@ + zero_padded(i % 10000, 4) + "-"@ + zero_padded((i + 1234) % 10000, 4)
}

/// The social security number of record `i`: groups of three, two and four digits.
pub open spec fn ssn_text(i: nat) -> Seq<char> {
    zero_padded(i % 900 + 100, 3) + "-"@ + zero_padded(i % 90 + 10, 2) + "-"@ + zero_padded(
        i % 9000 + 1000,
        4,
    )
}

/// The e-mail address of record `i`.
pub open spec fn email_text(i: nat) -> Seq<char> {
    "john.doe"@ + decimal(i) + "@example.com"@
}

/// The text of record `i`: a sentence that holds an e-mail address, a
/// telephone number, a social security number and a street address.
pub open spec fn record_text(i: nat) -> Seq<char> {
    "Record "@ + decimal(i) + ": Contact "@ + email_text(i) + " or call "@ + phone_text(i)
        + ". SSN: "@ + ssn_text(i) + ". Address: "@ + decimal(i % 900 + 100)
        + " Main St, City, ST "@ + decimal(i % 90000 + 10000)
}

/// The fields of the structured record `i`.
pub struct JsonRecordView {
    pub id: nat,
    pub name: Seq<char>,
    pub email: Seq<char>,
    pub phone: Seq<char>,
    pub ssn: Seq<char>,
    pub created_at: Seq<char>,
    pub ip_address: Seq<char>,
}

/// The structured record `i`.
pub open spec fn json_record(i: nat) -> JsonRecordView {
    JsonRecordView {
        id: i,
        name: name_text(i),
        email: email_text(i),
        phone: phone_text(i),
        ssn: ssn_text(i),
        created_at: "2024-01-01T00:00:00Z"@,
        ip_address: ip_text(i),
    }
}

/// One structured test record: a user with name, e-mail address, telephone
/// and social security number, and the metadata of the document.
#[derive(Clone, Debug)]
pub struct JsonRecord {
    pub id: u64,
    pub name: String,
    pub email: String,
    pub phone: String,
    pub ssn: String,
    pub created_at: String,
    pub ip_address: String,
}

impl View for JsonRecord {
    type V = JsonRecordView;

    open spec fn view(&self) -> JsonRecordView {
        JsonRecordView {
            id: self.id as nat,
            name: self.name@,
            email: self.email@,
            phone: self.phone@,
            ssn: self.ssn@,
            created_at: self.created_at@,
            ip_address: self.ip_address@,
        }
    }
}

/// Sensitive items per record and trial, where the number of records times
/// the number of trials fits and is not zero.
pub open spec fn pii_per_record(total: u64, records: nat, trials: nat) -> Option<Decimal> {
    if records * trials <= u64::MAX {
        ratio(total as int, (records * trials) as int)
    } else {
        None
    }
}

/// The custom values of an anonymization report.
pub open spec fn anonymization_custom(
    records: nat,
    trials: nat,
    counters: Counters,
    average_ns: u64,
) -> Map<Seq<char>, MetricView> {
    let m0 = Map::<Seq<char>, MetricView>::empty().insert(
        "record_count"@,
        MetricView::Count(records as u64),
    ).insert("total_pii_found"@, MetricView::Count(counters.total_pii_found)).insert(
        "total_anonymized"@,
        MetricView::Count(counters.total_anonymized),
    );
    let m1 = with_real(m0, "records_per_second"@, per_second(records as int, average_ns as int));
    with_real(m1, "avg_pii_per_record"@, pii_per_record(counters.total_pii_found, records, trials))
}

/// What an anonymization target reports for the samples of its trials, in
/// nanoseconds, and the counters of the run: the mean as duration, the bytes
/// of a batch and the trial count, records and bytes per second, the three
/// percentiles, and under names of their own the number of records, the
/// records per second once more, and what was found and replaced.
pub open spec fn anonymization_report(records: nat, counters: Counters, samples: Seq<u64>) -> MetricsView {
    let s = summary_of(samples);
    MetricsView {
        duration_ms: Some(as_millis(s.average_ns)),
        data_size_bytes: Some(counters.total_bytes),
        iterations: Some(samples.len() as u64),
        ops_per_second: per_second(records as int, s.average_ns as int),
        bytes_per_second: per_second(counters.total_bytes as int, s.average_ns as int),
        latency_p50_ms: Some(as_millis(s.p50_ns)),
        latency_p95_ms: Some(as_millis(s.p95_ns)),
        latency_p99_ms: Some(as_millis(s.p99_ns)),
        custom: anonymization_custom(records, samples.len(), counters, s.average_ns),
        ..empty_metrics()
    }
}

fn append_phone(out: &mut String, i: u64)
    ensures
        final(out)@ == old(out)@ + phone_text(i as nat),
{
    let first: u64 = i % 10000;
    let second: u64 = (i % 10000 + 1234) % 10000;
    assert(second == (i + 1234) % 10000);
    out.append("555-");
    append_zero_padded(out, first, 4);
    out.append("-");
    append_zero_padded(out, second, 4);
    assert(out@ =~= old(out)@ + ("555-"@ + zero_padded(first as nat, 4) + "-"@ + zero_padded(
        second as nat,
        4,
    )));
}

fn append_ssn(out: &mut String, i: u64)
    ensures
        final(out)@ == old(out)@ + ssn_text(i as nat),
{
    append_zero_padded(out, i % 900 + 100, 3);
    out.append("-");
    append_zero_padded(out, i % 90 + 10, 2);
    out.append("-");
    append_zero_padded(out, i % 9000 + 1000, 4);
    assert(out@ =~= old(out)@ + ssn_text(i as nat));
}

fn append_email(out: &mut String, i: u64)
    ensures
        final(out)@ == old(out)@ + email_text(i as nat),
{
    out.append("john.doe");
    append_decimal(out, i);
    out.append("@example.com");
    assert(out@ =~= old(out)@ + email_text(i as nat));
}

/// Writes the text of record `i`.
pub fn test_record(i: u64) -> (text: String)
    ensures
        text@ == record_text(i as nat),
{
    let mut out = String::new();
    out.append("Record ");
    append_decimal(&mut out, i);
    out.append(": Contact ");
    append_email(&mut out, i);
    out.append(" or call ");
    append_phone(&mut out, i);
    out.append(". SSN: ");
    append_ssn(&mut out, i);
    out.append(". Address: ");
    append_decimal(&mut out, i % 900 + 100);
    out.append(" Main St, City, ST ");
    append_decimal(&mut out, i % 90000 + 10000);
    assert(out@ =~= record_text(i as nat));
    out
}

/// The display name of the user of record `i`.
pub open spec fn name_text(i: nat) -> Seq<char> {
    "John Doe "@ + decimal(i)
}

/// The network address of record `i`.
pub open spec fn ip_text(i: nat) -> Seq<char> {
    "192.168."@ + decimal(i % 256) + "."@ + decimal((i + 1) % 256)
}

fn user_name(i: u64) -> (text: String)
    ensures
        text@ == name_text(i as nat),
{
    let mut out = String::new();
    out.append("John Doe ");
    append_decimal(&mut out, i);
    assert(out@ =~= name_text(i as nat));
    out
}

fn ip_address(i: u64) -> (text: String)
    ensures
        text@ == ip_text(i as nat),
{
    let mut out = String::new();
    out.append("192.168.");
    append_decimal(&mut out, i % 256);
    out.append(".");
    append_decimal(&mut out, (i % 256 + 1) % 256);
    assert((i % 256 + 1) % 256 == (i + 1) % 256);
    assert(out@ =~= ip_text(i as nat));
    out
}

fn email_address(i: u64) -> (text: String)
    ensures
        text@ == email_text(i as nat),
{
    let mut out = String::new();
    append_email(&mut out, i);
    assert(out@ =~= email_text(i as nat));
    out
}

fn phone_number(i: u64) -> (text: String)
    ensures
        text@ == phone_text(i as nat),
{
    let mut out = String::new();
    append_phone(&mut out, i);
    assert(out@ =~= phone_text(i as nat));
    out
}

fn social_security_number(i: u64) -> (text: String)
    ensures
        text@ == ssn_text(i as nat),
{
    let mut out = String::new();
    append_ssn(&mut out, i);
    assert(out@ =~= ssn_text(i as nat));
    out
}

/// Builds the structured record `i`.
pub fn test_json_record(i: u64) -> (record: JsonRecord)
    ensures
        record@ == json_record(i as nat),
{
    JsonRecord {
        id: i,
        name: user_name(i),
        email: email_address(i),
        phone: phone_number(i),
        ssn: social_security_number(i),
        created_at: "2024-01-01T00:00:00Z".to_owned(),
        ip_address: ip_address(i),
    }
}

impl AnonymizationBenchmark {
    /// A target for the full pipeline over `record_count` records, with 10 trials.
    pub fn new(record_count: usize, id: &str) -> (r: AnonymizationBenchmark)
        ensures
            r@ == (TargetView {
                id: id@,
                size: record_count as nat,
                iterations: 10,
                kind: TargetKind::Anonymization(AnonymizationType::Full),
            }),
    {
        AnonymizationBenchmark {
            record_count,
            id: id.to_owned(),
            benchmark_type: AnonymizationType::Full,
            iterations: 10,
        }
    }

    /// A target for detection alone over `record_count` records, with 10 trials.
    pub fn pii_detection(record_count: usize, id: &str) -> (r: AnonymizationBenchmark)
        ensures
            r@ == (TargetView {
                id: id@,
                size: record_count as nat,
                iterations: 10,
                kind: TargetKind::Anonymization(AnonymizationType::Detection),
            }),
    {
        AnonymizationBenchmark {
            record_count,
            id: id.to_owned(),
            benchmark_type: AnonymizationType::Detection,
            iterations: 10,
        }
    }

    /// A target for structured documents over `record_count` records, with 10 trials.
    pub fn json(record_count: usize, id: &str) -> (r: AnonymizationBenchmark)
        ensures
            r@ == (TargetView {
                id: id@,
                size: record_count as nat,
                iterations: 10,
                kind: TargetKind::Anonymization(AnonymizationType::Json),
            }),
    {
        AnonymizationBenchmark {
            record_count,
            id: id.to_owned(),
            benchmark_type: AnonymizationType::Json,
            iterations: 10,
        }
    }

    /// The same target with another number of trials.
    pub fn with_iterations(self, iterations: usize) -> (r: AnonymizationBenchmark)
        ensures
            r@ == (TargetView { iterations: iterations as nat, ..self@ }),
    {
        let mut r = self;
        r.iterations = iterations;
        r
    }

    /// Identifier of the target.
    pub fn id(&self) -> (id: &str)
        ensures
            id@ == self@.id,
    {
        self.id.as_str()
    }

    /// Display name of the target.
    pub fn name(&self) -> (name: &'static str)
        ensures
            name@ == name_of(self@.kind),
            name@ == match self@.kind {
                TargetKind::Anonymization(AnonymizationType::Full) => "Full Anonymization Pipeline"@,
                TargetKind::Anonymization(AnonymizationType::Detection) => "PII Detection"@,
                _ => "JSON Anonymization"@,
            },
    {
        match self.benchmark_type {
            AnonymizationType::Full => "Full Anonymization Pipeline",
            AnonymizationType::Detection => "PII Detection",
            AnonymizationType::Json => "JSON Anonymization",
        }
    }

    /// What the target measures, in a sentence.
    pub fn description(&self) -> (text: &'static str)
        ensures
            text@ == description_of(self@.kind),
            text@ == match self@.kind {
                TargetKind::Anonymization(AnonymizationType::Full) =>
                    "Measures full PII detection and anonymization pipeline latency"@,
                TargetKind::Anonymization(AnonymizationType::Detection) =>
                    "Measures PII detection throughput"@,
                _ => "Measures JSON document anonymization throughput"@,
            },
    {
        match self.benchmark_type {
            AnonymizationType::Full => "Measures full PII detection and anonymization pipeline latency",
            AnonymizationType::Detection => "Measures PII detection throughput",
            AnonymizationType::Json => "Measures JSON document anonymization throughput",
        }
    }

    /// Number of records in a batch.
    pub fn record_count(&self) -> (n: usize)
        ensures
            n == self@.size,
    {
        self.record_count
    }

    /// Number of timed trials.
    pub fn iterations(&self) -> (n: usize)
        ensures
            n == self@.iterations,
    {
        self.iterations
    }

    /// Which operation is measured.
    pub fn benchmark_type(&self) -> (k: AnonymizationType)
        ensures
            self@.kind == TargetKind::Anonymization(k),
    {
        self.benchmark_type
    }

    /// The batch of text records: record `i` holds `record_text(i)`.
    pub fn generate_test_records(&self) -> (records: Vec<String>)
        ensures
            records@.len() == self@.size,
            forall|i: int| 0 <= i < records@.len() ==> (#[trigger] records@[i])@ == record_text(i as nat),
    {
        let mut records: Vec<String> = Vec::new();
        let mut i: usize = 0;
        while i < self.record_count
            invariant
                i <= self.record_count,
                records@.len() == i,
                forall|k: int| 0 <= k < i ==> (#[trigger] records@[k])@ == record_text(k as nat),
            decreases self.record_count - i,
        {
            records.push(test_record(i as u64));
            i = i + 1;
        }
        records
    }

    /// The batch of structured records: record `i` is `json_record(i)`.
    pub fn generate_test_json_records(&self) -> (records: Vec<JsonRecord>)
        ensures
            records@.len() == self@.size,
            forall|i: int| 0 <= i < records@.len() ==> (#[trigger] records@[i])@ == json_record(i as nat),
    {
        let mut records: Vec<JsonRecord> = Vec::new();
        let mut i: usize = 0;
        while i < self.record_count
            invariant
                i <= self.record_count,
                records@.len() == i,
                forall|k: int| 0 <= k < i ==> (#[trigger] records@[k])@ == json_record(k as nat),
            decreases self.record_count - i,
        {
            records.push(test_json_record(i as u64));
            i = i + 1;
        }
        records
    }

    /// The measurements of a run, from the duration of each trial in
    /// nanoseconds and the counters of the run.
    pub fn measure(&self, samples: &Vec<u64>, counters: Counters) -> (m: StandardMetrics)
        requires
            samples.len() >= 1,
        ensures
            m.wf(),
            m@ == anonymization_report(self@.size, counters, samples@),
    {
        let s: TrialSummary = summarize(samples);
        proof {
            reveal_strlit("record_count");
            reveal_strlit("total_pii_found");
            reveal_strlit("total_anonymized");
            reveal_strlit("records_per_second");
            reveal_strlit("avg_pii_per_record");
            if is_well_known("record_count"@) {
                lemma_well_known_shape("record_count"@);
            }
            if is_well_known("total_pii_found"@) {
                lemma_well_known_shape("total_pii_found"@);
            }
            if is_well_known("total_anonymized"@) {
                lemma_well_known_shape("total_anonymized"@);
            }
            if is_well_known("records_per_second"@) {
                lemma_well_known_shape("records_per_second"@);
            }
            if is_well_known("avg_pii_per_record"@) {
                lemma_well_known_shape("avg_pii_per_record"@);
            }
        }
        let mut m = StandardMetrics::new().with_duration_ms(millis(s.average_ns)).with_data_size(
            counters.total_bytes,
        ).with_iterations(samples.len() as u64).with_latencies(
            millis(s.p50_ns),
            millis(s.p95_ns),
            millis(s.p99_ns),
        ).with_custom("record_count", MetricValue::Count(self.record_count as u64)).with_custom(
            "total_pii_found",
            MetricValue::Count(counters.total_pii_found),
        ).with_custom("total_anonymized", MetricValue::Count(counters.total_anonymized));
        if let Some(rate) = rate_per_second(self.record_count as u64, s.average_ns) {
            m = m.with_ops_per_second(rate).with_custom("records_per_second", MetricValue::Real(rate));
        }
        if let Some(rate) = rate_per_second(counters.total_bytes, s.average_ns) {
            m = m.with_bytes_per_second(rate);
        }
        if let Some(cells) = (self.record_count as u64).checked_mul(samples.len() as u64) {
            if let Some(average) = decimal_ratio(counters.total_pii_found, cells) {
                m = m.with_custom("avg_pii_per_record", MetricValue::Real(average));
            }
        }
        m
    }

    /// The record of a run that completed at `timestamp`.
    pub fn complete(&self, samples: &Vec<u64>, counters: Counters, timestamp: Timestamp) -> (r:
        BenchmarkResult)
        requires
            samples.len() >= 1,
        ensures
            r.target_id@ == self@.id,
            r.timestamp == timestamp,
            r.metrics@ == flatten(anonymization_report(self@.size, counters, samples@)),
    {
        let m = self.measure(samples, counters);
        BenchmarkResult::with_timestamp(self.id.as_str(), m.to_json_value(), timestamp)
    }
}

} // verus!
