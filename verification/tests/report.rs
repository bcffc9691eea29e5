use vault_benchmarks::clock::Timestamp;
use vault_benchmarks::metrics::Decimal;
use vault_benchmarks::metrics::MetricMap;
use vault_benchmarks::metrics::MetricValue;
use vault_benchmarks::report::format_value;
use vault_benchmarks::report::generate_summary;
use vault_benchmarks::report::render_record;
use vault_benchmarks::report::render_results;
use vault_benchmarks::text::append_decimal;
use vault_benchmarks::text::append_left_aligned;
use vault_benchmarks::text::append_repeated;
use vault_benchmarks::text::append_zero_padded;
use vault_benchmarks::text::chars_of;
use vault_benchmarks::text::decimal_width;
use vault_benchmarks::text::has_prefix;
use vault_benchmarks::text::same_text;
use vault_benchmarks::BenchmarkResult;

fn number(value: f64) -> MetricValue {
    MetricValue::Real(Decimal::from_millionths((value * 1e6).round() as u64))
}

#[test]
fn test_format_value() {
    assert_eq!(format_value(&number(1500000.0)), "1.50M");
    assert_eq!(format_value(&number(1500.0)), "1.50K");
    assert_eq!(format_value(&number(0.005)), "0.0050");
    assert_eq!(format_value(&number(42.5)), "42.50");
}

#[test]
fn format_value_thresholds() {
    assert_eq!(format_value(&number(0.0)), "0.00");
    assert_eq!(format_value(&number(1.0)), "1.00");
    assert_eq!(format_value(&number(0.9999)), "0.9999");
    assert_eq!(format_value(&number(999.0)), "999.00");
    assert_eq!(format_value(&number(1000.0)), "1.00K");
    assert_eq!(format_value(&number(999_999.0)), "1000.00K");
    assert_eq!(format_value(&number(1_000_000.0)), "1.00M");
    assert_eq!(format_value(&number(123_456_789.0)), "123.46M");
    assert_eq!(format_value(&MetricValue::Real(Decimal::from_millionths(1))), "0.0000");
    assert_eq!(format_value(&MetricValue::Real(Decimal::from_millionths(51))), "0.0001");
}

#[test]
fn format_value_rounds_ties_to_even() {
    assert_eq!(format_value(&number(0.125)), "0.1250");
    assert_eq!(format_value(&number(2.125)), "2.12");
    assert_eq!(format_value(&number(2.135)), "2.14");
    assert_eq!(format_value(&number(2.126)), "2.13");
    assert_eq!(format_value(&number(2.124)), "2.12");
    assert_eq!(format_value(&number(999.995)), "1000.00");
    assert_eq!(format_value(&MetricValue::Real(Decimal::from_millionths(50))), "0.0000");
    assert_eq!(format_value(&MetricValue::Real(Decimal::from_millionths(150))), "0.0002");
}

#[test]
fn format_value_of_counts_texts_and_flags() {
    assert_eq!(format_value(&MetricValue::Count(10)), "10.00");
    assert_eq!(format_value(&MetricValue::Count(1024)), "1.02K");
    assert_eq!(format_value(&MetricValue::Count(1_048_576)), "1.05M");
    assert_eq!(format_value(&MetricValue::Count(0)), "0.00");
    assert_eq!(format_value(&MetricValue::Count(u64::MAX)), "18446744073709.55M");
    assert_eq!(format_value(&MetricValue::Real(Decimal::from_millionths(u64::MAX))), "18446744.07M");
    assert_eq!(format_value(&MetricValue::text("BLAKE3")), "BLAKE3");
    assert_eq!(format_value(&MetricValue::text("")), "");
    assert_eq!(format_value(&MetricValue::Flag(true)), "true");
    assert_eq!(format_value(&MetricValue::Flag(false)), "false");
}

fn sample_record() -> BenchmarkResult {
    let mut metrics = MetricMap::new();
    metrics.insert("duration_ms", number(42.5));
    metrics.insert("iterations", MetricValue::Count(10));
    metrics.insert("algorithm", MetricValue::text("BLAKE3"));
    BenchmarkResult::with_timestamp("hashing-blake3-1mb", metrics, Timestamp::new(1_431_648_000, 0))
}

#[test]
fn record_block_lists_every_metric() {
    let text = render_record(&sample_record(), "2015-05-15 00:00:00 UTC");
    let expected = format!(
        "Target: hashing-blake3-1mb\nTimestamp: 2015-05-15 00:00:00 UTC\nMetrics:\n  duration_ms: 42.50\n  iterations: 10.00\n  algorithm: BLAKE3\n{}\n",
        "-".repeat(40)
    );
    assert_eq!(text, expected);
}

#[test]
fn report_has_a_head_and_a_block_for_each_record() {
    let empty = BenchmarkResult::with_timestamp("e", MetricMap::new(), Timestamp::new(0, 0));
    let text = render_results(&vec![sample_record(), empty]).unwrap();
    let expected = format!(
        "\n{}\nBENCHMARK RESULTS\n{}\n\nTarget: hashing-blake3-1mb\nTimestamp: 2015-05-15 00:00:00 UTC\nMetrics:\n  duration_ms: 42.50\n  iterations: 10.00\n  algorithm: BLAKE3\n{}\nTarget: e\nTimestamp: 1970-01-01 00:00:00 UTC\nMetrics:\n{}\n",
        "=".repeat(60),
        "=".repeat(60),
        "-".repeat(40),
        "-".repeat(40)
    );
    assert_eq!(text, expected);
    assert_eq!(
        render_results(&Vec::new()).unwrap(),
        format!("\n{}\nBENCHMARK RESULTS\n{}\n\n", "=".repeat(60), "=".repeat(60))
    );
}

#[test]
fn report_needs_times_that_have_a_date() {
    let bad = BenchmarkResult::with_timestamp("t", MetricMap::new(), Timestamp::new(i64::MIN, 0));
    assert_eq!(render_results(&vec![sample_record(), bad.clone()]), None);
    assert_eq!(render_results(&vec![bad, sample_record()]), None);
}

#[test]
fn summary_is_a_table_of_the_main_metrics() {
    let mut metrics = MetricMap::new();
    metrics.insert("ops_per_second", number(2000.0));
    metrics.insert("bytes_per_second", number(2_048_000.0));
    let other = BenchmarkResult::with_timestamp("b", metrics, Timestamp::new(0, 0));
    let text = generate_summary(&vec![sample_record(), other]);
    assert_eq!(
        text,
        "# Benchmark Summary\n\n| Target | Duration (ms) | Ops/sec | Bytes/sec |\n|---|---|---|---|\n| hashing-blake3-1mb | 42.50 | - | - |\n| b | - | 2.00K | 2.05M |\n"
    );
    assert_eq!(
        generate_summary(&Vec::new()),
        "# Benchmark Summary\n\n| Target | Duration (ms) | Ops/sec | Bytes/sec |\n|---|---|---|---|\n"
    );
}

#[test]
fn decimal_rendering() {
    for n in [0u64, 7, 10, 99, 100, 12_345, u64::MAX] {
        let mut out = String::from(">");
        append_decimal(&mut out, n);
        assert_eq!(out, format!(">{}", n));
        assert_eq!(decimal_width(n), n.to_string().len());
    }
}

#[test]
fn zero_padding_and_alignment() {
    for (n, width) in [(0u64, 4usize), (7, 4), (1234, 4), (12_345, 4), (5, 0), (5, 1), (42, 3)] {
        let mut out = String::new();
        append_zero_padded(&mut out, n, width);
        assert_eq!(out, format!("{:0width$}", n, width = width));
    }
    for (text, width) in [("", 3usize), ("ab", 5), ("abcdef", 3), ("äö", 4)] {
        let mut out = String::from("|");
        append_left_aligned(&mut out, text, width);
        assert_eq!(out, format!("|{:<width$}", text, width = width));
    }
    let mut out = String::new();
    append_repeated(&mut out, '=', 5);
    append_repeated(&mut out, '-', 0);
    assert_eq!(out, "=====");
}

#[test]
fn text_comparison() {
    assert!(same_text("abc", "abc"));
    assert!(!same_text("abc", "abd"));
    assert!(!same_text("abc", "ab"));
    assert!(same_text("", ""));
    assert!(has_prefix("encryption-1kb", "encryption"));
    assert!(has_prefix("encryption", "encryption"));
    assert!(has_prefix("encryption", ""));
    assert!(!has_prefix("encryption", "encryption-"));
    assert!(!has_prefix("encryption", "Enc"));
    assert!(!has_prefix("", "a"));
    assert!(has_prefix("äbc", "ä"));
    assert_eq!(chars_of("aä€"), vec!['a', 'ä', '€']);
    assert!(chars_of("").is_empty());
}
