use vault_benchmarks::clock::Timestamp;
use vault_benchmarks::io::assemble_results;
use vault_benchmarks::io::file_name_for;
use vault_benchmarks::io::is_result_file;
use vault_benchmarks::io::latest_per_target;
use vault_benchmarks::io::sanitize_id;
use vault_benchmarks::io::sort_by_timestamp;
use vault_benchmarks::metrics::Decimal;
use vault_benchmarks::metrics::MetricMap;
use vault_benchmarks::metrics::MetricValue;
use vault_benchmarks::BenchmarkIO;
use vault_benchmarks::BenchmarkResult;
use vault_benchmarks::DEFAULT_OUTPUT_DIR;
use vault_benchmarks::RAW_OUTPUT_DIR;
use vault_benchmarks::SUMMARY_FILE;

fn record(id: &str, secs: i64, nanos: u32, tag: u64) -> BenchmarkResult {
    let mut metrics = MetricMap::new();
    metrics.insert("tag", MetricValue::Count(tag));
    BenchmarkResult::with_timestamp(id, metrics, Timestamp::new(secs, nanos))
}

fn tag(record: &BenchmarkResult) -> u64 {
    match record.metrics().get("tag") {
        Some(MetricValue::Count(n)) => *n,
        other => panic!("unexpected {:?}", other),
    }
}

#[test]
fn test_write_read_result() {
    let io = BenchmarkIO::with_paths("tmp/output", "tmp/output/raw");

    let mut metrics = MetricMap::new();
    metrics.insert("duration_ms", MetricValue::Real(Decimal::from_millionths(100_000_000)));
    let result = BenchmarkResult::new("test-target", metrics);

    let name = io.result_file_name(&result).unwrap();
    assert!(name.starts_with("test-target_"));
    assert!(is_result_file(&name));

    let results = sort_by_timestamp(vec![result]);
    assert_eq!(results.len(), 1);
    assert_eq!(results[0].target_id, "test-target");
}

#[test]
fn file_name_holds_identifier_and_compact_time() {
    let io = BenchmarkIO::new();
    // 2015-05-15 00:00:00 UTC
    let at_midnight = record("test-target", 1_431_648_000, 0, 0);
    assert_eq!(io.result_file_name(&at_midnight).unwrap(), "test-target_20150515_000000.json");
    // 2023-11-14 22:13:20 UTC
    let later = record("encryption/aes:256", 1_700_000_000, 999_999_999, 0);
    assert_eq!(io.result_file_name(&later).unwrap(), "encryption_aes_256_20231114_221320.json");
    let epoch = record("", 0, 0, 0);
    assert_eq!(io.result_file_name(&epoch).unwrap(), "_19700101_000000.json");
}

#[test]
fn file_name_needs_a_time_that_has_a_date() {
    let io = BenchmarkIO::new();
    assert_eq!(io.result_file_name(&record("t", i64::MAX, 0, 0)), None);
    assert_eq!(io.result_file_name(&record("t", 0, 2_000_000_000, 0)), None);
}

#[test]
fn sanitizing_replaces_slashes_and_colons() {
    assert_eq!(sanitize_id("a/b:c"), "a_b_c");
    assert_eq!(sanitize_id("plain-id_1"), "plain-id_1");
    assert_eq!(sanitize_id("//::"), "____");
    assert_eq!(sanitize_id(""), "");
    assert_eq!(sanitize_id("é/ü"), "é_ü");
    assert_eq!(file_name_for("a/b", "20240101_120000"), "a_b_20240101_120000.json");
}

#[test]
fn record_files_end_in_json() {
    assert!(is_result_file("a.json"));
    assert!(is_result_file("test-target_20150515_000000.json"));
    assert!(!is_result_file(".json"));
    assert!(!is_result_file("json"));
    assert!(!is_result_file("a.jso"));
    assert!(!is_result_file("a.json.bak"));
    assert!(!is_result_file("a.JSON"));
    assert!(!is_result_file("summary.md"));
    assert!(!is_result_file(""));
}

#[test]
fn records_read_back_in_time_order() {
    let written = vec![record("b", 300, 0, 2), record("c", 100, 0, 0), record("a", 200, 0, 1)];
    let read = sort_by_timestamp(written);
    let ids: Vec<&str> = read.iter().map(|r| r.target_id()).collect();
    assert_eq!(ids, vec!["c", "a", "b"]);
    let times: Vec<i64> = read.iter().map(|r| r.timestamp().secs).collect();
    assert_eq!(times, vec![100, 200, 300]);
}

#[test]
fn time_order_is_the_same_for_every_write_order() {
    let orders: [[usize; 3]; 6] = [[0, 1, 2], [0, 2, 1], [1, 0, 2], [1, 2, 0], [2, 0, 1], [2, 1, 0]];
    for order in orders {
        let all = [record("x", 10, 5, 0), record("y", 10, 6, 1), record("z", 11, 0, 2)];
        let written: Vec<BenchmarkResult> = order.iter().map(|i| all[*i].clone()).collect();
        let read = sort_by_timestamp(written);
        let tags: Vec<u64> = read.iter().map(tag).collect();
        assert_eq!(tags, vec![0, 1, 2]);
    }
}

#[test]
fn records_of_the_same_time_keep_their_order() {
    let written = vec![
        record("a", 5, 0, 0),
        record("b", 1, 0, 1),
        record("c", 5, 0, 2),
        record("d", 1, 0, 3),
        record("e", -7, 0, 4),
    ];
    let read = sort_by_timestamp(written);
    let tags: Vec<u64> = read.iter().map(tag).collect();
    assert_eq!(tags, vec![4, 1, 3, 0, 2]);
    assert!(sort_by_timestamp(Vec::new()).is_empty());
}

#[test]
fn timestamps_are_ordered_by_seconds_then_nanoseconds() {
    let a = Timestamp::new(1, 999_999_999);
    let b = Timestamp::new(2, 0);
    let c = Timestamp::new(2, 1);
    assert!(a.is_before(&b));
    assert!(b.is_before(&c));
    assert!(!c.is_before(&b));
    assert!(!b.is_before(&b));
    assert!(b.is_at_most(&b));
    assert!(a.is_at_most(&c));
    assert!(!c.is_at_most(&a));
    assert!(Timestamp::new(-1, 5).is_before(&Timestamp::new(0, 0)));
}

#[test]
fn latest_view_keeps_the_newest_record_of_each_target() {
    let results = vec![
        record("a", 100, 0, 0),
        record("b", 150, 0, 1),
        record("a", 200, 0, 2),
        record("c", 250, 0, 3),
        record("b", 120, 0, 4),
        record("a", 200, 0, 5),
    ];
    let latest = latest_per_target(&results);
    assert_eq!(latest, vec![2, 1, 3]);
    assert!(latest_per_target(&Vec::new()).is_empty());
    let single = vec![record("a", 1, 0, 0)];
    assert_eq!(latest_per_target(&single), vec![0]);
}

#[test]
fn directories_are_kept_as_given() {
    let io = BenchmarkIO::new();
    assert_eq!(io.output_dir(), "benchmarks/output");
    assert_eq!(io.raw_dir(), "benchmarks/output/raw");
    assert_eq!(DEFAULT_OUTPUT_DIR, "benchmarks/output");
    assert_eq!(RAW_OUTPUT_DIR, "benchmarks/output/raw");
    assert_eq!(SUMMARY_FILE, "summary.md");
    let io = BenchmarkIO::with_paths("out", "elsewhere/raw");
    assert_eq!(io.output_dir(), "out");
    assert_eq!(io.raw_dir(), "elsewhere/raw");
    let io = BenchmarkIO::in_directory("results");
    assert_eq!(io.output_dir(), "results");
    assert_eq!(io.raw_dir(), "results/raw");
}

#[test]
fn unreadable_files_are_passed_over() {
    let parsed = vec![
        Some(record("late", 30, 0, 0)),
        None,
        Some(record("early", 10, 0, 1)),
        None,
        None,
        Some(record("middle", 20, 0, 2)),
    ];
    let results = assemble_results(parsed);
    let ids: Vec<&str> = results.iter().map(|r| r.target_id()).collect();
    assert_eq!(ids, vec!["early", "middle", "late"]);
    assert!(assemble_results(vec![None, None]).is_empty());
    assert!(assemble_results(Vec::new()).is_empty());
}
