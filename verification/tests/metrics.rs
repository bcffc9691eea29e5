use vault_benchmarks::clock::Timestamp;
use vault_benchmarks::metrics::is_well_known_name;
use vault_benchmarks::metrics::Decimal;
use vault_benchmarks::metrics::MetricMap;
use vault_benchmarks::metrics::MetricValue;
use vault_benchmarks::BenchmarkResult;
use vault_benchmarks::StandardMetrics;

fn fixed(value: f64) -> MetricValue {
    MetricValue::Real(Decimal::from_millionths((value * 1e6).round() as u64))
}

fn to_json(value: &MetricValue) -> serde_json::Value {
    match value {
        MetricValue::Flag(b) => serde_json::Value::from(*b),
        MetricValue::Count(n) => serde_json::Value::from(*n),
        MetricValue::Real(d) => serde_json::Value::from(d.millionths as f64 / 1e6),
        MetricValue::Text(s) => serde_json::Value::from(s.as_str()),
    }
}

fn from_json(value: &serde_json::Value) -> MetricValue {
    match value {
        serde_json::Value::Bool(b) => MetricValue::Flag(*b),
        serde_json::Value::String(s) => MetricValue::text(s),
        other => match other.as_u64() {
            Some(n) => MetricValue::Count(n),
            None => fixed(other.as_f64().unwrap()),
        },
    }
}

fn record_to_json(record: &BenchmarkResult) -> String {
    let mut metrics = serde_json::Map::new();
    let mut i: usize = 0;
    while i < record.metrics().len() {
        metrics.insert(record.metrics().name_at(i).clone(), to_json(record.metrics().value_at(i)));
        i += 1;
    }
    let time = chrono::DateTime::from_timestamp(record.timestamp().secs, record.timestamp().nanos)
        .unwrap();
    let mut object = serde_json::Map::new();
    object.insert("target_id".to_string(), serde_json::Value::from(record.target_id()));
    object.insert("metrics".to_string(), serde_json::Value::Object(metrics));
    object.insert("timestamp".to_string(), serde_json::Value::from(time.to_rfc3339()));
    serde_json::to_string_pretty(&serde_json::Value::Object(object)).unwrap()
}

fn record_from_json(text: &str) -> BenchmarkResult {
    let value: serde_json::Value = serde_json::from_str(text).unwrap();
    let mut metrics = MetricMap::new();
    for (name, entry) in value["metrics"].as_object().unwrap() {
        metrics.insert(name, from_json(entry));
    }
    let time = chrono::DateTime::parse_from_rfc3339(value["timestamp"].as_str().unwrap()).unwrap();
    BenchmarkResult::with_timestamp(
        value["target_id"].as_str().unwrap(),
        metrics,
        Timestamp::new(time.timestamp(), time.timestamp_subsec_nanos()),
    )
}

#[test]
fn test_benchmark_result_creation() {
    let mut metrics = MetricMap::new();
    metrics.insert("duration_ms", fixed(100.5));
    metrics.insert("ops_per_second", fixed(1000.0));

    let result = BenchmarkResult::new("test-target", metrics.clone());

    assert_eq!(result.target_id(), "test-target");
    assert_eq!(result.metrics().get("duration_ms"), Some(&fixed(100.5)));
    match result.metrics().get("duration_ms") {
        Some(MetricValue::Real(d)) => assert_eq!(d.millionths as f64 / 1e6, 100.5),
        other => panic!("unexpected {:?}", other),
    }
}

#[test]
fn test_standard_metrics() {
    let metrics = StandardMetrics::new()
        .with_duration_ms(Decimal::from_millionths(50_000_000))
        .with_ops_per_second(Decimal::from_millionths(2_000_000_000))
        .with_data_size(1024)
        .with_custom("custom_field", MetricValue::text("value"));

    let json = metrics.to_json_value();

    assert_eq!(json.get("duration_ms"), Some(&fixed(50.0)));
    assert_eq!(json.get("ops_per_second"), Some(&fixed(2000.0)));
    assert_eq!(json.get("data_size_bytes"), Some(&MetricValue::Count(1024)));
    assert_eq!(json.get("custom_field"), Some(&MetricValue::text("value")));
}

#[test]
fn test_json_roundtrip() {
    let mut metrics = MetricMap::new();
    metrics.insert("value", MetricValue::Count(42));
    let result = BenchmarkResult::new("roundtrip-test", metrics);

    let json = record_to_json(&result);
    let parsed = record_from_json(&json);

    assert_eq!(parsed.target_id(), result.target_id());
    assert_eq!(parsed.metrics().get("value"), Some(&MetricValue::Count(42)));
}

#[test]
fn round_trip_keeps_identifier_timestamp_and_metrics() {
    let metrics = StandardMetrics::new()
        .with_duration_ms(Decimal::from_millionths(12_345_678))
        .with_latencies(
            Decimal::from_millionths(1),
            Decimal::from_millionths(999_999),
            Decimal::from_millionths(123_456_789_012),
        )
        .with_iterations(10)
        .with_custom("algorithm", MetricValue::text("BLAKE3"))
        .with_custom("cached", MetricValue::Flag(true))
        .to_json_value();
    let result =
        BenchmarkResult::with_timestamp("a/b:c", metrics, Timestamp::new(1_431_648_000, 123_456_789));

    let parsed = record_from_json(&record_to_json(&result));

    assert!(parsed.same(&result));
    assert!(result.same(&parsed));
    assert_eq!(parsed.target_id(), result.target_id());
    assert_eq!(parsed.timestamp(), result.timestamp());
    assert_eq!(parsed.metrics().len(), result.metrics().len());
    let mut i: usize = 0;
    while i < result.metrics().len() {
        let name = result.metrics().name_at(i);
        assert_eq!(parsed.metrics().get(name), Some(result.metrics().value_at(i)));
        i += 1;
    }
}

#[test]
fn new_record_keeps_what_it_is_given() {
    let mut metrics = MetricMap::new();
    metrics.insert("n", MetricValue::Count(1));
    let result = BenchmarkResult::with_timestamp("t", metrics, Timestamp::new(5, 6));
    assert_eq!(result.target_id(), "t");
    assert_eq!(result.timestamp(), Timestamp::new(5, 6));
    assert_eq!(result.timestamp().secs, 5);
    assert_eq!(result.timestamp().nanos, 6);
    assert_eq!(result.metrics().len(), 1);
    let copy = result.duplicate();
    assert_eq!(copy.target_id(), "t");
    assert_eq!(copy.timestamp(), result.timestamp());
    assert_eq!(copy.metrics().get("n"), Some(&MetricValue::Count(1)));
}

#[test]
fn new_record_is_stamped_by_the_clock() {
    let before = chrono::Utc::now().timestamp();
    let result = BenchmarkResult::new("t", MetricMap::new());
    let after = chrono::Utc::now().timestamp();
    assert!(before <= result.timestamp().secs);
    assert!(result.timestamp().secs <= after);
    assert!(result.timestamp().secs > 1_600_000_000);
}

#[test]
fn metric_map_binds_each_name_once() {
    let mut map = MetricMap::new();
    assert_eq!(map.len(), 0);
    assert_eq!(map.get("a"), None);
    map.insert("a", MetricValue::Count(1));
    map.insert("b", MetricValue::text("x"));
    map.insert("a", MetricValue::Count(2));
    assert_eq!(map.len(), 2);
    assert_eq!(map.get("a"), Some(&MetricValue::Count(2)));
    assert_eq!(map.get("b"), Some(&MetricValue::text("x")));
    assert_eq!(map.get("c"), None);
    assert_eq!(map.name_at(0), "a");
    assert_eq!(map.name_at(1), "b");
    assert_eq!(map.value_at(1), &MetricValue::text("x"));
    let copy = map.duplicate();
    assert_eq!(copy.len(), 2);
    assert_eq!(copy.get("a"), Some(&MetricValue::Count(2)));
}

#[test]
fn metric_values_compare_by_kind_and_content() {
    assert!(MetricValue::Count(1).same(&MetricValue::Count(1)));
    assert!(!MetricValue::Count(1).same(&MetricValue::Count(2)));
    assert!(!MetricValue::Count(1).same(&MetricValue::Real(Decimal::from_millionths(1))));
    assert!(MetricValue::text("a").same(&MetricValue::text("a")));
    assert!(!MetricValue::text("a").same(&MetricValue::text("b")));
    assert!(MetricValue::Flag(true).same(&MetricValue::Flag(true)));
    assert!(!MetricValue::Flag(true).same(&MetricValue::Flag(false)));
    assert!(MetricValue::text("a").duplicate().same(&MetricValue::text("a")));
}

#[test]
fn decimal_from_units() {
    assert_eq!(Decimal::from_units(3), Some(Decimal::from_millionths(3_000_000)));
    assert_eq!(Decimal::from_units(0), Some(Decimal::from_millionths(0)));
    assert_eq!(Decimal::from_units(u64::MAX), None);
    assert_eq!(Decimal::from_units(18_446_744_073_709), Some(Decimal::from_millionths(18_446_744_073_709_000_000)));
    assert_eq!(Decimal::from_units(18_446_744_073_710), None);
}

#[test]
fn well_known_names_are_recognised() {
    let names = [
        "duration_ms",
        "ops_per_second",
        "bytes_per_second",
        "latency_p50_ms",
        "latency_p95_ms",
        "latency_p99_ms",
        "memory_bytes",
        "iterations",
        "data_size_bytes",
        "success_rate",
    ];
    for name in names {
        assert!(is_well_known_name(name));
    }
    assert!(!is_well_known_name("algorithm"));
    assert!(!is_well_known_name("duration"));
    assert!(!is_well_known_name(""));
    assert!(!is_well_known_name("Duration_ms"));
}

#[test]
fn flattening_holds_only_what_is_set() {
    let empty = StandardMetrics::new().to_json_value();
    assert_eq!(empty.len(), 0);

    let metrics = StandardMetrics::new()
        .with_bytes_per_second(Decimal::from_millionths(7))
        .with_latencies(
            Decimal::from_millionths(1),
            Decimal::from_millionths(2),
            Decimal::from_millionths(3),
        )
        .with_iterations(9)
        .with_custom("k", MetricValue::Flag(false))
        .with_custom("k", MetricValue::Flag(true))
        .to_json_value();
    assert_eq!(metrics.len(), 6);
    assert_eq!(metrics.get("bytes_per_second"), Some(&MetricValue::Real(Decimal::from_millionths(7))));
    assert_eq!(metrics.get("latency_p50_ms"), Some(&MetricValue::Real(Decimal::from_millionths(1))));
    assert_eq!(metrics.get("latency_p95_ms"), Some(&MetricValue::Real(Decimal::from_millionths(2))));
    assert_eq!(metrics.get("latency_p99_ms"), Some(&MetricValue::Real(Decimal::from_millionths(3))));
    assert_eq!(metrics.get("iterations"), Some(&MetricValue::Count(9)));
    assert_eq!(metrics.get("k"), Some(&MetricValue::Flag(true)));
    assert_eq!(metrics.get("duration_ms"), None);
    assert_eq!(metrics.get("memory_bytes"), None);
}

#[test]
fn records_are_the_same_whatever_the_order_of_their_metrics() {
    let mut forward = MetricMap::new();
    forward.insert("a", MetricValue::Count(1));
    forward.insert("b", MetricValue::text("x"));
    let mut backward = MetricMap::new();
    backward.insert("b", MetricValue::text("x"));
    backward.insert("a", MetricValue::Count(1));
    assert!(forward.same(&backward));
    assert!(backward.same(&forward));
    assert!(MetricMap::new().same(&MetricMap::new()));

    let mut other_value = backward.duplicate();
    other_value.insert("a", MetricValue::Count(2));
    assert!(!forward.same(&other_value));
    let mut other_name = MetricMap::new();
    other_name.insert("a", MetricValue::Count(1));
    other_name.insert("c", MetricValue::text("x"));
    assert!(!forward.same(&other_name));
    let mut longer = forward.duplicate();
    longer.insert("c", MetricValue::Flag(true));
    assert!(!forward.same(&longer));
    assert!(!longer.same(&forward));

    let at = Timestamp::new(10, 20);
    let one = BenchmarkResult::with_timestamp("t", forward.duplicate(), at);
    assert!(one.same(&BenchmarkResult::with_timestamp("t", backward.duplicate(), at)));
    assert!(!one.same(&BenchmarkResult::with_timestamp("u", backward.duplicate(), at)));
    assert!(!one.same(&BenchmarkResult::with_timestamp("t", backward.duplicate(), Timestamp::new(10, 21))));
    assert!(!one.same(&BenchmarkResult::with_timestamp("t", backward.duplicate(), Timestamp::new(11, 20))));
    assert!(!one.same(&BenchmarkResult::with_timestamp("t", longer, at)));
}
