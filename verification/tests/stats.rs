use vault_benchmarks::metrics::Decimal;
use vault_benchmarks::stats::decimal_ratio;
use vault_benchmarks::stats::millis;
use vault_benchmarks::stats::percentile_indices;
use vault_benchmarks::stats::rate_per_second;
use vault_benchmarks::stats::scaled_ratio;
use vault_benchmarks::stats::sort_samples;
use vault_benchmarks::stats::summarize;
use vault_benchmarks::stats::total;

#[test]
fn percentile_indices_for_ten_trials() {
    let at = percentile_indices(10);
    assert_eq!(at.p50, 5);
    assert_eq!(at.p95, 9);
    assert_eq!(at.p99, 9);
}

#[test]
fn percentile_indices_for_one_trial() {
    let at = percentile_indices(1);
    assert_eq!(at.p50, 0);
    assert_eq!(at.p95, 0);
    assert_eq!(at.p99, 0);
}

#[test]
fn percentile_indices_for_two_trials_collapse() {
    let at = percentile_indices(2);
    assert_eq!(at.p50, 1);
    assert_eq!(at.p95, 1);
    assert_eq!(at.p99, 1);
}

#[test]
fn percentile_indices_for_large_runs() {
    let hundred = percentile_indices(100);
    assert_eq!((hundred.p50, hundred.p95, hundred.p99), (50, 95, 99));
    let thousand = percentile_indices(1000);
    assert_eq!((thousand.p50, thousand.p95, thousand.p99), (500, 950, 990));
    let twenty = percentile_indices(20);
    assert_eq!((twenty.p50, twenty.p95, twenty.p99), (10, 19, 19));
}

#[test]
fn percentile_indices_stay_in_range_and_ordered() {
    let mut n: usize = 1;
    while n <= 2000 {
        let at = percentile_indices(n);
        assert!(at.p50 <= at.p95);
        assert!(at.p95 <= at.p99);
        assert!(at.p99 < n);
        assert_eq!(at.p50, (n / 2).min(n - 1));
        assert_eq!(at.p95, ((n as f64 * 0.95) as usize).min(n - 1));
        assert_eq!(at.p99, ((n as f64 * 0.99) as usize).min(n - 1));
        n += 1;
    }
}

#[test]
fn sort_samples_orders_and_keeps_every_sample() {
    let samples: Vec<u64> = vec![5, 3, 9, 3, 1, 7, 0, 9];
    let sorted = sort_samples(&samples);
    assert_eq!(sorted, vec![0, 1, 3, 3, 5, 7, 9, 9]);
    assert_eq!(sort_samples(&Vec::new()), Vec::<u64>::new());
}

#[test]
fn total_adds_up_without_overflow() {
    let samples: Vec<u64> = vec![u64::MAX, u64::MAX, 2];
    assert_eq!(total(&samples), 2 * (u64::MAX as u128) + 2);
    assert_eq!(total(&Vec::new()), 0);
}

#[test]
fn summarize_fixed_latency_run() {
    let samples: Vec<u64> = vec![2_000_000; 10];
    let s = summarize(&samples);
    assert_eq!(s.trials, 10);
    assert_eq!(s.total_ns, 20_000_000);
    assert_eq!(s.average_ns, 2_000_000);
    assert_eq!(s.p50_ns, 2_000_000);
    assert_eq!(s.p95_ns, 2_000_000);
    assert_eq!(s.p99_ns, 2_000_000);
}

#[test]
fn summarize_picks_nearest_rank_samples() {
    let samples: Vec<u64> = vec![100, 10, 90, 20, 80, 30, 70, 40, 60, 50];
    let s = summarize(&samples);
    assert_eq!(s.average_ns, 55);
    assert_eq!(s.p50_ns, 60);
    assert_eq!(s.p95_ns, 100);
    assert_eq!(s.p99_ns, 100);
}

#[test]
fn summarize_single_trial() {
    let samples: Vec<u64> = vec![1234];
    let s = summarize(&samples);
    assert_eq!(s.trials, 1);
    assert_eq!(s.average_ns, 1234);
    assert_eq!(s.p50_ns, 1234);
    assert_eq!(s.p95_ns, 1234);
    assert_eq!(s.p99_ns, 1234);
}

#[test]
fn summarize_rounds_the_mean_down() {
    let samples: Vec<u64> = vec![1, 2, 2];
    assert_eq!(summarize(&samples).average_ns, 1);
}

#[test]
fn rate_per_second_of_one_operation() {
    // 2 ms per operation: 1000 / 2 = 500 operations per second.
    assert_eq!(rate_per_second(1, 2_000_000), Some(Decimal::from_millionths(500_000_000)));
    // 3 ms per operation: 333.333333 operations per second.
    assert_eq!(rate_per_second(1, 3_000_000), Some(Decimal::from_millionths(333_333_333)));
}

#[test]
fn rate_per_second_of_bytes() {
    // 1024 bytes in 0.5 ms: 1024 / 0.5 * 1000 = 2,048,000 bytes per second.
    assert_eq!(rate_per_second(1024, 500_000), Some(Decimal::from_millionths(2_048_000_000_000)));
}

#[test]
fn rate_per_second_has_no_value_for_zero_time_or_overflow() {
    assert_eq!(rate_per_second(1, 0), None);
    assert_eq!(rate_per_second(u64::MAX, 1), None);
}

#[test]
fn scaled_ratio_is_exact() {
    assert_eq!(scaled_ratio(7, 10, 4), Some(17));
    assert_eq!(scaled_ratio(0, 10, 4), Some(0));
    assert_eq!(scaled_ratio(7, 10, 0), None);
    assert_eq!(scaled_ratio(u64::MAX, u64::MAX, 1), None);
    assert_eq!(scaled_ratio(u64::MAX, u64::MAX, u64::MAX), Some(u64::MAX));
}

#[test]
fn decimal_ratio_to_six_places() {
    assert_eq!(decimal_ratio(50, 20), Some(Decimal::from_millionths(2_500_000)));
    assert_eq!(decimal_ratio(1, 3), Some(Decimal::from_millionths(333_333)));
    assert_eq!(decimal_ratio(1, 0), None);
}

#[test]
fn millis_counts_nanoseconds_as_millionths() {
    assert_eq!(millis(1_500_000), Decimal::from_millionths(1_500_000));
    assert_eq!(millis(1_500_000).millionths as f64 / 1e6, 1.5);
}
