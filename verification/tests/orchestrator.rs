use vault_benchmarks::adapters::hashing::HashingBenchmark;
use vault_benchmarks::all_targets;
use vault_benchmarks::clock::Timestamp;
use vault_benchmarks::metrics::MetricMap;
use vault_benchmarks::orchestrator::setup_failure_message;
use vault_benchmarks::orchestrator::teardown_failure_message;
use vault_benchmarks::orchestrator::validation_message;
use vault_benchmarks::orchestrator::Action;
use vault_benchmarks::orchestrator::Batch;
use vault_benchmarks::orchestrator::Event;
use vault_benchmarks::orchestrator::Outcome;
use vault_benchmarks::orchestrator::ValidationError;
use vault_benchmarks::BenchTarget;
use vault_benchmarks::BenchmarkResult;
use vault_benchmarks::Target;

fn record_of(target: &Target) -> BenchmarkResult {
    BenchmarkResult::with_timestamp(target.id(), MetricMap::new(), Timestamp::new(1, 0))
}

/// Runs a batch to its end; the targets at the positions in `broken` fail in their setup.
fn drive(mut batch: Batch, broken: &[usize]) -> (Vec<BenchmarkResult>, Vec<String>) {
    let mut log: Vec<String> = Vec::new();
    let mut action = batch.next_action();
    loop {
        action = match action {
            Action::Setup(i) => {
                if broken.contains(&i) {
                    log.push(setup_failure_message(batch.target(i).id(), "broken"));
                    batch.advance(Event::SetupFailed).unwrap()
                } else {
                    batch.advance(Event::SetupSucceeded).unwrap()
                }
            }
            Action::Run(i) => {
                let record = record_of(batch.target(i));
                batch.advance(Event::Completed(record)).unwrap()
            }
            Action::Teardown(_) => batch.advance(Event::TeardownSucceeded).unwrap(),
            Action::Finish => break,
        };
    }
    assert!(batch.is_done());
    (batch.into_results(), log)
}

fn three_targets() -> Vec<Target> {
    vec![
        Target::Hashing(HashingBenchmark::blake3(8, "first")),
        Target::Hashing(HashingBenchmark::sha256(8, "second")),
        Target::Hashing(HashingBenchmark::checksum(8, "third")),
    ]
}

#[test]
fn test_run_all_benchmarks() {
    let (results, log) = drive(Batch::all(), &[]);
    assert!(!results.is_empty());
    assert!(log.is_empty());

    for result in &results {
        assert!(!result.target_id.is_empty());
    }
    let ids: Vec<&str> = results.iter().map(|r| r.target_id()).collect();
    let catalog = all_targets();
    let expected: Vec<&str> = catalog.iter().map(|t| t.id()).collect();
    assert_eq!(ids, expected);
}

#[test]
fn test_run_benchmarks_by_prefix() {
    let (results, _) = drive(Batch::by_prefix("encryption").unwrap(), &[]);
    assert!(!results.is_empty());
    assert!(results.iter().all(|r| r.target_id.starts_with("encryption")));
    assert_eq!(results.len(), 3);
}

#[test]
fn test_run_benchmark_by_id() {
    let (results, _) = drive(Batch::by_id("encryption-1kb").unwrap(), &[]);
    let result = results.into_iter().next();
    assert!(result.is_some());
    assert_eq!(result.unwrap().target_id, "encryption-1kb");
}

#[test]
fn failed_setup_of_the_middle_target_leaves_two_records() {
    let mut batch = Batch::new(three_targets());
    assert_eq!(batch.len(), 3);
    assert_eq!(batch.next_action(), Action::Setup(0));
    assert_eq!(batch.advance(Event::SetupSucceeded), Some(Action::Run(0)));
    let first = record_of(batch.target(0));
    assert_eq!(batch.advance(Event::Completed(first)), Some(Action::Teardown(0)));
    assert_eq!(batch.advance(Event::TeardownSucceeded), Some(Action::Setup(1)));
    assert_eq!(batch.advance(Event::SetupFailed), Some(Action::Setup(2)));
    assert_eq!(batch.advance(Event::SetupSucceeded), Some(Action::Run(2)));
    let third = record_of(batch.target(2));
    assert_eq!(batch.advance(Event::Completed(third)), Some(Action::Teardown(2)));
    assert_eq!(batch.advance(Event::TeardownSucceeded), Some(Action::Finish));
    assert!(batch.is_done());
    assert_eq!(batch.setup_failures(), 1);
    assert_eq!(batch.outcomes(), &vec![Outcome::Ran, Outcome::SetupFailed, Outcome::Ran]);
    let results = batch.into_results();
    assert_eq!(results.len(), 2);
    assert_eq!(results[0].target_id, "first");
    assert_eq!(results[1].target_id, "third");
}

#[test]
fn failed_setup_is_logged_once() {
    let (results, log) = drive(Batch::new(three_targets()), &[1]);
    assert_eq!(results.len(), 2);
    assert_eq!(log, vec!["Setup failed for second: broken".to_string()]);
}

#[test]
fn failed_teardown_keeps_the_record_and_moves_on() {
    let mut batch = Batch::new(three_targets());
    batch.advance(Event::SetupSucceeded);
    let first = record_of(batch.target(0));
    batch.advance(Event::Completed(first));
    assert_eq!(batch.advance(Event::TeardownFailed), Some(Action::Setup(1)));
    assert_eq!(batch.results().len(), 1);
    assert_eq!(batch.results()[0].target_id, "first");
    assert_eq!(batch.outcomes(), &vec![Outcome::RanTeardownFailed]);
    assert_eq!(batch.setup_failures(), 0);
    assert!(!batch.is_done());
}

#[test]
fn every_setup_failing_leaves_no_record() {
    let (results, log) = drive(Batch::new(three_targets()), &[0, 1, 2]);
    assert!(results.is_empty());
    assert_eq!(log.len(), 3);
}

#[test]
fn event_out_of_turn_changes_nothing() {
    let mut batch = Batch::new(three_targets());
    assert_eq!(batch.advance(Event::TeardownSucceeded), None);
    assert_eq!(batch.advance(Event::TeardownFailed), None);
    let stray = record_of(batch.target(0));
    assert_eq!(batch.advance(Event::Completed(stray)), None);
    assert_eq!(batch.next_action(), Action::Setup(0));
    assert!(batch.results().is_empty());
    assert!(batch.outcomes().is_empty());
    batch.advance(Event::SetupSucceeded);
    assert_eq!(batch.advance(Event::SetupSucceeded), None);
    assert_eq!(batch.advance(Event::SetupFailed), None);
    assert_eq!(batch.next_action(), Action::Run(0));
}

#[test]
fn empty_batch_is_done_at_once() {
    let mut batch = Batch::new(Vec::new());
    assert!(batch.is_done());
    assert_eq!(batch.next_action(), Action::Finish);
    assert_eq!(batch.advance(Event::SetupSucceeded), None);
    assert!(batch.into_results().is_empty());
}

#[test]
fn unknown_identifier_is_a_validation_error() {
    assert!(matches!(Batch::by_id("no-such-target"), Err(ValidationError::UnknownTarget)));
    assert!(matches!(Batch::by_id("encryption"), Err(ValidationError::UnknownTarget)));
    assert!(matches!(Batch::by_id(""), Err(ValidationError::UnknownTarget)));
}

#[test]
fn prefix_without_match_is_a_validation_error() {
    assert!(matches!(Batch::by_prefix("nothing"), Err(ValidationError::NoMatch)));
    assert!(matches!(Batch::by_prefix("Encryption"), Err(ValidationError::NoMatch)));
    assert_eq!(Batch::by_prefix("").unwrap().len(), 12);
    assert_eq!(Batch::by_prefix("hashing-").unwrap().len(), 2);
    assert_eq!(Batch::by_prefix("storage-read-1mb").unwrap().len(), 1);
}

#[test]
fn messages_name_the_target() {
    assert_eq!(setup_failure_message("t", "no disk"), "Setup failed for t: no disk");
    assert_eq!(teardown_failure_message("t", "busy"), "Teardown failed for t: busy");
    assert_eq!(
        validation_message(ValidationError::UnknownTarget, "x"),
        "Benchmark target 'x' not found"
    );
    assert_eq!(
        validation_message(ValidationError::NoMatch, "y"),
        "No benchmarks found with prefix 'y'"
    );
}
