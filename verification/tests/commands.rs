use vault_benchmarks::commands::completed_message;
use vault_benchmarks::commands::no_results_message;
use vault_benchmarks::commands::render_listing;
use vault_benchmarks::commands::saved_message;
use vault_benchmarks::commands::BenchmarkCommands;
use vault_benchmarks::commands::BenchmarkSubcommand;
use vault_benchmarks::commands::ListBenchmarksCommand;
use vault_benchmarks::commands::ResultsCommand;
use vault_benchmarks::commands::RunBenchmarkCommand;
use vault_benchmarks::clock::Timestamp;
use vault_benchmarks::metrics::MetricMap;
use vault_benchmarks::orchestrator::ValidationError;
use vault_benchmarks::BenchTarget;
use vault_benchmarks::BenchmarkResult;

fn run(target: Option<&str>, prefix: Option<&str>) -> RunBenchmarkCommand {
    RunBenchmarkCommand {
        target: target.map(|s| s.to_string()),
        prefix: prefix.map(|s| s.to_string()),
        save: true,
        output_dir: None,
        iterations: None,
    }
}

fn record(id: &str, secs: i64) -> BenchmarkResult {
    BenchmarkResult::with_timestamp(id, MetricMap::new(), Timestamp::new(secs, 0))
}

#[test]
fn run_plans_one_target_by_identifier() {
    let batch = run(Some("hashing-sha256-1mb"), None).plan().unwrap();
    assert_eq!(batch.len(), 1);
    assert_eq!(batch.target(0).id(), "hashing-sha256-1mb");
}

#[test]
fn run_prefers_the_identifier_over_the_prefix() {
    let batch = run(Some("storage-read-1mb"), Some("encryption")).plan().unwrap();
    assert_eq!(batch.len(), 1);
    assert_eq!(batch.target(0).id(), "storage-read-1mb");
    let command = run(Some("missing"), Some("encryption"));
    assert!(matches!(command.plan(), Err(ValidationError::UnknownTarget)));
    assert_eq!(command.asked(), "missing");
}

#[test]
fn run_plans_the_targets_under_a_prefix() {
    let batch = run(None, Some("storage")).plan().unwrap();
    assert_eq!(batch.len(), 2);
    assert_eq!(batch.target(0).id(), "storage-write-1mb");
    assert_eq!(batch.target(1).id(), "storage-read-1mb");
    let command = run(None, Some("zzz"));
    assert!(matches!(command.plan(), Err(ValidationError::NoMatch)));
    assert_eq!(command.asked(), "zzz");
}

#[test]
fn run_plans_the_whole_catalog_by_default() {
    let command = run(None, None);
    assert_eq!(command.plan().unwrap().len(), 12);
    assert_eq!(command.asked(), "");
}

#[test]
fn run_saves_to_the_directory_asked_for() {
    let default = run(None, None).storage().unwrap();
    assert_eq!(default.output_dir(), "benchmarks/output");
    assert_eq!(default.raw_dir(), "benchmarks/output/raw");
    let mut command = run(None, None);
    command.output_dir = Some("out".to_string());
    let custom = command.storage().unwrap();
    assert_eq!(custom.output_dir(), "out");
    assert_eq!(custom.raw_dir(), "out/raw");
    command.save = false;
    assert!(command.storage().is_none());
}

#[test]
fn list_selects_by_prefix_or_everything() {
    let all = ListBenchmarksCommand { prefix: None };
    assert_eq!(all.select().len(), 12);
    assert_eq!(all.ids().len(), 12);
    let some = ListBenchmarksCommand { prefix: Some("hashing".to_string()) };
    assert_eq!(some.ids(), vec!["hashing-blake3-1mb", "hashing-sha256-1mb"]);
    let none = ListBenchmarksCommand { prefix: Some("nothing".to_string()) };
    assert!(none.select().is_empty());
    assert!(none.ids().is_empty());
}

#[test]
fn listing_is_a_table() {
    let ids = vec!["encryption-1kb".to_string(), "x".repeat(40)];
    let descriptions = vec!["Measures things".to_string(), "".to_string()];
    let mut expected = String::new();
    expected.push_str("Available Benchmarks:\n\n");
    expected.push_str(&format!("{:<35} {}\n", "ID", "Description"));
    expected.push_str(&format!("{}\n", "-".repeat(70)));
    expected.push_str(&format!("{:<35} {}\n", ids[0], descriptions[0]));
    expected.push_str(&format!("{:<35} {}\n", ids[1], descriptions[1]));
    expected.push_str("\nTotal: 2 benchmark(s)\n");
    assert_eq!(render_listing(&ids, &descriptions), expected);
    assert_eq!(
        render_listing(&Vec::new(), &Vec::new()),
        format!(
            "Available Benchmarks:\n\n{:<35} {}\n{}\n\nTotal: 0 benchmark(s)\n",
            "ID",
            "Description",
            "-".repeat(70)
        )
    );
}

#[test]
fn results_are_read_from_the_directory_asked_for() {
    let default = ResultsCommand { path: None, latest: false, detailed: false }.storage();
    assert_eq!(default.raw_dir(), "benchmarks/output/raw");
    let custom = ResultsCommand { path: Some("p".to_string()), latest: false, detailed: true }.storage();
    assert_eq!(custom.output_dir(), "p");
    assert_eq!(custom.raw_dir(), "p/raw");
}

#[test]
fn results_show_everything_or_the_latest() {
    let results = vec![record("a", 1), record("b", 2), record("a", 3)];
    let everything = ResultsCommand { path: None, latest: false, detailed: false }.select(&results);
    assert_eq!(everything, vec![0, 1, 2]);
    let latest = ResultsCommand { path: None, latest: true, detailed: false }.select(&results);
    assert_eq!(latest, vec![2, 1]);
}

#[test]
fn command_messages() {
    assert_eq!(saved_message("benchmarks/output"), "\nResults saved to: benchmarks/output/");
    assert_eq!(completed_message(12), "\nCompleted 12 benchmark(s)");
    assert_eq!(completed_message(0), "\nCompleted 0 benchmark(s)");
    assert_eq!(no_results_message(), "No benchmark results found.");
}

#[test]
fn commands_wrap_one_subcommand() {
    let commands = BenchmarkCommands {
        command: BenchmarkSubcommand::List(ListBenchmarksCommand { prefix: None }),
    };
    assert!(matches!(commands.command, BenchmarkSubcommand::List(_)));
    let commands = BenchmarkCommands { command: BenchmarkSubcommand::Run(run(None, None)) };
    assert!(matches!(commands.command, BenchmarkSubcommand::Run(_)));
    let commands = BenchmarkCommands {
        command: BenchmarkSubcommand::Results(ResultsCommand { path: None, latest: true, detailed: false }),
    };
    assert!(matches!(commands.command, BenchmarkSubcommand::Results(_)));
}
