//! Benchmark orchestration and measurement: a catalog of targets, the
//! statistics of their timed trials, the records they produce and how the
//! records are stored and reported.

pub mod adapters;
pub mod clock;
pub mod commands;
pub mod infra;
pub mod io;
pub mod metrics;
pub mod orchestrator;
pub mod report;
pub mod result;
pub mod stats;
pub mod text;

pub use adapters::all_targets;
pub use adapters::list_benchmark_ids;
pub use adapters::target_by_id;
pub use adapters::targets_by_prefix;
pub use adapters::BenchTarget;
pub use adapters::Target;
pub use io::BenchmarkIO;
pub use io::DEFAULT_OUTPUT_DIR;
pub use io::RAW_OUTPUT_DIR;
pub use io::SUMMARY_FILE;
pub use metrics::StandardMetrics;
pub use report::generate_summary;
pub use result::BenchmarkResult;
