//! The results bundle: metadata carry-over, success and failure recording,
//! and the happy-path shape of one verified test.

use tfb_toolset::docker::docker_config::DockerConfig;
use tfb_toolset::docker::listener::benchmarker::parse_wrk_text;
use tfb_toolset::docker::network::NetworkMode;
use tfb_toolset::error::ToolsetError;
use tfb_toolset::io::Logger;
use tfb_toolset::results::{Git, Results};

fn config(concurrency: &str) -> DockerConfig {
    DockerConfig::new(
        "localhost",
        "localhost",
        "localhost",
        "tfb-server",
        "tfb-database",
        "tfb-client",
        NetworkMode::Bridge,
        "n1",
        "n2",
        "n3",
        concurrency,
        "256,1024",
        "1,5,10",
        "1,10,20",
        15,
        "20200810202733",
        "test rig",
        None,
        Logger::default(),
        false,
        false,
    )
}

fn git() -> Git {
    Git {
        commit_id: "deadbeef".to_string(),
        repository_url: "https://example.invalid/repo.git".to_string(),
        branch_name: "master".to_string(),
    }
}

#[test]
fn a_fresh_bundle_carries_the_parsed_parameter_lists() {
    let results = Results::new(&config("16,32,64"), Vec::new(), "uuid-1".to_string(), 42, git())
        .unwrap();
    assert_eq!(results.concurrency_levels, vec![16, 32, 64]);
    assert_eq!(results.pipeline_concurrency_levels, vec![256, 1024]);
    assert_eq!(results.query_intervals, vec![1, 5, 10]);
    assert_eq!(results.cached_query_intervals, vec![1, 10, 20]);
    assert_eq!(results.name, "20200810202733");
    assert_eq!(results.start_time, 42);
    assert_eq!(results.duration, 15);
    assert!(results.raw_data.is_empty());
}

#[test]
fn a_malformed_parameter_list_is_a_configuration_error() {
    let outcome = Results::new(&config("16,oops"), Vec::new(), "u".to_string(), 0, git());
    assert!(matches!(outcome, Err(ToolsetError::InvalidConfigError(_, _))));
}

#[test]
fn successful_benchmarks_land_under_test_type_and_framework() {
    let mut results =
        Results::new(&config("16"), Vec::new(), "u".to_string(), 0, git()).unwrap();
    let report = parse_wrk_text(
        "  2 threads and 10 connections\n\
    Latency   1.23ms   456us   7.89s   99.9%\n\
  1275 requests in 15.00s, 167.92MB read\n",
        100,
    );
    results.report_benchmark_success(&vec![report.clone(), report], "Gemini", "plaintext", 9000);
    assert_eq!(results.raw_data.len(), 1);
    assert_eq!(results.raw_data[0].0, "plaintext");
    assert_eq!(results.raw_data[0].1[0].0, "gemini");
    let rows = &results.raw_data[0].1[0].1;
    assert_eq!(rows.len(), 2);
    assert_eq!(rows[0].latency_avg, "1.23ms");
    assert_eq!(rows[0].latency_max, "7.89s");
    assert_eq!(rows[0].latency_stdev, "456us");
    assert_eq!(rows[0].total_requests, 1275);
    assert_eq!(rows[0].start_time, 100);
    assert_eq!(rows[0].end_time, 15100);
    assert_eq!(results.succeeded[0].0, "plaintext");
    assert_eq!(results.succeeded[0].1, vec!["gemini".to_string()]);
    assert_eq!(results.completed[0], ("gemini".to_string(), "9000".to_string()));
    // a later completion replaces the stamp in place
    results.report_benchmark_success(&Vec::new(), "Gemini", "json", 9500);
    assert_eq!(results.completed.len(), 1);
    assert_eq!(results.completed[0].1, "9500");
}

#[test]
fn failed_benchmarks_join_the_failed_set_under_their_own_name() {
    let mut results =
        Results::new(&config("16"), Vec::new(), "u".to_string(), 0, git()).unwrap();
    results.report_benchmark_error("gemini-postgres", "db");
    results.report_benchmark_error("other", "db");
    assert_eq!(results.failed.len(), 1);
    assert_eq!(results.failed[0].0, "db");
    assert_eq!(
        results.failed[0].1,
        vec!["gemini-postgres".to_string(), "other".to_string()]
    );
    assert!(results.succeeded.is_empty());
}
