//! The load-generator report parser, exercised on canonical transcripts.

use tfb_toolset::docker::listener::benchmarker::{parse_wrk_text, Benchmarker};

const CANONICAL: &str = "Running 15s test @ http://tfb-server:8080/plaintext\n\
  2 threads and 10 connections\n\
  Thread Stats   Avg      Stdev     Max   +/- Stdev\n\
    Latency   1.23ms   456us   7.89s   99.9%\n\
    Req/Sec   42.5k     3.2k    55.0k    88%\n\
  Latency Distribution\n\
     50%   1.00ms\n\
     75%   2.00ms\n\
     90%   3.00ms\n\
     99%   9.00ms\n\
  1275 requests in 15.02s, 167.92MB read\n\
Requests/sec:  12345.67\n\
Transfer/sec:  11.18MB\n";

#[test]
fn it_parses_a_canonical_wrk_report() {
    let r = parse_wrk_text(CANONICAL, 1000);
    assert_eq!(r.threads, 2);
    assert_eq!(r.connections, 10);
    assert_eq!(r.thread_stats.latency.average, "1.23ms");
    assert_eq!(r.thread_stats.latency.standard_deviation, "456us");
    assert_eq!(r.thread_stats.latency.max, "7.89s");
    assert_eq!(r.thread_stats.latency.plus_minus_std_dev, "99.9%");
    assert_eq!(r.thread_stats.requests_per_second.average, "42.5k");
    assert_eq!(r.thread_stats.requests_per_second.max, "55.0k");
    assert_eq!(r.latency_distribution.percentile_50, "1.00ms");
    assert_eq!(r.latency_distribution.percentile_75, "2.00ms");
    assert_eq!(r.latency_distribution.percentile_90, "3.00ms");
    assert_eq!(r.latency_distribution.percentile_99, "9.00ms");
    assert_eq!(r.total_requests, 1275);
    assert_eq!(r.duration_ms, 15020);
    assert_eq!(r.data_read, "167.92MB");
    assert_eq!(r.requests_per_second, "12345.67");
    assert_eq!(r.transfer_per_second, "11.18MB");
    assert!(r.socket_errors.is_none());
    assert!(r.non_2xx_3xx.is_none());
    assert_eq!(r.start_time, 1000);
    assert_eq!(r.end_time, 1000 + 15020);
}

#[test]
fn it_parses_socket_errors_and_non_2xx() {
    let text = "  Socket errors: connect 1, read 2, write 3, timeout 4\n\
Non-2xx or 3xx responses: 17\n";
    let r = parse_wrk_text(text, 0);
    let se = r.socket_errors.expect("socket errors parsed");
    assert_eq!(se.connect, 1);
    assert_eq!(se.read, 2);
    assert_eq!(se.write, 3);
    assert_eq!(se.timeout, 4);
    assert_eq!(r.non_2xx_3xx, Some(17));
}

#[test]
fn it_defaults_missing_blocks_to_empty() {
    let r = parse_wrk_text("no report here\n", 5);
    assert_eq!(r.threads, 0);
    assert_eq!(r.thread_stats.latency.average, "");
    assert_eq!(r.latency_distribution.percentile_50, "");
    assert_eq!(r.total_requests, 0);
    assert_eq!(r.duration_ms, 0);
    assert_eq!(r.requests_per_second, "");
    assert_eq!(r.start_time, 5);
    assert_eq!(r.end_time, 5);
}

#[test]
fn it_parses_whole_second_durations() {
    let r = parse_wrk_text("  10 requests in 15s, 1.0MB read\n", 0);
    assert_eq!(r.total_requests, 10);
    assert_eq!(r.duration_ms, 15000);
}

#[test]
fn a_formatted_summary_parses_back_to_the_same_fields() {
    let first = parse_wrk_text(CANONICAL, 777);
    let rendered = first.format_summary();
    let second = parse_wrk_text(rendered.as_str(), 777);
    assert_eq!(second.threads, first.threads);
    assert_eq!(second.connections, first.connections);
    assert_eq!(
        second.thread_stats.latency.average,
        first.thread_stats.latency.average
    );
    assert_eq!(second.thread_stats.latency.max, first.thread_stats.latency.max);
    assert_eq!(
        second.thread_stats.requests_per_second.average,
        first.thread_stats.requests_per_second.average
    );
    assert_eq!(
        second.latency_distribution.percentile_50,
        first.latency_distribution.percentile_50
    );
    assert_eq!(
        second.latency_distribution.percentile_99,
        first.latency_distribution.percentile_99
    );
    assert_eq!(second.total_requests, first.total_requests);
    assert_eq!(second.duration_ms, first.duration_ms);
    assert_eq!(second.data_read, first.data_read);
    assert_eq!(second.requests_per_second, first.requests_per_second);
    assert_eq!(second.transfer_per_second, first.transfer_per_second);
    assert_eq!(second.socket_errors, first.socket_errors);
    assert_eq!(second.non_2xx_3xx, first.non_2xx_3xx);
}

#[test]
fn a_summary_with_socket_errors_round_trips() {
    let text = "  8 threads and 256 connections\n\
    Latency   1.23ms   456us   7.89s   99.9%\n\
    Req/Sec   42.5k     3.2k    55.0k    88%\n\
     50%   1.00ms\n\
     75%   2.00ms\n\
     90%   3.00ms\n\
     99%   9.00ms\n\
  1275 requests in 3.20s, 167.92MB read\n\
  Socket errors: connect 9, read 8, write 7, timeout 6\n\
Non-2xx or 3xx responses: 41\n\
Requests/sec:  12345.67\n\
Transfer/sec:  11.18MB\n";
    let first = parse_wrk_text(text, 0);
    assert_eq!(first.duration_ms, 3200);
    let second = parse_wrk_text(first.format_summary().as_str(), 0);
    assert_eq!(second.socket_errors, first.socket_errors);
    assert_eq!(second.non_2xx_3xx, Some(41));
    assert_eq!(second.duration_ms, 3200);
    assert_eq!(second.total_requests, 1275);
}

#[test]
fn the_listener_buffers_chunks_and_parses_at_the_end() {
    let mut listener = Benchmarker::new(50);
    let all = CANONICAL.as_bytes();
    let mid = all.len() / 2;
    let logs_a = listener.write(&all[..mid]);
    let logs_b = listener.write(&all[mid..]);
    assert!(!logs_a.is_empty() || !logs_b.is_empty());
    let parsed = listener.parse_wrk_output().expect("utf-8 transcript parses");
    assert_eq!(parsed.threads, 2);
    assert_eq!(parsed.total_requests, 1275);
    assert_eq!(parsed.start_time, 50);
}

#[test]
fn non_utf8_output_is_a_parse_error() {
    let mut listener = Benchmarker::new(0);
    listener.write(&[0xff, 0xfe, 0x00, 0xff]);
    assert!(matches!(
        listener.parse_wrk_output(),
        Err(tfb_toolset::error::ToolsetError::BenchmarkDataParseError)
    ));
}
