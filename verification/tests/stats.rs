use traffic_replayer::models::ReplayOutcome;
use traffic_replayer::stats::{categorize_error, StatsAccumulator};
use traffic_replayer::summary::{exit_code, summary_lines, RunEnd};

fn make_outcome(status: Option<u16>, latency_us: u64, error: Option<&str>) -> ReplayOutcome {
    ReplayOutcome {
        status,
        latency_us,
        error: error.map(|s| s.to_string()),
        was_dry_run: false,
    }
}

fn make_dry_run_outcome() -> ReplayOutcome {
    ReplayOutcome {
        status: None,
        latency_us: 0,
        error: None,
        was_dry_run: true,
    }
}

// Counting

#[test]
fn test_successful_request_increments_succeeded() {
    let mut acc = StatsAccumulator::new();
    acc.record_outcome(&make_outcome(Some(200), 1000, None));
    assert_eq!(acc.attempted, 1);
    assert_eq!(acc.succeeded, 1);
    assert_eq!(acc.failed, 0);
}

#[test]
fn test_non_2xx_increments_failed() {
    let mut acc = StatsAccumulator::new();
    acc.record_outcome(&make_outcome(Some(404), 500, None));
    acc.record_outcome(&make_outcome(Some(500), 800, None));
    assert_eq!(acc.attempted, 2);
    assert_eq!(acc.succeeded, 0);
    assert_eq!(acc.failed, 2);
}

#[test]
fn test_2xx_boundary_values() {
    let mut acc = StatsAccumulator::new();
    acc.record_outcome(&make_outcome(Some(200), 100, None));
    acc.record_outcome(&make_outcome(Some(201), 100, None));
    acc.record_outcome(&make_outcome(Some(299), 100, None));
    acc.record_outcome(&make_outcome(Some(300), 100, None)); // NOT 2xx
    assert_eq!(acc.succeeded, 3);
    assert_eq!(acc.failed, 1);
}

#[test]
fn test_transport_error_no_status_increments_failed() {
    let mut acc = StatsAccumulator::new();
    acc.record_outcome(&make_outcome(None, 200, Some("connection refused")));
    assert_eq!(acc.attempted, 1);
    assert_eq!(acc.succeeded, 0);
    assert_eq!(acc.failed, 1);
}

#[test]
fn test_dry_run_increments_attempted_and_succeeded() {
    let mut acc = StatsAccumulator::new();
    acc.record_outcome(&make_dry_run_outcome());
    assert_eq!(acc.attempted, 1);
    assert_eq!(acc.succeeded, 1);
    assert_eq!(acc.failed, 0);
    // Histogram should not record dry-run latency
    assert_eq!(acc.histogram.len(), 0);
}

#[test]
fn test_status_distribution() {
    let mut acc = StatsAccumulator::new();
    acc.record_outcome(&make_outcome(Some(200), 100, None));
    acc.record_outcome(&make_outcome(Some(200), 200, None));
    acc.record_outcome(&make_outcome(Some(404), 50, None));
    assert_eq!(acc.status_distribution[&200], 2);
    assert_eq!(acc.status_distribution[&404], 1);
}

// Errors

#[test]
fn test_error_category_timeout() {
    let mut acc = StatsAccumulator::new();
    acc.record_outcome(&make_outcome(None, 30_000_000, Some("request timed out after 30s")));
    assert_eq!(acc.error_categories.get("timeout").copied(), Some(1));
}

#[test]
fn test_error_category_connection_refused() {
    let mut acc = StatsAccumulator::new();
    acc.record_outcome(&make_outcome(None, 10, Some("tcp connect error: connection refused")));
    assert_eq!(acc.error_categories.get("connection-refused").copied(), Some(1));
}

#[test]
fn test_error_category_tls() {
    let mut acc = StatsAccumulator::new();
    acc.record_outcome(&make_outcome(None, 100, Some("TLS handshake failed: invalid certificate")));
    assert_eq!(acc.error_categories.get("tls").copied(), Some(1));
}

#[test]
fn test_error_category_other() {
    let mut acc = StatsAccumulator::new();
    acc.record_outcome(&make_outcome(None, 100, Some("some unexpected I/O error")));
    assert_eq!(acc.error_categories.get("other").copied(), Some(1));
}

#[test]
fn errors_go_by_the_first_word_that_fits() {
    assert_eq!(categorize_error("Operation TIMEOUT"), "timeout");
    assert_eq!(categorize_error("tls: timed out"), "timeout");
    assert_eq!(categorize_error("ssl: Connection Refused"), "connection-refused");
    assert_eq!(categorize_error("bad Certificate"), "tls");
    assert_eq!(categorize_error("OpenSSL"), "tls");
    assert_eq!(categorize_error(""), "other");
    assert_eq!(categorize_error("time out"), "other");
}

#[test]
fn error_kinds_are_counted_apart() {
    let mut acc = StatsAccumulator::new();
    assert!(acc.error_categories.is_empty());
    for e in ["x", "timeout", "y", "ssl", "z"] {
        acc.record_outcome(&make_outcome(None, 1, Some(e)));
    }
    assert_eq!(
        acc.error_categories.entries(),
        &vec![("other".to_string(), 3), ("timeout".to_string(), 1), ("tls".to_string(), 1)]
    );
    assert!(!acc.error_categories.is_empty());
    assert_eq!(acc.error_categories.get("connection-refused"), None);
}

// Latencies

#[test]
fn test_latency_recorded_in_histogram() {
    let mut acc = StatsAccumulator::new();
    acc.record_outcome(&make_outcome(Some(200), 5000, None));
    acc.record_outcome(&make_outcome(Some(200), 10000, None));
    assert_eq!(acc.histogram.len(), 2);
}

#[test]
fn test_zero_latency_not_recorded_in_histogram() {
    // Guard: `if outcome.latency_us > 0` → 0 is skipped
    let mut acc = StatsAccumulator::new();
    acc.record_outcome(&make_outcome(Some(200), 0, None));
    assert_eq!(acc.histogram.len(), 0);
}

#[test]
fn test_latency_clamped_at_max() {
    let mut acc = StatsAccumulator::new();
    // 70 seconds > 60_000_000 µs max → clamped before recording.
    // The histogram keeps 3 significant figures, so the stored value rounds to the
    // nearest bucket (≤ 1% of 60_000_000).
    acc.record_outcome(&make_outcome(Some(200), 70_000_000, None));
    assert_eq!(acc.histogram.len(), 1);
    let recorded = acc.histogram.value_at_percentile(100);
    assert!(
        recorded >= 59_400_000 && recorded <= 60_600_000,
        "expected ~60_000_000 µs, got {} µs",
        recorded
    );
}

#[test]
fn test_finalize_computes_throughput() {
    let mut acc = StatsAccumulator::new();
    for _ in 0..100 {
        acc.record_outcome(&make_outcome(Some(200), 1000, None));
    }
    let stats = acc.finalize();
    assert_eq!(stats.attempted, 100);
    assert_eq!(stats.succeeded, 100);
}

#[test]
fn test_finalize_percentiles_monotonic() {
    let mut acc = StatsAccumulator::new();
    for i in 1..=100u64 {
        acc.record_outcome(&make_outcome(Some(200), i * 1000, None));
    }
    let stats = acc.finalize();
    assert!(stats.p50_us <= stats.p95_us, "p50 must be <= p95");
    assert!(stats.p95_us <= stats.p99_us, "p95 must be <= p99");
    assert!(stats.p50_us > 0);
}

#[test]
fn test_finalize_with_no_requests() {
    let acc = StatsAccumulator::new();
    let stats = acc.finalize();
    assert_eq!(stats.attempted, 0);
    assert_eq!(stats.succeeded, 0);
    assert_eq!(stats.failed, 0);
    assert_eq!(stats.p50_us, 0);
    assert_eq!(stats.p95_us, 0);
    assert_eq!(stats.p99_us, 0);
}

#[test]
fn percentiles_of_a_hundred_latencies() {
    let mut acc = StatsAccumulator::new();
    for i in 1..=100u64 {
        acc.record_outcome(&make_outcome(Some(200), i, None));
    }
    assert_eq!(acc.histogram.value_at_percentile(100), 100);
    let stats = acc.finalize();
    assert_eq!((stats.p50_us, stats.p95_us, stats.p99_us), (50, 95, 99));
    assert_eq!((stats.attempted, stats.succeeded, stats.failed), (100, 100, 0));
    let mut acc = StatsAccumulator::new();
    for latency in [10, 20] {
        acc.record_outcome(&make_outcome(Some(200), latency, None));
    }
    let stats = acc.finalize();
    assert_eq!((stats.p50_us, stats.p95_us, stats.p99_us), (10, 20, 20));
}

#[test]
fn copies_of_statistics_are_equal() {
    let mut acc = StatsAccumulator::new();
    acc.record_outcome(&make_outcome(Some(503), 9, Some("ssl")));
    acc.record_outcome(&make_outcome(None, 8, Some("?")));
    acc.parse_errors = 4;
    let stats = acc.finalize();
    let copy = stats.clone();
    assert_eq!(
        summary_lines(&copy, "1.00", "2.0", false),
        summary_lines(&stats, "1.00", "2.0", false)
    );
    assert_eq!(copy.error_categories.entries(), stats.error_categories.entries());
}

#[test]
fn percentiles_are_near_recorded_latencies() {
    let mut acc = StatsAccumulator::new();
    for i in 1..=1000u64 {
        acc.record_outcome(&make_outcome(Some(200), i, None));
    }
    let stats = acc.finalize();
    assert_eq!((stats.p50_us, stats.p95_us, stats.p99_us), (500, 950, 990));
    let mut acc = StatsAccumulator::new();
    for latency in [5_000_000u64, 10, 123_456] {
        acc.record_outcome(&make_outcome(Some(200), latency, None));
    }
    let stats = acc.finalize();
    assert!(stats.p50_us >= 123_456 && (stats.p50_us - 123_456) * 1000 <= 123_456);
    assert!(stats.p99_us >= 5_000_000 && (stats.p99_us - 5_000_000) * 1000 <= 5_000_000);
}

#[test]
fn arrival_order_does_not_count() {
    let outcomes = vec![
        make_outcome(Some(200), 10, None),
        make_outcome(Some(404), 20, None),
        make_outcome(None, 30, Some("timeout")),
        make_dry_run_outcome(),
        make_outcome(Some(200), 40, Some("ssl")),
    ];
    let mut forwards = StatsAccumulator::new();
    forwards.record_outcome(&make_outcome(Some(500), 5, None));
    for o in &outcomes {
        forwards.record_outcome(o);
    }
    let mut backwards = StatsAccumulator::new();
    backwards.record_outcome(&make_outcome(Some(500), 5, None));
    for o in outcomes.iter().rev() {
        backwards.record_outcome(o);
    }
    let (a, b) = (forwards.finalize(), backwards.finalize());
    assert_eq!((a.attempted, a.succeeded, a.failed), (6, 3, 3));
    assert_eq!((b.attempted, b.succeeded, b.failed), (6, 3, 3));
    assert_eq!(a.status_distribution, b.status_distribution);
    assert_eq!(a.error_categories.get("timeout"), b.error_categories.get("timeout"));
    assert_eq!(a.error_categories.get("tls"), b.error_categories.get("tls"));
    assert_eq!((a.p50_us, a.p95_us, a.p99_us), (b.p50_us, b.p95_us, b.p99_us));
}

// Summary

#[test]
fn summary_of_an_empty_run() {
    let stats = StatsAccumulator::new().finalize();
    let rule = "─────────────────────────────────────────";
    assert_eq!(
        summary_lines(&stats, "0.00", "0.0", false),
        vec![
            "\nRun complete — Summary:",
            rule,
            "  Lines read:        0",
            "  Parse errors:      0",
            "  Filtered:          0",
            "  Attempted:         0",
            "  Succeeded (2xx):   0",
            "  Failed:            0",
            "  Elapsed:           0.00s",
            "  Throughput:        0.0 req/s",
            rule,
            "  Latency (µs):",
            "    p50:  0",
            "    p95:  0",
            "    p99:  0",
            rule,
        ]
    );
}

#[test]
fn summary_lists_statuses_in_order() {
    let mut acc = StatsAccumulator::new();
    for status in [503u16, 200, 65535, 0, 200, 404] {
        acc.record_outcome(&make_outcome(Some(status), 7, None));
    }
    acc.record_outcome(&make_outcome(None, 7, Some("refused")));
    acc.total_lines = 18_446_744_073_709_551_615;
    acc.parse_errors = 10;
    acc.filtered_count = 99;
    let lines = summary_lines(&acc.finalize(), "12.34", "5.6", true);
    let rule = "─────────────────────────────────────────";
    assert_eq!(lines[0], "\n[INTERRUPTED] Partial run summary:");
    assert_eq!(lines[2], "  Lines read:        18446744073709551615");
    assert_eq!(lines[3], "  Parse errors:      10");
    assert_eq!(lines[4], "  Filtered:          99");
    assert_eq!(lines[12], "    p50:  7");
    assert_eq!(
        lines[15..].to_vec(),
        vec![
            rule,
            "  Status distribution:",
            "    0: 1",
            "    200: 2",
            "    404: 1",
            "    503: 1",
            "    65535: 1",
            rule,
            "  Error categories:",
            "    other: 1",
            rule,
        ]
    );
}

#[test]
fn exit_codes() {
    assert_eq!(exit_code(RunEnd::Completed), 0);
    assert_eq!(exit_code(RunEnd::Fatal), 1);
    assert_eq!(exit_code(RunEnd::Interrupted), 2);
}
