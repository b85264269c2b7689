//! Whole runs over lines of input, with a function in the place of the server.

use std::path::PathBuf;

use indexmap::IndexMap;
use serde_json::Value;

use traffic_replayer::config::{Config, InputSource};
use traffic_replayer::filters::{
    BoxedFilter, FilterChain, FilterFactory, MethodFilter, PathPrefixFilter,
};
use traffic_replayer::json::JsonValue;
use traffic_replayer::keys::KeySet;
use traffic_replayer::models::{
    deserialize_headers, AggregatedStats, ReplayOutcome, ReplayRecord, SanitizedReplayRecord,
};
use traffic_replayer::replay::pipeline::{LineAction, LineEvent, Progress, RecordAction};
use traffic_replayer::replay::sender::{Sender, SenderFactory};
use traffic_replayer::sanitize::SanitizerFactory;
use traffic_replayer::stats::StatsAccumulator;

const GET_USERS: &str = r#"{"method":"GET","path":"/api/users","status":200}"#;
const POST_USERS: &str = r#"{"method":"POST","path":"/api/users","body":"{\"name\":\"alice\"}","body_encoding":"utf8","content_type":"application/json","status":201}"#;
const GET_ADMIN: &str = r#"{"method":"GET","path":"/admin/secret","status":200}"#;
const BAD_JSON: &str = r#"not-valid-json at all"#;

fn make_config(base_url: &str) -> Config {
    Config {
        base_url: base_url.trim_end_matches('/').to_string(),
        input_source: InputSource::LocalFile(PathBuf::from("traffic.ndjson")),
        concurrency: 4,
        timeout_ms: 5000,
        connect_timeout_ms: 2000,
        methods: vec![],
        path_prefixes: vec![],
        statuses: vec![],
        rate: None,
        dry_run: false,
        verbose: false,
        output_stats: None,
        max_records: None,
        insecure_skip_tls_verify: false,
        follow_redirects: false,
        aws_region: None,
        passthrough_keys: KeySet::new(),
        drain_timeout_ms: 2000,
    }
}

fn no_filters() -> FilterChain {
    FilterChain::new(vec![])
}

fn parse(text: &str) -> Option<ReplayRecord> {
    let value: Value = serde_json::from_str(text).ok()?;
    let field = |name: &str| value[name].as_str().map(|s| s.to_string());
    let headers: Option<IndexMap<String, Value>> =
        serde_json::from_str(&value["headers"].to_string()).ok()?;
    Some(ReplayRecord {
        timestamp: field("timestamp"),
        method: field("method")?,
        path: field("path")?,
        query: field("query"),
        headers: deserialize_headers(headers.map(|raw| {
            raw.into_iter().map(|(k, v)| (k, JsonValue::from_value(v))).collect()
        })),
        body: field("body"),
        body_encoding: field("body_encoding"),
        content_type: field("content_type"),
        status: value["status"].as_u64().map(|s| s as u16),
    })
}

/// Runs the lines; `server` gives the status of every request that is sent.
fn run(
    config: &Config,
    lines: &[&str],
    filters: FilterChain,
    cancelled: bool,
    server: &mut dyn FnMut(&SanitizedReplayRecord) -> u16,
) -> (AggregatedStats, bool) {
    let sender = SenderFactory::from_config(config).unwrap();
    let sanitizer = SanitizerFactory::from_config(config);
    let mut progress = Progress::new();
    let mut stats = StatsAccumulator::new();
    let mut input = lines.iter();
    while progress.wants_more(config.max_records) {
        let event = if cancelled {
            LineEvent::Cancelled
        } else {
            match input.next() {
                Some(line) => LineEvent::Line(line.to_string()),
                None => LineEvent::EndOfInput,
            }
        };
        let text = match progress.on_event(event) {
            LineAction::Stop => break,
            LineAction::Skip => continue,
            LineAction::Parse(text) => text,
        };
        let record = match parse(&text) {
            Some(record) => record,
            None => {
                progress.on_parse_error();
                continue;
            }
        };
        match progress.on_record(record, &filters, &sanitizer, &config.base_url) {
            RecordAction::Send(request) => {
                let outcome = match &sender {
                    Sender::DryRun(dry) => dry.send(request),
                    Sender::Http(http) => {
                        let status = server(&request);
                        match http.prepare(request) {
                            Ok(_) => http.answered(status, 1000),
                            Err(outcome) => outcome,
                        }
                    }
                };
                stats.record_outcome(&outcome);
            }
            _ => continue,
        }
    }
    let interrupted = progress.interrupted;
    (progress.merge_into(stats).finalize(), interrupted)
}

fn always_ok(_: &SanitizedReplayRecord) -> u16 {
    200
}

#[test]
fn test_local_ndjson_end_to_end() {
    let mut urls = Vec::new();
    let mut server = |r: &SanitizedReplayRecord| {
        urls.push((r.method.clone(), r.url.clone()));
        if r.method == "POST" { 201 } else { 200 }
    };
    let (stats, interrupted) =
        run(&make_config("http://h"), &[GET_USERS, POST_USERS], no_filters(), false, &mut server);
    assert_eq!(stats.total_lines, 2);
    assert_eq!(stats.parse_errors, 0);
    assert_eq!(stats.filtered_count, 0);
    assert_eq!(stats.attempted, 2);
    assert_eq!(stats.succeeded, 2);
    assert_eq!(stats.failed, 0);
    assert!(!interrupted);
    assert_eq!(
        urls,
        vec![
            ("GET".to_string(), "http://h/api/users".to_string()),
            ("POST".to_string(), "http://h/api/users".to_string()),
        ]
    );
}

#[test]
fn test_parse_errors_counted_replay_continues() {
    let (stats, _) = run(
        &make_config("http://h"),
        &[BAD_JSON, GET_USERS, BAD_JSON],
        no_filters(),
        false,
        &mut always_ok,
    );
    assert_eq!(stats.total_lines, 3);
    assert_eq!(stats.parse_errors, 2);
    assert_eq!(stats.attempted, 1);
    assert_eq!(stats.succeeded, 1);
}

#[test]
fn test_method_filter_blocks_non_matching() {
    let chain =
        FilterChain::new(vec![BoxedFilter { filter: Box::new(MethodFilter::new(vec!["GET".into()])) }]);
    let (stats, _) =
        run(&make_config("http://h"), &[GET_USERS, POST_USERS], chain, false, &mut always_ok);
    assert_eq!(stats.filtered_count, 1);
    assert_eq!(stats.attempted, 1);
}

#[test]
fn test_path_prefix_filter_or_semantics() {
    let chain = FilterChain::new(vec![BoxedFilter {
        filter: Box::new(PathPrefixFilter::new(vec!["/api".into()])),
    }]);
    let (stats, _) =
        run(&make_config("http://h"), &[GET_USERS, GET_ADMIN], chain, false, &mut always_ok);
    assert_eq!(stats.filtered_count, 1);
    assert_eq!(stats.attempted, 1);
}

#[test]
fn test_dry_run_sends_no_requests() {
    let mut config = make_config("http://h");
    config.dry_run = true;
    let mut server = |_: &SanitizedReplayRecord| -> u16 { panic!("something was sent") };
    let (stats, _) = run(&config, &[GET_USERS, POST_USERS], no_filters(), false, &mut server);
    assert_eq!(stats.attempted, 2);
    assert_eq!(stats.succeeded, 2);
    assert_eq!(stats.failed, 0);
}

#[test]
fn test_stats_2xx_vs_non_2xx() {
    let not_found = r#"{"method":"GET","path":"/not-found","status":200}"#;
    let mut server =
        |r: &SanitizedReplayRecord| if r.url.ends_with("/not-found") { 404 } else { 200 };
    let (stats, _) = run(
        &make_config("http://h"),
        &[GET_USERS, GET_USERS, not_found],
        no_filters(),
        false,
        &mut server,
    );
    assert_eq!(stats.attempted, 3);
    assert_eq!(stats.succeeded, 2);
    assert_eq!(stats.failed, 1);
    assert_eq!(stats.status_distribution[&200], 2);
    assert_eq!(stats.status_distribution[&404], 1);
}

#[test]
fn test_max_records_limits_replay() {
    let mut config = make_config("http://h");
    config.max_records = Some(3);
    let (stats, _) = run(&config, &vec![GET_USERS; 10], no_filters(), false, &mut always_ok);
    assert_eq!(stats.attempted, 3);
}

#[test]
fn test_cancellation_sets_interrupted_flag() {
    let (stats, interrupted) =
        run(&make_config("http://h"), &vec![GET_USERS; 500], no_filters(), true, &mut always_ok);
    assert!(interrupted);
    assert_eq!(stats.total_lines, 0);
}

#[test]
fn test_url_no_double_slash() {
    let mut server = |r: &SanitizedReplayRecord| {
        assert_eq!(r.url, "http://h/api/users");
        200
    };
    let (stats, _) =
        run(&make_config("http://h/"), &[GET_USERS], no_filters(), false, &mut server);
    assert_eq!(stats.attempted, 1);
}

#[test]
fn test_empty_input_yields_zero_counts() {
    let (stats, _) = run(&make_config("http://h"), &[], no_filters(), false, &mut always_ok);
    assert_eq!(stats.total_lines, 0);
    assert_eq!(stats.attempted, 0);
}

#[test]
fn test_pii_auth_header_stripped() {
    let pii_line = r#"{"method":"GET","path":"/api/users","headers":{"authorization":"Bearer secret","accept":"application/json"},"status":200}"#;
    let mut server = |r: &SanitizedReplayRecord| {
        assert_eq!(r.headers.get("accept").unwrap(), "application/json");
        if r.headers.contains_key("authorization") { 501 } else { 200 }
    };
    let (stats, _) = run(&make_config("http://h"), &[pii_line], no_filters(), false, &mut server);
    assert_eq!(stats.attempted, 1);
    assert_eq!(stats.succeeded, 1, "auth must be stripped so mock returns 200");
}

#[test]
fn test_status_filter_via_factory() {
    // Record with status=200 passes; record with status=404 is filtered
    let line_404 = r#"{"method":"GET","path":"/api/users","status":404}"#;
    let mut config = make_config("http://h");
    config.statuses = vec![200]; // only replay status=200 records
    let chain = FilterFactory::from_config(&config);
    let (stats, _) = run(&config, &[GET_USERS, line_404], chain, false, &mut always_ok);
    assert_eq!(stats.filtered_count, 1);
    assert_eq!(stats.attempted, 1);
}

#[test]
fn test_filtered_records_not_in_attempted() {
    // GET /api only
    let chain = FilterChain::new(vec![
        BoxedFilter { filter: Box::new(MethodFilter::new(vec!["GET".into()])) },
        BoxedFilter { filter: Box::new(PathPrefixFilter::new(vec!["/api".into()])) },
    ]);
    let (stats, _) = run(
        &make_config("http://h"),
        &[GET_USERS, POST_USERS, GET_ADMIN],
        chain,
        false,
        &mut always_ok,
    );
    assert_eq!(stats.total_lines, 3);
    assert_eq!(stats.filtered_count, 2); // POST and /admin filtered
    assert_eq!(stats.attempted, 1);
    assert_eq!(stats.succeeded, 1);
}

#[test]
fn test_run_stats_aggregator() {
    let mut acc = StatsAccumulator::new();
    for i in 0..5u16 {
        acc.record_outcome(&ReplayOutcome {
            status: Some(200 + i),
            latency_us: (i as u64 + 1) * 1000,
            error: None,
            was_dry_run: false,
        });
    }
    assert_eq!(acc.attempted, 5);
    assert_eq!(acc.succeeded, 5);
}
