use std::path::PathBuf;

use traffic_replayer::config::{Config, InputSource};
use traffic_replayer::error::TrafficReplayerError;
use traffic_replayer::filters::{BoxedFilter, FilterChain, MethodFilter};
use traffic_replayer::keys::KeySet;
use traffic_replayer::models::{ReplayOutcome, ReplayRecord, SanitizedReplayRecord};
use traffic_replayer::replay::client::{build_client, client_settings, ClientSettings};
use traffic_replayer::replay::pipeline::{LineAction, LineEvent, Progress, RecordAction};
use traffic_replayer::replay::sender::{DryRunSender, HttpSender, Sender, SenderFactory};
use traffic_replayer::sanitize::RecordSanitizer;
use traffic_replayer::stats::StatsAccumulator;

fn config(dry_run: bool, follow_redirects: bool) -> Config {
    Config {
        base_url: "http://localhost".into(),
        input_source: InputSource::LocalFile(PathBuf::from("/dev/null")),
        concurrency: 12,
        timeout_ms: 30000,
        connect_timeout_ms: 5000,
        methods: vec![],
        path_prefixes: vec![],
        statuses: vec![],
        rate: None,
        dry_run,
        verbose: false,
        output_stats: None,
        max_records: None,
        insecure_skip_tls_verify: true,
        follow_redirects,
        aws_region: None,
        passthrough_keys: KeySet::new(),
        drain_timeout_ms: 5000,
    }
}

fn rec(method: &str, body: Option<&str>) -> ReplayRecord {
    ReplayRecord {
        timestamp: None,
        method: method.to_string(),
        path: "/p".to_string(),
        query: Some("token=t".to_string()),
        headers: None,
        body: body.map(|b| b.to_string()),
        body_encoding: Some("base64".to_string()),
        content_type: None,
        status: Some(200),
    }
}

fn request(method: &str) -> SanitizedReplayRecord {
    RecordSanitizer::new(KeySet::new()).sanitize(rec(method, Some("aGk=")), "http://h").unwrap()
}

#[test]
fn lines_are_counted_by_the_way_they_end() {
    let filters =
        FilterChain::new(vec![BoxedFilter { filter: Box::new(MethodFilter::new(vec!["GET".into()])) }]);
    let sanitizer = RecordSanitizer::new(KeySet::new());
    let mut progress = Progress::new();
    assert!(matches!(progress.on_event(LineEvent::ReadFailed), LineAction::Skip));
    assert!(matches!(progress.on_event(LineEvent::Line(" \t\u{a0}\r".into())), LineAction::Skip));
    match progress.on_event(LineEvent::Line("  {broken \n".into())) {
        LineAction::Parse(text) => assert_eq!(text, "{broken"),
        _ => panic!("not parsed"),
    }
    assert_eq!(progress.total_lines, 2);
    progress.on_parse_error();
    assert!(matches!(
        progress.on_record(rec("POST", None), &filters, &sanitizer, "http://h"),
        RecordAction::Skip
    ));
    match progress.on_record(rec("GET", Some("!")), &filters, &sanitizer, "http://h") {
        RecordAction::Fail(TrafficReplayerError::Base64Decode(_)) => {}
        _ => panic!("not refused"),
    }
    match progress.on_record(rec("get", None), &filters, &sanitizer, "http://h") {
        RecordAction::Send(sent) => {
            assert_eq!((sent.method.as_str(), sent.url.as_str()), ("get", "http://h/p?token=[REDACTED]"))
        }
        _ => panic!("not sent"),
    }
    assert_eq!(progress.total_lines, 6);
    assert_eq!(progress.parse_errors, 3);
    assert_eq!(progress.filtered_count, 1);
    assert_eq!(progress.records_dispatched, 2);
    assert!(!progress.interrupted);
}

#[test]
fn too_many_headers_are_given_up() {
    let sanitizer = RecordSanitizer::new(KeySet::new());
    let mut record = rec("GET", None);
    record.headers = Some((0..40000).map(|i| (format!("x-{}", i), vec!["v".to_string()])).collect());
    let mut progress = Progress::new();
    let open = FilterChain::new(vec![]);
    assert!(matches!(
        progress.on_record(record, &open, &sanitizer, "http://h"),
        RecordAction::GiveUp
    ));
    assert_eq!((progress.total_lines, progress.records_dispatched), (0, 0));
}

#[test]
fn broken_bodies_are_counted_however_many_headers_there_are() {
    let sanitizer = RecordSanitizer::new(KeySet::new());
    let mut record = rec("GET", Some("!"));
    record.headers =
        Some((0..40000).map(|i| (format!("x-{}", i), vec!["v".to_string()])).collect());
    let mut progress = Progress::new();
    let open = FilterChain::new(vec![]);
    assert!(matches!(
        progress.on_record(record, &open, &sanitizer, "http://h"),
        RecordAction::Fail(TrafficReplayerError::Base64Decode(_))
    ));
    assert_eq!(
        (progress.total_lines, progress.parse_errors, progress.records_dispatched),
        (1, 1, 1)
    );
}

#[test]
fn the_limit_stops_the_run() {
    let filters = FilterChain::new(vec![]);
    let sanitizer = RecordSanitizer::new(KeySet::new());
    let mut progress = Progress::new();
    let mut read = 0;
    while progress.wants_more(Some(3)) && read < 10 {
        progress.on_record(rec("GET", None), &filters, &sanitizer, "http://h");
        read += 1;
    }
    assert_eq!((read, progress.records_dispatched, progress.total_lines), (3, 3, 3));
    assert!(progress.wants_more(None));
    assert!(!Progress::new().wants_more(Some(0)));
}

#[test]
fn the_end_and_an_interrupt_stop_the_run() {
    let mut progress = Progress::new();
    assert!(matches!(progress.on_event(LineEvent::EndOfInput), LineAction::Stop));
    assert!(!progress.interrupted);
    assert!(matches!(progress.on_event(LineEvent::Cancelled), LineAction::Stop));
    assert!(progress.interrupted);
    assert_eq!(progress.total_lines, 0);
}

#[test]
fn counts_of_lines_are_merged_into_the_statistics() {
    let mut progress = Progress::new();
    progress.on_event(LineEvent::ReadFailed);
    progress.on_event(LineEvent::Line("".into()));
    let mut acc = StatsAccumulator::new();
    acc.record_outcome(&DryRunSender.send(request("GET")));
    acc.total_lines = 77;
    let merged = progress.merge_into(acc);
    assert_eq!((merged.total_lines, merged.parse_errors, merged.filtered_count), (2, 1, 0));
    assert_eq!((merged.attempted, merged.succeeded, merged.failed), (1, 1, 0));
}

#[test]
fn a_dry_run_sends_nothing() {
    match SenderFactory::from_config(&config(true, false)) {
        Ok(Sender::DryRun(sender)) => {
            let ReplayOutcome { status, latency_us, error, was_dry_run } = sender.send(request("GET"));
            assert_eq!((status, latency_us, error, was_dry_run), (None, 0, None, true));
        }
        _ => panic!("not a dry run"),
    }
}

#[test]
fn other_runs_send_over_http() {
    assert!(matches!(SenderFactory::from_config(&config(false, true)), Ok(Sender::Http(_))));
    assert!(matches!(SenderFactory::from_config(&config(false, false)), Ok(Sender::Http(_))));
}

#[test]
fn client_settings_follow_the_configuration() {
    assert_eq!(
        client_settings(&config(false, true)),
        ClientSettings {
            timeout_ms: 30000,
            connect_timeout_ms: 5000,
            follow_redirects: true,
            gzip: true,
            max_idle_per_host: 12,
            accept_invalid_certs: true,
        }
    );
}

#[test]
fn clients_are_built_with_the_settings() {
    let shown = |follow: bool| format!("{:?}", build_client(&config(false, follow)).unwrap());
    assert!(shown(false).contains("redirect_policy"));
    assert!(!shown(true).contains("redirect_policy"));
    assert!(shown(true).contains("30s"));
}

#[test]
fn requests_take_over_the_record() {
    let sender = HttpSender::new(build_client(&config(false, false)).unwrap());
    for method in ["GET", "get", "M-SEARCH", "A_VERY_LONG_EXTENSION_METHOD!"] {
        let prepared = match sender.prepare(request(method)) {
            Ok(prepared) => prepared,
            Err(outcome) => panic!("refused: {:?}", outcome),
        };
        assert_eq!(prepared.method.as_str(), method);
        assert_eq!(prepared.url, "http://h/p?token=[REDACTED]");
        assert_eq!(prepared.headers.len(), 0);
        assert_eq!(prepared.body.unwrap().as_ref(), b"hi");
    }
}

#[test]
fn methods_that_are_no_tokens_are_refused() {
    let sender = HttpSender::new(build_client(&config(false, false)).unwrap());
    for method in ["", "GE T", "GÉT", "GET/", "[GET]"] {
        match sender.prepare(request(method)) {
            Ok(_) => panic!("accepted {:?}", method),
            Err(outcome) => {
                assert_eq!(
                    outcome.error,
                    Some(format!("Invalid method {}: invalid HTTP method", method))
                );
                assert_eq!((outcome.status, outcome.latency_us), (None, 0));
                assert!(!outcome.was_dry_run);
            }
        }
    }
}

#[test]
fn outcomes_of_requests() {
    let sender = HttpSender::new(build_client(&config(false, false)).unwrap());
    let answered = sender.answered(503, 17);
    assert_eq!((answered.status, answered.latency_us, answered.error), (Some(503), 17, None));
    let lost = sender.unanswered("timed out".to_string(), 18);
    assert_eq!((lost.status, lost.latency_us), (None, 18));
    assert_eq!(lost.error.as_deref(), Some("timed out"));
    assert!(!answered.was_dry_run && !lost.was_dry_run);
}
