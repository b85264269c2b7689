use std::path::PathBuf;

use traffic_replayer::cli::Cli;
use traffic_replayer::config::{Config, InputSource};
use traffic_replayer::error::TrafficReplayerError;
use traffic_replayer::input::{resolve_region, SourceFactory, SourcePlan};
use traffic_replayer::keys::KeySet;

fn cli() -> Cli {
    Cli {
        base_url: "http://localhost:8080".into(),
        input_file: Some(PathBuf::from("/tmp/test.ndjson")),
        s3_bucket: None,
        s3_key: None,
        concurrency: 50,
        timeout_ms: 30000,
        connect_timeout_ms: 5000,
        methods: vec![],
        path_prefixes: vec![],
        statuses: vec![],
        rate: None,
        dry_run: false,
        verbose: false,
        output_stats: None,
        max_records: None,
        insecure_skip_tls_verify: false,
        follow_redirects: false,
        aws_region: None,
        sanitize_passthrough_keys: None,
        drain_timeout_ms: 5000,
    }
}

fn rejected(cli: Cli) -> String {
    Config::from_cli(cli).unwrap_err().message()
}

#[test]
fn flags_are_taken_over() {
    let mut flags = cli();
    flags.methods = vec!["get".into(), "Post".into()];
    flags.path_prefixes = vec!["/Api".into()];
    flags.statuses = vec![200, 404];
    flags.rate = Some(7);
    flags.dry_run = true;
    flags.verbose = true;
    flags.output_stats = Some(PathBuf::from("stats.json"));
    flags.max_records = Some(9);
    flags.insecure_skip_tls_verify = true;
    flags.follow_redirects = true;
    flags.aws_region = Some("eu-west-1".into());
    flags.concurrency = 3;
    flags.timeout_ms = 4;
    flags.connect_timeout_ms = 5;
    flags.drain_timeout_ms = 6;
    let config = Config::from_cli(flags).unwrap();
    assert_eq!(config.base_url, "http://localhost:8080");
    assert_eq!(config.input_source.as_local_path(), Some(&PathBuf::from("/tmp/test.ndjson")));
    assert_eq!(config.methods, vec!["GET", "POST"]);
    assert_eq!(config.path_prefixes, vec!["/Api"]);
    assert_eq!(config.statuses, vec![200, 404]);
    assert_eq!(config.rate, Some(7));
    assert!(config.dry_run && config.verbose);
    assert_eq!(config.output_stats, Some(PathBuf::from("stats.json")));
    assert_eq!(config.max_records, Some(9));
    assert!(config.insecure_skip_tls_verify && config.follow_redirects);
    assert_eq!(config.aws_region.as_deref(), Some("eu-west-1"));
    assert_eq!(
        (config.concurrency, config.timeout_ms, config.connect_timeout_ms, config.drain_timeout_ms),
        (3, 4, 5, 6)
    );
    assert!(config.passthrough_keys.is_empty());
}

#[test]
fn s3_needs_bucket_and_key() {
    let mut flags = cli();
    flags.input_file = None;
    flags.s3_bucket = Some("b".into());
    flags.s3_key = Some("k".into());
    let config = Config::from_cli(flags).unwrap();
    assert!(config.input_source.as_local_path().is_none());
    match config.input_source {
        InputSource::S3 { bucket, key } => assert_eq!((bucket, key), ("b".into(), "k".into())),
        other => panic!("unexpected: {:?}", other),
    }
}

#[test]
fn a_source_is_required() {
    let mut flags = cli();
    flags.input_file = None;
    assert_eq!(
        rejected(flags),
        "Config validation error: Must provide either --input-file or both --s3-bucket and --s3-key"
    );
}

#[test]
fn sources_exclude_each_other() {
    let message =
        "Config validation error: --input-file and --s3-bucket/--s3-key are mutually exclusive";
    let mut flags = cli();
    flags.s3_bucket = Some("b".into());
    flags.s3_key = Some("k".into());
    assert_eq!(rejected(flags), message);
    let mut flags = cli();
    flags.s3_key = Some("k".into());
    assert_eq!(rejected(flags), message);
    let mut flags = cli();
    flags.input_file = None;
    flags.s3_bucket = Some("b".into());
    assert_eq!(rejected(flags), message);
    let mut flags = cli();
    flags.input_file = None;
    flags.s3_key = Some("k".into());
    flags.base_url = "".into();
    assert_eq!(rejected(flags), message);
}

#[test]
fn base_url_is_required() {
    let mut flags = cli();
    flags.base_url = "".into();
    assert_eq!(rejected(flags), "Config validation error: --base-url cannot be empty");
}

#[test]
fn base_url_loses_its_last_slashes() {
    for (given, kept) in
        [("http://h/", "http://h"), ("http://h///", "http://h"), ("http://h/a", "http://h/a"), ("//", "")]
    {
        let mut flags = cli();
        flags.base_url = given.into();
        assert_eq!(Config::from_cli(flags).unwrap().base_url, kept);
    }
}

#[test]
fn passthrough_keys_are_trimmed_and_lowercased() {
    let mut flags = cli();
    flags.sanitize_passthrough_keys = Some(" Key , session_id,,KEY,\tÄ\n".into());
    let keys = Config::from_cli(flags).unwrap().passthrough_keys;
    assert_eq!(keys.len(), 3);
    for key in ["key", "session_id", "ä"] {
        assert!(keys.contains(key));
    }
    assert!(!keys.contains(""));
    assert!(!keys.contains("Key"));
    let mut flags = cli();
    flags.sanitize_passthrough_keys = Some("a, ,b".into());
    let keys = Config::from_cli(flags).unwrap().passthrough_keys;
    assert_eq!(keys.len(), 3);
    assert!(keys.contains(""));
}

#[test]
fn key_sets_hold_each_key_once() {
    let mut keys = KeySet::new();
    assert!(keys.is_empty());
    assert!(keys.insert("a".into()));
    assert!(!keys.insert("a".into()));
    assert!(keys.insert("b".into()));
    let copy = keys.clone();
    assert!(keys.insert("c".into()));
    assert_eq!((keys.len(), copy.len()), (3, 2));
    assert!(copy.contains("b") && !copy.contains("c"));
}

#[test]
fn errors_say_what_they_are() {
    let e = || "why".to_string();
    for (error, message) in [
        (TrafficReplayerError::Io(e()), "IO error: why"),
        (TrafficReplayerError::S3(e()), "S3 error: why"),
        (TrafficReplayerError::JsonParse(e()), "JSON parse error: why"),
        (TrafficReplayerError::UrlConstruction(e()), "URL construction error: why"),
        (TrafficReplayerError::Request(e()), "Request error: why"),
        (TrafficReplayerError::ConfigValidation(e()), "Config validation error: why"),
        (TrafficReplayerError::Base64Decode(e()), "Base64 decode error: why"),
    ] {
        assert_eq!(error.message(), message);
    }
}

#[test]
fn regions_come_from_the_flag_first() {
    let s = |t: &str| Some(t.to_string());
    assert_eq!(resolve_region(&s("a"), s("b")), s("a"));
    assert_eq!(resolve_region(&None, s("b")), s("b"));
    assert_eq!(resolve_region(&s("a"), None), s("a"));
    assert_eq!(resolve_region(&None, None), None);
}

#[test]
fn sources_follow_the_configuration() {
    let config = Config::from_cli(cli()).unwrap();
    match SourceFactory::create(&config, None) {
        SourcePlan::Local(path) => assert_eq!(path, &PathBuf::from("/tmp/test.ndjson")),
        SourcePlan::S3 { .. } => panic!("unexpected"),
    }
    let mut flags = cli();
    flags.input_file = None;
    flags.s3_bucket = Some("b".into());
    flags.s3_key = Some("k".into());
    let config = Config::from_cli(flags).unwrap();
    match SourceFactory::create(&config, Some("r".to_string())) {
        SourcePlan::S3 { bucket, key, region } => {
            assert_eq!((bucket.as_str(), key.as_str(), region.as_deref()), ("b", "k", Some("r")))
        }
        SourcePlan::Local(_) => panic!("unexpected"),
    }
}

#[test]
fn copies_of_flags_and_configurations_are_equal() {
    let mut flags = cli();
    flags.methods = vec!["get".into()];
    flags.output_stats = Some(PathBuf::from("o"));
    flags.sanitize_passthrough_keys = Some("a,b".into());
    let copy = flags.clone();
    assert_eq!(format!("{:?}", copy), format!("{:?}", flags));
    let config = Config::from_cli(copy).unwrap();
    assert_eq!(format!("{:?}", config.clone()), format!("{:?}", config));
    let s3 = InputSource::S3 { bucket: "b".into(), key: "k".into() };
    assert_eq!(format!("{:?}", s3.clone()), format!("{:?}", s3));
}
