use traffic_replayer::config::{Config, InputSource};
use traffic_replayer::filters::{
    BoxedFilter, Filter, FilterChain, FilterFactory, MethodFilter, PathPrefixFilter, StatusFilter,
};
use traffic_replayer::keys::KeySet;
use traffic_replayer::models::ReplayRecord;

fn rec(method: &str, path: &str, status: u16) -> ReplayRecord {
    ReplayRecord {
        timestamp: None,
        method: method.to_string(),
        path: path.to_string(),
        query: None,
        headers: None,
        body: None,
        body_encoding: None,
        content_type: None,
        status: Some(status),
    }
}

fn config(methods: Vec<String>, path_prefixes: Vec<String>, statuses: Vec<u16>) -> Config {
    Config {
        base_url: "http://localhost".into(),
        input_source: InputSource::LocalFile("/dev/null".into()),
        concurrency: 50,
        timeout_ms: 30000,
        connect_timeout_ms: 5000,
        methods,
        path_prefixes,
        statuses,
        rate: None,
        dry_run: false,
        verbose: false,
        output_stats: None,
        max_records: None,
        insecure_skip_tls_verify: false,
        follow_redirects: false,
        aws_region: None,
        passthrough_keys: KeySet::new(),
        drain_timeout_ms: 5000,
    }
}

#[test]
fn method_filter_passes_matching() {
    let f = MethodFilter::new(vec!["GET".into()]);
    assert!(f.matches(&rec("GET", "/", 200)));
}

#[test]
fn method_filter_blocks_non_matching() {
    let f = MethodFilter::new(vec!["GET".into()]);
    assert!(!f.matches(&rec("POST", "/", 200)));
}

#[test]
fn method_filter_case_insensitive() {
    let f = MethodFilter::new(vec!["GET".into()]);
    assert!(f.matches(&rec("get", "/", 200)));
    assert!(f.matches(&rec("Get", "/", 200)));
}

#[test]
fn method_filter_takes_methods_in_any_case() {
    let f = MethodFilter::new(vec!["patch".into()]);
    assert!(f.matches(&rec("PATCH", "/", 200)));
    assert!(!f.matches(&rec("PATC", "/", 200)));
}

#[test]
fn method_filter_or_across_values() {
    let f = MethodFilter::new(vec!["GET".into(), "POST".into()]);
    assert!(f.matches(&rec("GET", "/", 200)));
    assert!(f.matches(&rec("POST", "/", 200)));
    assert!(!f.matches(&rec("DELETE", "/", 200)));
}

#[test]
fn path_prefix_or_semantics() {
    let f = PathPrefixFilter::new(vec!["/api/v1".into(), "/health".into()]);
    assert!(f.matches(&rec("GET", "/api/v1/users", 200)));
    assert!(f.matches(&rec("GET", "/health", 200)));
    assert!(!f.matches(&rec("GET", "/other", 200)));
}

#[test]
fn path_prefix_exact_match() {
    let f = PathPrefixFilter::new(vec!["/api".into()]);
    assert!(f.matches(&rec("GET", "/api", 200)));
    assert!(f.matches(&rec("GET", "/api/v1", 200)));
    assert!(!f.matches(&rec("GET", "/ap", 200)));
}

#[test]
fn status_filter_or_across_values() {
    let f = StatusFilter::new(vec![200, 201]);
    assert!(f.matches(&rec("GET", "/", 200)));
    assert!(f.matches(&rec("GET", "/", 201)));
    assert!(!f.matches(&rec("GET", "/", 404)));
}

#[test]
fn status_filter_none_treated_as_zero() {
    let f = StatusFilter::new(vec![200]);
    let r = ReplayRecord {
        status: None,
        timestamp: None,
        method: "GET".into(),
        path: "/".into(),
        query: None,
        headers: None,
        body: None,
        body_encoding: None,
        content_type: None,
    };
    assert!(!f.matches(&r));
}

#[test]
fn missing_status_matches_no_number() {
    let f = StatusFilter::new(vec![0, 200]);
    let mut r = rec("GET", "/", 0);
    assert!(f.matches(&r));
    r.status = None;
    assert!(!f.matches(&r));
}

#[test]
fn empty_chain_passes_all() {
    let chain = FilterChain::new(vec![]);
    assert!(chain.is_empty());
    assert!(chain.matches(&rec("DELETE", "/anything", 500)));
}

#[test]
fn chain_and_logic() {
    let chain = FilterChain::new(vec![
        BoxedFilter { filter: Box::new(MethodFilter::new(vec!["GET".into()])) },
        BoxedFilter { filter: Box::new(PathPrefixFilter::new(vec!["/api".into()])) },
        BoxedFilter { filter: Box::new(StatusFilter::new(vec![200])) },
    ]);
    assert!(!chain.is_empty());
    assert!(chain.matches(&rec("GET", "/api/v1", 200)));
    assert!(!chain.matches(&rec("POST", "/api/v1", 200)));
    assert!(!chain.matches(&rec("GET", "/other", 200)));
    assert!(!chain.matches(&rec("GET", "/api/v1", 404)));
}

#[test]
fn factory_empty_config_empty_chain() {
    let chain = FilterFactory::from_config(&config(vec![], vec![], vec![]));
    assert!(chain.is_empty());
    assert!(chain.matches(&rec("GET", "/", 200)));
}

#[test]
fn factory_combines_all_filters() {
    let chain = FilterFactory::from_config(&config(
        vec!["get".into(), "POST".into()],
        vec!["/api".into(), "/health".into()],
        vec![200, 201],
    ));
    assert!(!chain.is_empty());
    assert!(chain.matches(&rec("Get", "/health", 201)));
    assert!(chain.matches(&rec("POST", "/api/v2", 200)));
    assert!(!chain.matches(&rec("PUT", "/api/v2", 200)));
    assert!(!chain.matches(&rec("POST", "/app", 200)));
    assert!(!chain.matches(&rec("POST", "/api", 202)));
}

#[test]
fn factory_leaves_empty_lists_out() {
    let only_status = FilterFactory::from_config(&config(vec![], vec![], vec![500]));
    assert!(only_status.matches(&rec("TRACE", "/x", 500)));
    assert!(!only_status.matches(&rec("TRACE", "/x", 501)));
    let only_path = FilterFactory::from_config(&config(vec![], vec!["/x".into()], vec![]));
    assert!(only_path.matches(&rec("TRACE", "/x/y", 1)));
    assert!(!only_path.matches(&rec("TRACE", "x", 1)));
}

#[test]
fn filters_describe_themselves() {
    assert_eq!(
        MethodFilter::new(vec!["get".into(), "POST".into()]).description(),
        "method ∈ [\"GET\", \"POST\"]"
    );
    assert_eq!(
        PathPrefixFilter::new(vec!["/api".into()]).description(),
        "path starts_with any of [\"/api\"]"
    );
    assert_eq!(StatusFilter::new(vec![200, 404]).description(), "status ∈ [200, 404]");
    for statuses in [vec![], vec![7], vec![0, 65535, 10]] {
        let expected = format!("status ∈ {:?}", statuses);
        assert_eq!(StatusFilter::new(statuses).description(), expected);
    }
}
