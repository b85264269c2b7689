use indexmap::IndexMap;
use traffic_replayer::config::{Config, InputSource};
use traffic_replayer::error::TrafficReplayerError;
use traffic_replayer::json::JsonValue;
use traffic_replayer::keys::KeySet;
use traffic_replayer::models::ReplayRecord;
use traffic_replayer::sanitize::{
    decoded_body, sanitize_body, sanitize_headers, sanitize_query, sanitize_record,
    BodySanitizer, HeaderSanitizer, QuerySanitizer, RecordSanitizer,
};

fn no_passthrough() -> KeySet {
    KeySet::new()
}

fn passthrough(keys: &[&str]) -> KeySet {
    let mut set = KeySet::new();
    for key in keys {
        set.insert(key.to_string());
    }
    set
}

fn record() -> ReplayRecord {
    ReplayRecord {
        method: "GET".into(),
        path: "/search".into(),
        query: None,
        headers: None,
        body: None,
        body_encoding: None,
        content_type: None,
        status: None,
        timestamp: None,
    }
}

// Headers

#[test]
fn header_sanitizer_removes_authorization() {
    let mut h = IndexMap::new();
    h.insert("authorization".into(), vec!["Bearer tok".into()]);
    h.insert("accept".into(), vec!["application/json".into()]);
    let result = HeaderSanitizer::new(no_passthrough()).sanitize(&h);
    assert!(!result.contains_key("authorization"));
    assert!(result.contains_key("accept"));
}

#[test]
fn header_sanitizer_removes_cookie_and_set_cookie() {
    let mut h = IndexMap::new();
    h.insert("cookie".into(), vec!["s=abc".into()]);
    h.insert("set-cookie".into(), vec!["id=xyz".into()]);
    let result = HeaderSanitizer::new(no_passthrough()).sanitize(&h);
    assert!(!result.contains_key("cookie"));
    assert!(!result.contains_key("set-cookie"));
}

#[test]
fn header_sanitizer_passthrough_key_exempts_header() {
    let mut h = IndexMap::new();
    h.insert("authorization".into(), vec!["Bearer tok".into()]);
    let mut pt = KeySet::new();
    pt.insert("authorization".into());
    let result = HeaderSanitizer::new(pt).sanitize(&h);
    assert!(result.contains_key("authorization"));
}

#[test]
fn kept_headers_keep_order_and_values() {
    let mut h: IndexMap<String, Vec<String>> = IndexMap::new();
    h.insert("X-B".into(), vec!["1".into(), "2".into()]);
    h.insert("X-Api-Key".into(), vec!["k".into()]);
    h.insert("Proxy-Authorization".into(), vec!["p".into()]);
    h.insert("accept".into(), vec![]);
    h.insert("authorization-info".into(), vec!["i".into()]);
    let result = sanitize_headers(&h, &no_passthrough());
    let entries: Vec<(String, Vec<String>)> = result.into_iter().collect();
    assert_eq!(
        entries,
        vec![
            ("X-B".to_string(), vec!["1".to_string(), "2".to_string()]),
            ("accept".to_string(), vec![]),
            ("authorization-info".to_string(), vec!["i".to_string()]),
        ]
    );
}

// Query

#[test]
fn query_sanitizer_redacts_email() {
    let result = QuerySanitizer::new(no_passthrough())
        .sanitize("?email=test@example.com&lang=en");
    assert!(result.contains("email=[REDACTED]"));
    assert!(result.contains("lang=en"));
}

#[test]
fn query_sanitizer_preserves_leading_question_mark() {
    let result = QuerySanitizer::new(no_passthrough()).sanitize("?foo=bar");
    assert!(result.starts_with('?'));
}

#[test]
fn query_sanitizer_passthrough_exempts_key() {
    let mut pt = KeySet::new();
    pt.insert("session".into());
    let result = QuerySanitizer::new(pt).sanitize("?session=abc123");
    assert!(result.contains("session=abc123"));
}

#[test]
fn query_is_sanitized_pair_by_pair() {
    let all = "?Email=a&phone=b&TOKEN=c&session=d&ssn=e&password=f&auth=g&key=h&keys=i&x";
    assert_eq!(
        sanitize_query(all, &no_passthrough()),
        "?Email=[REDACTED]&phone=[REDACTED]&TOKEN=[REDACTED]&session=[REDACTED]&ssn=[REDACTED]\
         &password=[REDACTED]&auth=[REDACTED]&key=[REDACTED]&keys=i&x"
    );
    assert_eq!(
        sanitize_query("a=1&key=x=y&&token", &no_passthrough()),
        "a=1&key=[REDACTED]&&token=[REDACTED]"
    );
    assert_eq!(sanitize_query("key=1&token=2", &passthrough(&["key"])), "key=1&token=[REDACTED]");
}

#[test]
fn empty_queries_stay_empty() {
    assert_eq!(sanitize_query("", &no_passthrough()), "");
    assert_eq!(sanitize_query("?", &no_passthrough()), "?");
    assert_eq!(sanitize_query("&", &no_passthrough()), "&");
    assert_eq!(sanitize_query("??token=1", &no_passthrough()), "??token=1");
}

#[test]
fn sanitizing_a_query_twice_changes_nothing_more() {
    for q in ["?token=a&b=c", "token", "?", "a&&b=&=c", "?key=1&KEY=2&ключ=3"] {
        let once = sanitize_query(q, &no_passthrough());
        assert_eq!(sanitize_query(&once, &no_passthrough()), once);
    }
}

#[test]
fn harmless_query_is_sent_as_it_is() {
    for q in ["?lang=en&page=2", "a=b=c&d", "&&", "?x=%20+é"] {
        assert_eq!(sanitize_query(q, &no_passthrough()), q);
    }
}

// Body

#[test]
fn body_sanitizer_redacts_json_password() {
    let body = r#"{"password":"secret","username":"alice"}"#;
    let result = BodySanitizer::new(no_passthrough())
        .sanitize(body, Some("application/json"));
    let v: serde_json::Value = serde_json::from_str(&result).unwrap();
    assert_eq!(v["password"], "[REDACTED]");
    assert_eq!(v["username"], "alice");
}

#[test]
fn body_sanitizer_non_json_passes_through() {
    let body = "password=secret&user=admin";
    let result = BodySanitizer::new(no_passthrough())
        .sanitize(body, Some("application/x-www-form-urlencoded"));
    assert_eq!(result, body);
}

#[test]
fn body_sanitizer_no_content_type_passes_through() {
    let body = r#"{"password":"secret"}"#;
    let result = BodySanitizer::new(no_passthrough()).sanitize(body, None);
    assert_eq!(result, body);
}

#[test]
fn body_sanitizer_nested_json_fully_redacted() {
    let body = r#"{"user":{"password":"x","email":"a@b.com"},"data":"ok"}"#;
    let result = BodySanitizer::new(no_passthrough())
        .sanitize(body, Some("application/json"));
    let v: serde_json::Value = serde_json::from_str(&result).unwrap();
    assert_eq!(v["user"]["password"], "[REDACTED]");
    assert_eq!(v["user"]["email"], "[REDACTED]");
    assert_eq!(v["data"], "ok");
}

#[test]
fn body_sanitizer_passthrough_key_exempts_body_field() {
    let mut pt = KeySet::new();
    pt.insert("token".into());
    let body = r#"{"token":"keep-me","password":"remove-me"}"#;
    let result = BodySanitizer::new(pt).sanitize(body, Some("application/json"));
    let v: serde_json::Value = serde_json::from_str(&result).unwrap();
    assert_eq!(v["token"], "keep-me");
    assert_eq!(v["password"], "[REDACTED]");
}

#[test]
fn redacted_body_is_written_anew() {
    let body = r#" { "z" : [ {"Secret": {"a": 1}}, 2 ], "API_KEY": null, "a": "x" } "#;
    assert_eq!(
        sanitize_body(body, Some("application/json; charset=utf-8"), &no_passthrough()),
        r#"{"API_KEY":"[REDACTED]","a":"x","z":[{"Secret":"[REDACTED]"},2]}"#
    );
}

#[test]
fn exempt_fields_are_not_looked_into() {
    let body = r#"{"cookie":{"password":"x"},"user":{"password":"y"}}"#;
    assert_eq!(
        sanitize_body(body, Some("application/json"), &passthrough(&["cookie"])),
        r#"{"cookie":{"password":"x"},"user":{"password":"[REDACTED]"}}"#
    );
}

#[test]
fn unreadable_json_stays_as_it_is() {
    for body in ["{\"password\":", "", "password"] {
        assert_eq!(sanitize_body(body, Some("application/json"), &no_passthrough()), body);
    }
    let deep = format!("{}{}", "[".repeat(128), "]".repeat(128));
    assert_eq!(sanitize_body(&deep, Some("application/json"), &no_passthrough()), deep);
    let allowed = format!(
        "{}{}{}",
        "[".repeat(126),
        "{\"token\":1}",
        "]".repeat(126)
    );
    assert!(sanitize_body(&allowed, Some("application/json"), &no_passthrough())
        .contains("{\"token\":\"[REDACTED]\"}"));
}

#[test]
fn content_type_counts_letter_by_letter() {
    let body = r#"{"ssn":"1"}"#;
    assert_eq!(sanitize_body(body, Some("Application/JSON"), &no_passthrough()), body);
    assert_eq!(sanitize_body(body, Some("application/jso"), &no_passthrough()), body);
    assert_eq!(
        sanitize_body(body, Some("x application/json x"), &no_passthrough()),
        r#"{"ssn":"[REDACTED]"}"#
    );
}

#[test]
fn sanitizing_a_body_twice_changes_nothing_more() {
    let body = r#"{"phone":{"x":[1]},"b":[{"authorization":"z"},"token"],"email":7}"#;
    let once = sanitize_body(body, Some("application/json"), &no_passthrough());
    assert_eq!(sanitize_body(&once, Some("application/json"), &no_passthrough()), once);
    assert_eq!(
        once,
        r#"{"b":[{"authorization":"[REDACTED]"},"token"],"email":"[REDACTED]","phone":"[REDACTED]"}"#
    );
}

#[test]
fn redact_works_on_values() {
    let value = JsonValue::Object(vec![
        ("Session".to_string(), JsonValue::Array(vec![JsonValue::Null])),
        ("sessions".to_string(), JsonValue::Array(vec![JsonValue::Bool(true)])),
    ]);
    let clean = BodySanitizer::new(no_passthrough()).redact(value).into_value();
    assert_eq!(clean.to_string(), r#"{"Session":"[REDACTED]","sessions":[true]}"#);
}

// Records

#[test]
fn record_sanitizer_builds_url_with_query() {
    let record = ReplayRecord {
        method: "GET".into(),
        path: "/search".into(),
        query: Some("?q=hello&token=secret".into()),
        headers: None,
        body: None,
        body_encoding: None,
        content_type: None,
        status: None,
        timestamp: None,
    };
    let san = RecordSanitizer::new(no_passthrough());
    let result = san.sanitize(record, "http://localhost:8080").unwrap();
    assert!(result.url.contains("token=[REDACTED]"));
    assert!(result.url.contains("q=hello"));
    assert!(!result.url.contains("//search")); // no double slash
}

#[test]
fn record_sanitizer_decodes_base64_body() {
    // base64("hello") = "aGVsbG8="
    let record = ReplayRecord {
        method: "POST".into(),
        path: "/upload".into(),
        query: None,
        headers: None,
        body: Some("aGVsbG8=".into()),
        body_encoding: Some("base64".into()),
        content_type: Some("application/octet-stream".into()),
        status: None,
        timestamp: None,
    };
    let san = RecordSanitizer::new(no_passthrough());
    let result = san.sanitize(record, "http://localhost").unwrap();
    assert_eq!(result.body.unwrap().as_ref(), b"hello");
}

#[test]
fn url_gets_its_question_mark() {
    let san = RecordSanitizer::new(no_passthrough());
    for (query, url) in [
        (None, "http://h/search"),
        (Some(""), "http://h/search"),
        (Some("?"), "http://h/search?"),
        (Some("a=1"), "http://h/search?a=1"),
        (Some("?a=1"), "http://h/search?a=1"),
        (Some("key=1"), "http://h/search?key=[REDACTED]"),
    ] {
        let mut r = record();
        r.query = query.map(|q: &str| q.to_string());
        assert_eq!(san.sanitize(r, "http://h").unwrap().url, url);
    }
}

#[test]
fn broken_base64_is_an_error() {
    let san = RecordSanitizer::new(no_passthrough());
    let mut r = record();
    r.body = Some("a!b=".into());
    r.body_encoding = Some("base64".into());
    match san.sanitize(r, "http://h") {
        Err(TrafficReplayerError::Base64Decode(words)) => {
            assert_eq!(words, "Invalid symbol 33, offset 1.");
        }
        other => panic!("unexpected: {:?}", other),
    }
}

#[test]
fn decoded_bodies_and_errors_are_passed_on() {
    assert_eq!(decoded_body(Ok(vec![1, 2, 255])).unwrap().as_ref(), &[1, 2, 255]);
    let failed = decoded_body(Err("no".to_string()));
    assert_eq!(failed.unwrap_err().message(), "Base64 decode error: no");
}

#[test]
fn base64_bodies_are_not_looked_into() {
    // {"password":"x"}
    let mut r = record();
    r.body = Some("eyJwYXNzd29yZCI6IngifQ==".into());
    r.body_encoding = Some("base64".into());
    r.content_type = Some("application/json".into());
    let sent = RecordSanitizer::new(no_passthrough()).sanitize(r, "http://h").unwrap();
    assert_eq!(sent.body.unwrap().as_ref(), br#"{"password":"x"}"#);
}

#[test]
fn other_bodies_are_sanitized_and_sent_in_utf8() {
    let san = RecordSanitizer::new(no_passthrough());
    let mut r = record();
    r.body = Some(r#"{"password":"x","é":"ü"}"#.into());
    r.body_encoding = Some("Base64".into());
    r.content_type = Some("application/json".into());
    let sent = san.sanitize(r, "http://h").unwrap();
    assert_eq!(
        sent.body.unwrap().as_ref(),
        r#"{"password":"[REDACTED]","é":"ü"}"#.as_bytes()
    );
    assert_eq!(sent.content_type.as_deref(), Some("application/json"));
    let mut r = record();
    r.body = Some("plain".into());
    assert_eq!(san.sanitize(r, "http://h").unwrap().body.unwrap().as_ref(), b"plain");
    assert!(san.sanitize(record(), "http://h").unwrap().body.is_none());
}

#[test]
fn sent_headers_are_clean() {
    let mut h: IndexMap<String, Vec<String>> = IndexMap::new();
    for (name, value) in [
        ("Host", "a"),
        ("content-length", "3"),
        ("Connection", "close"),
        ("transfer-encoding", "chunked"),
        ("Keep-Alive", "1"),
        ("Authorization", "secret"),
        ("bad name", "x"),
        ("", "x"),
        ("X-Ok", "yes"),
    ] {
        h.insert(name.to_string(), vec![value.to_string()]);
    }
    h.insert(
        "x-many".to_string(),
        vec!["1".to_string(), "line\nbreak".to_string(), "\ttab é".to_string()],
    );
    h.insert("x-ok".to_string(), vec!["again".to_string()]);
    let mut r = record();
    r.headers = Some(h);
    let sent = RecordSanitizer::new(no_passthrough()).sanitize(r, "http://h").unwrap().headers;
    assert_eq!(sent.keys_len(), 2);
    let ok: Vec<&[u8]> = sent.get_all("x-ok").iter().map(|v| v.as_bytes()).collect();
    assert_eq!(ok, vec![&b"yes"[..], &b"again"[..]]);
    let many: Vec<&[u8]> = sent.get_all("x-many").iter().map(|v| v.as_bytes()).collect();
    assert_eq!(many, vec![&b"1"[..], "\ttab é".as_bytes()]);
}

#[test]
fn exempt_headers_are_sent() {
    let mut h: IndexMap<String, Vec<String>> = IndexMap::new();
    h.insert("Cookie".into(), vec!["c".into()]);
    h.insert("Set-Cookie".into(), vec!["s".into()]);
    let mut r = record();
    r.headers = Some(h);
    let sent = RecordSanitizer::new(passthrough(&["cookie"])).sanitize(r, "http://h").unwrap();
    assert_eq!(sent.headers.get("cookie").unwrap(), "c");
    assert!(sent.headers.get("set-cookie").is_none());
}

#[test]
fn many_headers_fit_up_to_a_bound() {
    let san = RecordSanitizer::new(no_passthrough());
    let with_headers = |n: usize| -> ReplayRecord {
        let mut r = record();
        r.headers = Some(
            (0..n)
                .map(|i| (format!("x-{}", i), vec!["v".to_string(), "w".to_string()]))
                .collect(),
        );
        r
    };
    let sent = san.sanitize(with_headers(6553), "http://h").unwrap().headers;
    assert_eq!((sent.keys_len(), sent.len()), (6553, 2 * 6553));
    let sent = san.try_sanitize(with_headers(20000), "http://h").unwrap().unwrap().headers;
    assert_eq!((sent.keys_len(), sent.len()), (20000, 2 * 20000));
    assert!(san.try_sanitize(with_headers(40000), "http://h").is_none());
}

#[test]
fn sanitize_record_goes_by_the_configuration() {
    let config = Config {
        base_url: "http://localhost".into(),
        input_source: InputSource::LocalFile("/dev/null".into()),
        concurrency: 1,
        timeout_ms: 1,
        connect_timeout_ms: 1,
        methods: vec![],
        path_prefixes: vec![],
        statuses: vec![],
        rate: None,
        dry_run: false,
        verbose: false,
        output_stats: None,
        max_records: None,
        insecure_skip_tls_verify: false,
        follow_redirects: false,
        aws_region: None,
        passthrough_keys: passthrough(&["token"]),
        drain_timeout_ms: 1,
    };
    let mut r = record();
    r.query = Some("token=1&key=2".into());
    let sent = sanitize_record(r, &config, "http://b").unwrap();
    assert_eq!(sent.url, "http://b/search?token=1&key=[REDACTED]");
    assert_eq!(sent.method, "GET");
    assert_eq!(sent.headers.len(), 0);
}

#[test]
fn whole_numbers_read_back_as_they_were() {
    let body = r#"{"n":[0,-5,18446744073709551615,-9223372036854775808],"token":1.5}"#;
    let clean = sanitize_body(body, Some("application/json"), &no_passthrough());
    assert_eq!(
        clean,
        r#"{"n":[0,-5,18446744073709551615,-9223372036854775808],"token":"[REDACTED]"}"#
    );
}

#[test]
fn records_that_differ_in_secrets_are_sent_alike() {
    let make = |secret: &str| {
        let mut h: IndexMap<String, Vec<String>> = IndexMap::new();
        h.insert("Authorization".into(), vec![secret.into()]);
        h.insert("accept".into(), vec!["x".into()]);
        let mut r = record();
        r.headers = Some(h);
        r.query = Some(format!("?a=1&token={}&KEY={}=", secret, secret));
        r.body = Some(format!(r#"{{"u":[{{"password":"{}"}}],"email":["{}"]}}"#, secret, secret));
        r.content_type = Some("application/json".into());
        r
    };
    let san = RecordSanitizer::new(no_passthrough());
    let one = san.sanitize(make("alpha"), "http://h").unwrap();
    let other = san.sanitize(make("b-e-t-a"), "http://h").unwrap();
    assert_eq!(one.url, other.url);
    assert_eq!(one.headers, other.headers);
    assert_eq!(one.body, other.body);
    assert_eq!((one.method, one.content_type), (other.method, other.content_type));
}

#[test]
fn an_exempt_key_is_left_alone_everywhere() {
    let mut h: IndexMap<String, Vec<String>> = IndexMap::new();
    h.insert("Authorization".into(), vec!["Bearer t".into()]);
    let mut r = record();
    r.headers = Some(h);
    r.query = Some("token=t".into());
    r.body = Some(r#"{"token":"t"}"#.into());
    r.content_type = Some("application/json".into());
    let keys = passthrough(&["token", "authorization"]);
    let sent = RecordSanitizer::new(keys).sanitize(r, "http://h").unwrap();
    assert_eq!(sent.url, "http://h/search?token=t");
    assert_eq!(sent.headers.get("authorization").unwrap(), "Bearer t");
    assert_eq!(sent.body.unwrap().as_ref(), br#"{"token":"t"}"#);
}

#[test]
fn copies_of_records_are_sent_alike() {
    let mut h: IndexMap<String, Vec<String>> = IndexMap::new();
    h.insert("b".into(), vec!["1".into(), "2".into()]);
    h.insert("a".into(), vec![]);
    let mut r = record();
    r.headers = Some(h);
    r.timestamp = Some("t".into());
    r.status = Some(3);
    r.body = Some("aGk=".into());
    r.body_encoding = Some("base64".into());
    let copy = r.clone();
    assert_eq!(copy.headers, r.headers);
    assert_eq!((copy.timestamp.as_deref(), copy.status), (Some("t"), Some(3)));
    let san = RecordSanitizer::new(no_passthrough());
    let sent = san.sanitize(copy, "http://h").unwrap();
    let again = sent.clone();
    assert_eq!((again.url, again.headers, again.body), (sent.url, sent.headers, sent.body));
}
