use indexmap::IndexMap;
use serde_json::Value;
use traffic_replayer::json::{holds_float, JsonValue};
use traffic_replayer::models::deserialize_headers;

/// The headers that the `headers` object of a record gives.
fn headers(json: &str) -> IndexMap<String, Vec<String>> {
    let record: Value = serde_json::from_str(json).unwrap();
    let text = record["headers"].to_string();
    let raw: IndexMap<String, Value> = serde_json::from_str(&text).unwrap();
    headers_in_order(raw)
}

fn headers_in_order(raw: IndexMap<String, Value>) -> IndexMap<String, Vec<String>> {
    let entries = raw.into_iter().map(|(k, v)| (k, JsonValue::from_value(v))).collect();
    deserialize_headers(Some(entries)).unwrap()
}

#[test]
fn test_deserialize_single_string_header() {
    let hdrs = headers(
        r#"{
            "method": "GET",
            "path": "/",
            "headers": {"accept": "text/html"}
        }"#,
    );
    assert_eq!(hdrs["accept"], vec!["text/html"]);
}

#[test]
fn test_deserialize_array_header() {
    let hdrs = headers(
        r#"{
            "method": "GET",
            "path": "/",
            "headers": {"set-cookie": ["id=abc", "session=xyz"]}
        }"#,
    );
    assert_eq!(hdrs["set-cookie"], vec!["id=abc", "session=xyz"]);
}

#[test]
fn test_deserialize_mixed_headers() {
    let hdrs = headers(
        r#"{
            "method": "POST",
            "path": "/submit",
            "headers": {
                "content-type": "application/json",
                "set-cookie": ["a=1", "b=2"],
                "x-trace-id": "xyz"
            }
        }"#,
    );
    assert_eq!(hdrs["content-type"], vec!["application/json"]);
    assert_eq!(hdrs["set-cookie"], vec!["a=1", "b=2"]);
    assert_eq!(hdrs["x-trace-id"], vec!["xyz"]);
}

#[test]
fn test_deserialize_header_keys_lowercased() {
    let hdrs = headers(
        r#"{
            "method": "GET",
            "path": "/",
            "headers": {"Accept": "application/json", "X-Custom-Header": "value"}
        }"#,
    );
    assert!(hdrs.contains_key("accept"), "Key 'accept' not found (was it lowercased?)");
    assert!(hdrs.contains_key("x-custom-header"));
}

#[test]
fn test_deserialize_empty_headers_object() {
    let hdrs = headers(r#"{"method": "GET", "path": "/", "headers": {}}"#);
    assert!(hdrs.is_empty());
}

#[test]
fn test_deserialize_preserves_header_order() {
    let raw: IndexMap<String, Value> = serde_json::from_str(
        r#"{
                "accept": "application/json",
                "authorization": "Bearer tok",
                "x-b": "2",
                "x-a": "1"
            }"#,
    )
    .unwrap();
    let hdrs = headers_in_order(raw);
    let keys: Vec<&str> = hdrs.keys().map(|k| k.as_str()).collect();
    assert_eq!(keys, vec!["accept", "authorization", "x-b", "x-a"]);
}

#[test]
fn missing_headers_stay_missing() {
    assert!(deserialize_headers(None).is_none());
}

#[test]
fn other_header_values_read_as_json() {
    let hdrs = headers(
        r#"{"headers": {"n": 5, "b": true, "z": null, "o": {"b": 1, "a": [2]}, "e": [], "m": ["x", 1, null, "y"]}}"#,
    );
    assert_eq!(hdrs["n"], vec!["5"]);
    assert_eq!(hdrs["b"], vec!["true"]);
    assert_eq!(hdrs["z"], vec!["null"]);
    assert_eq!(hdrs["o"], vec![r#"{"a":[2],"b":1}"#]);
    assert!(hdrs["e"].is_empty());
    assert_eq!(hdrs["m"], vec!["x", "y"]);
}

#[test]
fn names_that_differ_in_case_are_one_header() {
    let raw: IndexMap<String, Value> =
        serde_json::from_str(r#"{"X-A": "1", "b": "2", "x-a": "3"}"#).unwrap();
    let hdrs = headers_in_order(raw);
    let entries: Vec<(&str, &Vec<String>)> = hdrs.iter().map(|(k, v)| (k.as_str(), v)).collect();
    assert_eq!(entries, vec![("x-a", &vec!["3".to_string()]), ("b", &vec!["2".to_string()])]);
}

#[test]
fn json_goes_there_and_back() {
    for text in [
        r#"{"a":[1,2.5,-3,true,false,null],"b":{"c":"é\n\""},"d":[]}"#,
        "null",
        "\"x\"",
        "[[],[[]]]",
    ] {
        let value: Value = serde_json::from_str(text).unwrap();
        assert_eq!(JsonValue::from_value(value.clone()).into_value(), value);
    }
}

#[test]
fn later_entries_of_an_object_win() {
    let object = JsonValue::Object(vec![
        ("a".to_string(), JsonValue::Bool(true)),
        ("b".to_string(), JsonValue::Null),
        ("a".to_string(), JsonValue::Text("last".to_string())),
    ]);
    assert_eq!(object.into_value().to_string(), r#"{"a":"last","b":null}"#);
}

#[test]
fn floats_are_found_at_any_depth() {
    let found = |text: &str| holds_float(serde_json::from_str(text).unwrap());
    for text in ["1.5", "1e3", "-0", "[1,[2.0]]", r#"{"a":{"b":[0,1.25]},"c":1}"#, "99999999999999999999"] {
        assert!(found(text), "{}", text);
    }
    for text in ["1", "-7", "18446744073709551615", "-9223372036854775808", "\"1.5\"", "null", "[true,{\"a\":0}]"] {
        assert!(!found(text), "{}", text);
        let value: Value = serde_json::from_str(text).unwrap();
        assert_eq!(serde_json::from_str::<Value>(&value.to_string()).unwrap(), value);
    }
}
