use postwoman::http::{
    finish_response, header_pairs, prepare_request, query_pairs, request_body, KeyValue, Method,
    RequestSpec, MAX_BODY_BYTES,
};

fn kv(key: &str, value: &str) -> KeyValue {
    KeyValue { enabled: true, key: key.into(), value: value.into() }
}

fn spec(method: Method, url: &str, headers: Vec<KeyValue>, query: Vec<KeyValue>, body: &str) -> RequestSpec {
    RequestSpec { method, url: url.into(), headers, query, body: body.into() }
}

#[test]
fn invalid_url_is_reported() {
    let spec = spec(Method::Get, "not a url", vec![], vec![], "");
    assert!(matches!(prepare_request(&spec), Err(_)));
}

#[test]
fn invalid_url_message_names_the_error() {
    let s = spec(Method::Get, "not a url", vec![], vec![], "");
    let err = prepare_request(&s).unwrap_err();
    assert_eq!(err, "잘못된 URL: relative URL without a base");
}

#[test]
fn blank_url_is_reported() {
    let s = spec(Method::Get, "   ", vec![], vec![], "");
    assert!(prepare_request(&s).is_err());
}

#[test]
fn query_parameters_are_merged_into_the_url() {
    let s = spec(
        Method::Get,
        "  https://httpbin.org/get  ",
        vec![kv("X-Test", "postwoman")],
        vec![kv("foo", "bar")],
        "",
    );
    let p = prepare_request(&s).unwrap();
    assert_eq!(p.url, "https://httpbin.org/get?foo=bar");
    assert_eq!(p.method, Method::Get);
    assert_eq!(p.headers, vec![("X-Test".to_string(), "postwoman".to_string())]);
    assert_eq!(p.body, None);
}

#[test]
fn query_is_opened_even_without_parameters() {
    let s = spec(Method::Get, "https://httpbin.org/get", vec![], vec![KeyValue::new()], "");
    assert_eq!(prepare_request(&s).unwrap().url, "https://httpbin.org/get?");
}

#[test]
fn url_is_normalized_and_query_encoded() {
    let s = spec(Method::Get, "HTTPS://Example.COM", vec![], vec![kv("a b", "c&d")], "");
    assert_eq!(prepare_request(&s).unwrap().url, "https://example.com/?a+b=c%26d");
}

#[test]
fn query_pairs_keep_only_enabled_rows_with_keys() {
    let mut off = kv("off", "1");
    off.enabled = false;
    let rows = vec![kv("a", "1"), off, kv("", "no key"), kv(" b ", " 2 ")];
    let pairs = query_pairs(&rows);
    assert_eq!(
        pairs,
        vec![("a".to_string(), "1".to_string()), (" b ".to_string(), " 2 ".to_string())]
    );
}

#[test]
fn header_pairs_are_trimmed() {
    let mut off = kv("Off", "1");
    off.enabled = false;
    let rows = vec![kv(" Accept ", "\tapplication/json \n"), off, kv("", "x"), kv("  ", "y")];
    let pairs = header_pairs(&rows);
    assert_eq!(
        pairs,
        vec![
            ("Accept".to_string(), "application/json".to_string()),
            ("".to_string(), "y".to_string()),
        ]
    );
}

#[test]
fn body_is_sent_only_for_methods_with_a_body() {
    let body = String::from(r#"{"hello":"world"}"#);
    assert_eq!(request_body(Method::Post, &body), Some(body.clone()));
    assert_eq!(request_body(Method::Put, &body), Some(body.clone()));
    assert_eq!(request_body(Method::Patch, &body), Some(body.clone()));
    assert_eq!(request_body(Method::Delete, &body), Some(body.clone()));
    assert_eq!(request_body(Method::Get, &body), None);
    assert_eq!(request_body(Method::Head, &body), None);
    assert_eq!(request_body(Method::Options, &body), None);
    assert_eq!(request_body(Method::Post, &String::from(" \n\t ")), None);
    assert_eq!(request_body(Method::Post, &String::from(" x ")), Some(String::from(" x ")));
}

#[test]
fn post_request_is_prepared_with_its_body() {
    let s = spec(
        Method::Post,
        "https://httpbin.org/post",
        vec![kv("Content-Type", "application/json")],
        vec![],
        r#"{"hello":"world"}"#,
    );
    let p = prepare_request(&s).unwrap();
    assert_eq!(p.url, "https://httpbin.org/post?");
    assert_eq!(p.method, Method::Post);
    assert_eq!(p.headers, vec![("Content-Type".to_string(), "application/json".to_string())]);
    assert_eq!(p.body.as_deref(), Some(r#"{"hello":"world"}"#));
}

#[test]
fn method_names_and_bodies() {
    let names: Vec<&str> = Method::ALL.iter().map(|m| m.as_str()).collect();
    assert_eq!(names, vec!["GET", "POST", "PUT", "PATCH", "DELETE", "HEAD", "OPTIONS"]);
    let bodies: Vec<bool> = Method::ALL.iter().map(|m| m.allows_body()).collect();
    assert_eq!(bodies, vec![false, true, true, true, true, false, false]);
}

#[test]
fn new_row_is_blank_and_enabled() {
    let r = KeyValue::new();
    assert!(r.enabled);
    assert!(r.key.is_empty() && r.value.is_empty());
    let d = KeyValue::default();
    assert!(!d.enabled);
}

#[test]
fn response_gets_reason_phrase_and_sorted_headers() {
    let headers = vec![
        ("x-b".to_string(), "1".to_string()),
        ("content-type".to_string(), "application/json".to_string()),
        ("x-a".to_string(), "2".to_string()),
        ("set-cookie".to_string(), "one".to_string()),
        ("set-cookie".to_string(), "two".to_string()),
    ];
    let r = finish_response(200, headers, br#"{"a":1}"#.to_vec(), 42);
    assert_eq!(r.status, 200);
    assert_eq!(r.status_text, "OK");
    assert_eq!(r.elapsed_ms, 42);
    let names: Vec<(&str, &str)> = r.headers.iter().map(|(k, v)| (k.as_str(), v.as_str())).collect();
    assert_eq!(
        names,
        vec![
            ("content-type", "application/json"),
            ("set-cookie", "one"),
            ("set-cookie", "two"),
            ("x-a", "2"),
            ("x-b", "1"),
        ]
    );
    assert_eq!(r.body, r#"{"a":1}"#);
    assert_eq!(r.size_bytes, 7);
    assert!(!r.truncated);
    assert_eq!(r.pretty_body.as_deref(), Some("{\n  \"a\": 1\n}"));
}

#[test]
fn unknown_status_has_no_reason() {
    let r = finish_response(599, vec![], vec![], 0);
    assert_eq!(r.status_text, "");
    let r = finish_response(404, vec![], b"not json".to_vec(), 0);
    assert_eq!(r.status_text, "Not Found");
    assert_eq!(r.pretty_body, None);
    let r = finish_response(42, vec![], vec![], 0);
    assert_eq!(r.status_text, "");
}

#[test]
fn invalid_utf8_is_replaced() {
    let r = finish_response(200, vec![], vec![b'a', 0xff, b'b'], 1);
    assert_eq!(r.body, "a\u{FFFD}b");
    assert_eq!(r.size_bytes, 3);
}

#[test]
fn oversized_body_is_cut_and_not_pretty_printed() {
    let limit = MAX_BODY_BYTES as usize;
    assert_eq!(limit, 50 * 1024 * 1024);
    let mut bytes = vec![b' '; limit + 1];
    bytes[0] = b'1';
    let r = finish_response(200, vec![], bytes, 5);
    assert!(r.truncated);
    assert_eq!(r.size_bytes, limit);
    assert_eq!(r.body.len(), limit);
    assert_eq!(r.pretty_body, None);

    let mut exact = vec![b' '; limit];
    exact[0] = b'1';
    let r = finish_response(200, vec![], exact, 5);
    assert!(!r.truncated);
    assert_eq!(r.size_bytes, limit);
    assert_eq!(r.pretty_body.as_deref(), Some("1"));
}

#[test]
fn shown_body_follows_the_pretty_switch() {
    let r = finish_response(200, vec![], br#"{"a":[1,2]}"#.to_vec(), 0);
    assert_eq!(r.shown_body(false), r#"{"a":[1,2]}"#);
    assert_eq!(r.shown_body(true), "{\n  \"a\": [\n    1,\n    2\n  ]\n}");
    let plain = finish_response(200, vec![], b"plain".to_vec(), 0);
    assert_eq!(plain.shown_body(true), "plain");
    let copy = r.clone();
    assert_eq!(copy.body, r.body);
    assert_eq!(copy.pretty_body, r.pretty_body);
}
