use rustmock::forward::{
    build_upstream_url, filter_request_headers, forward_method_of, upstream_response_body,
    ForwardMethod,
};

fn h(pairs: &[(&str, &str)]) -> Vec<(String, String)> {
    pairs.iter().map(|(k, v)| (k.to_string(), v.to_string())).collect()
}

#[test]
fn upstream_url_plain() {
    assert_eq!(
        build_upstream_url("http://upstream.example", "/echo", ""),
        "http://upstream.example/echo"
    );
}

#[test]
fn upstream_url_strips_one_trailing_slash() {
    assert_eq!(
        build_upstream_url("http://upstream.example/", "/echo", ""),
        "http://upstream.example/echo"
    );
}

#[test]
fn upstream_url_appends_query() {
    assert_eq!(
        build_upstream_url("http://upstream.example", "/echo", "x=1"),
        "http://upstream.example/echo?x=1"
    );
    assert_eq!(
        build_upstream_url("http://u", "/unmapped", "id=1&id=2"),
        "http://u/unmapped?id=1&id=2"
    );
}

#[test]
fn test_proxy_does_not_forward_accept_encoding() {
    let headers = h(&[
        ("Host", "localhost"),
        ("Accept-Encoding", "gzip, deflate, br, zstd"),
        ("Connection", "keep-alive"),
        ("Transfer-Encoding", "chunked"),
        ("X-Custom", "1"),
        ("content-type", "application/json"),
    ]);
    let kept = filter_request_headers(&headers);
    assert_eq!(
        kept,
        h(&[("X-Custom", "1"), ("content-type", "application/json")])
    );
}

#[test]
fn forwarded_methods_keep_their_verb() {
    assert_eq!(forward_method_of("GET"), ForwardMethod::Get);
    assert_eq!(forward_method_of("POST"), ForwardMethod::Post);
    assert_eq!(forward_method_of("PUT"), ForwardMethod::Put);
    assert_eq!(forward_method_of("PATCH"), ForwardMethod::Patch);
    assert_eq!(forward_method_of("DELETE"), ForwardMethod::Delete);
    assert_eq!(forward_method_of("HEAD"), ForwardMethod::Head);
    assert_eq!(forward_method_of("OPTIONS"), ForwardMethod::Options);
}

#[test]
fn unknown_method_forwards_as_get() {
    assert_eq!(forward_method_of("TRACE"), ForwardMethod::Get);
    assert_eq!(forward_method_of("BREW"), ForwardMethod::Get);
}

#[test]
fn upstream_body_of_no_content_statuses_is_absent() {
    let body = b"{\"a\": 1}".to_vec();
    assert!(upstream_response_body(204, &body).is_none());
    assert!(upstream_response_body(304, &body).is_none());
}

#[test]
fn upstream_body_parses_json() {
    let body = b"{\"a\": 1}".to_vec();
    let parsed = upstream_response_body(200, &body).unwrap();
    assert_eq!(parsed["a"], serde_json::Value::from(1));
}

#[test]
fn upstream_body_of_empty_or_invalid_is_absent() {
    assert!(upstream_response_body(200, &Vec::new()).is_none());
    assert!(upstream_response_body(200, &b"not json".to_vec()).is_none());
}
