use rustmock::dispatch::{complete_dispatch, dispatch, DispatchDecision, RequestData};
use rustmock::forward::UpstreamResponse;
use rustmock::management::{add_endpoint, get_logs, set_proxy};
use rustmock::model::{EndpointConfig, HttpReply, ProxyConfig, ReplyBody};
use rustmock::store::AppState;

fn j(s: &str) -> serde_json::Value {
    serde_json::from_str(s).unwrap()
}

fn cfg(method: &str, path: &str, response: &str, status: Option<u16>) -> EndpointConfig {
    EndpointConfig {
        method: method.to_string(),
        path: path.to_string(),
        response: j(response),
        status,
        headers: None,
        proxy_url: None,
    }
}

fn request(method: &str, path: &str, query: &str, body: &[u8]) -> RequestData {
    RequestData {
        method: method.to_string(),
        path: path.to_string(),
        headers: Vec::new(),
        query: query.to_string(),
        body: body.to_vec(),
    }
}

/// Resolve a request against the state with no upstream available: a
/// forwarding decision is completed with a connection failure.
fn handle(st: &mut AppState, method: &str, path: &str) -> HttpReply {
    let decision = dispatch(st, method, path);
    let outcome = match &decision {
        DispatchDecision::PerEndpointProxy { .. } | DispatchDecision::DefaultProxy { .. } => {
            Some(Err("connection refused".to_string()))
        },
        _ => None,
    };
    let req = request(method, path, "", b"");
    complete_dispatch(st, req, decision, outcome, "2024-01-01T00:00:00Z".to_string())
}

fn body_json(reply: &HttpReply) -> serde_json::Value {
    match &reply.body {
        ReplyBody::Json(v) => v.clone(),
        other => panic!("expected a JSON body, got {:?}", std::mem::discriminant(other)),
    }
}

#[test]
fn add_then_call_returns_canned_response() {
    let mut st = AppState::new(None, None);
    add_endpoint(&mut st, cfg("GET", "/hello", "{\"message\": \"Hello World\"}", Some(200)))
        .unwrap();
    let reply = handle(&mut st, "GET", "/hello");
    assert_eq!(reply.status, 200);
    assert_eq!(body_json(&reply), j("{\"message\": \"Hello World\"}"));
    assert!(reply
        .headers
        .iter()
        .any(|(k, v)| k == "content-type" && v == "application/json"));
}

#[test]
fn test_path_parameters_in_mock_endpoint() {
    let mut st = AppState::new(None, None);
    add_endpoint(&mut st, cfg("GET", "/users/{user_id}", "{\"id\": 123}", Some(200))).unwrap();
    let r1 = handle(&mut st, "GET", "/users/42");
    assert_eq!(r1.status, 200);
    assert_eq!(body_json(&r1), j("{\"id\": 123}"));
    let r2 = handle(&mut st, "GET", "/users/999");
    assert_eq!(r2.status, 200);
    assert_eq!(body_json(&r2), j("{\"id\": 123}"));
    let r3 = handle(&mut st, "GET", "/users/");
    assert_eq!(r3.status, 404);
    let r4 = handle(&mut st, "GET", "/users/42/extra");
    assert_eq!(r4.status, 404);
}

#[test]
fn test_overwriting_endpoint() {
    let mut st = AppState::new(None, None);
    add_endpoint(&mut st, cfg("GET", "/data", "{\"version\": 1}", Some(200))).unwrap();
    add_endpoint(&mut st, cfg("GET", "/data", "{\"version\": 2}", Some(200))).unwrap();
    let reply = handle(&mut st, "GET", "/data");
    assert_eq!(body_json(&reply), j("{\"version\": 2}"));
}

#[test]
fn test_not_found_integration() {
    let mut st = AppState::new(None, None);
    let reply = handle(&mut st, "GET", "/nothing-here");
    assert_eq!(reply.status, 404);
    assert!(matches!(reply.body, ReplyBody::Empty));
}

#[test]
fn test_empty_response_body() {
    let mut st = AppState::new(None, None);
    add_endpoint(&mut st, cfg("GET", "/empty", "{}", Some(204))).unwrap();
    let reply = handle(&mut st, "GET", "/empty");
    assert_eq!(reply.status, 204);
    // a 204 reply carries no body even though a response object is stored
    assert!(matches!(reply.body, ReplyBody::Empty));
}

#[test]
fn test_different_status_codes() {
    let mut st = AppState::new(None, None);
    for (path, status) in
        [("/s200", 200u16), ("/s201", 201), ("/s400", 400), ("/s404", 404), ("/s500", 500)]
    {
        add_endpoint(&mut st, cfg("GET", path, "{}", Some(status))).unwrap();
        let reply = handle(&mut st, "GET", path);
        assert_eq!(reply.status, status);
    }
}

#[test]
fn test_different_http_methods() {
    let mut st = AppState::new(None, None);
    for method in ["GET", "POST", "PUT", "PATCH", "DELETE"] {
        add_endpoint(
            &mut st,
            cfg(method, "/multi", &format!("{{\"m\": \"{}\"}}", method), Some(200)),
        )
        .unwrap();
    }
    for method in ["GET", "POST", "PUT", "PATCH", "DELETE"] {
        let reply = handle(&mut st, method, "/multi");
        assert_eq!(reply.status, 200);
        assert_eq!(body_json(&reply), j(&format!("{{\"m\": \"{}\"}}", method)));
    }
}

#[test]
fn test_custom_headers_in_response() {
    let mut st = AppState::new(None, None);
    add_endpoint(
        &mut st,
        EndpointConfig {
            method: "GET".to_string(),
            path: "/headers".to_string(),
            response: j("{}"),
            status: Some(200),
            headers: Some(vec![
                ("X-Custom-Header".to_string(), "custom-value".to_string()),
                ("X-Another".to_string(), "two".to_string()),
            ]),
            proxy_url: None,
        },
    )
    .unwrap();
    let reply = handle(&mut st, "GET", "/headers");
    assert!(reply
        .headers
        .iter()
        .any(|(k, v)| k == "X-Custom-Header" && v == "custom-value"));
    assert!(reply.headers.iter().any(|(k, v)| k == "X-Another" && v == "two"));
    assert!(reply
        .headers
        .iter()
        .any(|(k, v)| k == "content-type" && v == "application/json"));
}

#[test]
fn test_mixed_mock_and_proxy() {
    let mut st = AppState::new(None, None);
    set_proxy(&mut st, ProxyConfig { url: "http://u".to_string() });
    add_endpoint(&mut st, cfg("GET", "/mocked", "{\"m\": 1}", Some(200))).unwrap();
    let reply = handle(&mut st, "GET", "/mocked");
    assert_eq!(reply.status, 200);
    assert_eq!(body_json(&reply), j("{\"m\": 1}"));
    // unmapped paths fall through to the default proxy
    let decision = dispatch(&st, "GET", "/unmapped");
    match decision {
        DispatchDecision::DefaultProxy { proxy_url } => assert_eq!(proxy_url, "http://u"),
        _ => panic!("expected the default-proxy arm"),
    }
}

#[test]
fn test_endpoint_with_proxy_url() {
    let mut st = AppState::new(None, None);
    add_endpoint(
        &mut st,
        EndpointConfig {
            method: "POST".to_string(),
            path: "/echo".to_string(),
            response: j("{}"),
            status: Some(200),
            headers: None,
            proxy_url: Some("http://upstream.example".to_string()),
        },
    )
    .unwrap();
    let decision = dispatch(&st, "POST", "/echo");
    match &decision {
        DispatchDecision::PerEndpointProxy { proxy_url, .. } => {
            assert_eq!(proxy_url, "http://upstream.example");
        },
        _ => panic!("expected the per-endpoint proxy arm"),
    }
    // a successful outbound call is replayed to the client and traced
    let req = request("POST", "/echo", "x=1", b"{\"a\": 1}");
    let outcome = Some(Ok(UpstreamResponse {
        status: 200,
        body: Some(j("{\"echoed\": true}")),
        headers: vec![("X-Upstream".to_string(), "yes".to_string())],
    }));
    let reply = complete_dispatch(&mut st, req, decision, outcome, "t0".to_string());
    assert_eq!(reply.status, 200);
    assert_eq!(body_json(&reply), j("{\"echoed\": true}"));
    assert!(reply.headers.iter().any(|(k, v)| k == "X-Upstream" && v == "yes"));
    let logs = get_logs(&st);
    let entry = logs.last().unwrap();
    assert_eq!(entry.proxied_to.as_deref(), Some("http://upstream.example/echo"));
    assert_eq!(
        entry.matched_endpoint.as_deref(),
        Some("proxy to http://upstream.example")
    );
}

#[test]
fn test_proxy_failure_returns_502() {
    let mut st = AppState::new(None, None);
    add_endpoint(
        &mut st,
        EndpointConfig {
            method: "GET".to_string(),
            path: "/test/fail".to_string(),
            response: j("{}"),
            status: Some(200),
            headers: None,
            proxy_url: Some("http://does-not-resolve.invalid".to_string()),
        },
    )
    .unwrap();
    let reply = handle(&mut st, "GET", "/test/fail");
    assert_eq!(reply.status, 502);
    match &reply.body {
        ReplyBody::ErrorMessage { error, details } => {
            assert_eq!(error, "Proxy request failed");
            assert_eq!(details, "connection refused");
        },
        _ => panic!("expected the structured error body"),
    }
    let logs = get_logs(&st);
    assert_eq!(logs.last().unwrap().status, 502);
}

#[test]
fn default_proxy_failure_returns_502() {
    let mut st = AppState::new(None, None);
    set_proxy(&mut st, ProxyConfig { url: "http://u".to_string() });
    let reply = handle(&mut st, "GET", "/unmapped");
    assert_eq!(reply.status, 502);
    match &reply.body {
        ReplyBody::ErrorMessage { error, .. } => {
            assert_eq!(error, "Default proxy request failed");
        },
        _ => panic!("expected the structured error body"),
    }
}

#[test]
fn every_handled_request_appends_one_trace_entry() {
    let mut st = AppState::new(None, None);
    add_endpoint(&mut st, cfg("GET", "/a", "{}", Some(200))).unwrap();
    assert_eq!(get_logs(&st).len(), 0);
    handle(&mut st, "GET", "/a");
    assert_eq!(get_logs(&st).len(), 1);
    handle(&mut st, "GET", "/missing");
    assert_eq!(get_logs(&st).len(), 2);
    let entry = &get_logs(&st)[1];
    assert_eq!(entry.method, "GET");
    assert_eq!(entry.path, "/missing");
    assert_eq!(entry.status, 404);
}

#[test]
fn test_request_body_and_query_params_in_logs() {
    let mut st = AppState::new(None, None);
    add_endpoint(&mut st, cfg("POST", "/submit", "{\"ok\": true}", Some(200))).unwrap();
    let decision = dispatch(&st, "POST", "/submit");
    let req = request("POST", "/submit", "debug=true&limit=10", b"{\"name\": \"test\"}");
    complete_dispatch(&mut st, req, decision, None, "t1".to_string());
    let logs = get_logs(&st);
    let entry = logs.last().unwrap();
    assert_eq!(entry.query, "debug=true&limit=10");
    assert_eq!(entry.request_body.as_ref().unwrap(), &j("{\"name\": \"test\"}"));
    assert_eq!(entry.timestamp, "t1");
}

#[test]
fn trace_method_is_upper_cased() {
    let mut st = AppState::new(None, None);
    handle(&mut st, "options", "/whatever");
    assert_eq!(get_logs(&st).last().unwrap().method, "OPTIONS");
}

#[test]
fn template_match_is_tagged_in_trace() {
    let mut st = AppState::new(None, None);
    add_endpoint(&mut st, cfg("GET", "/users/{id}", "{}", Some(200))).unwrap();
    handle(&mut st, "GET", "/users/42");
    let logs = get_logs(&st);
    assert_eq!(
        logs.last().unwrap().matched_endpoint.as_deref(),
        Some("/users/{id} (template)")
    );
    handle(&mut st, "GET", "/users/7");
    // an exact key is registered too: it wins over the template
    add_endpoint(&mut st, cfg("GET", "/users/42", "{\"exact\": true}", Some(200))).unwrap();
    handle(&mut st, "GET", "/users/42");
    let logs = get_logs(&st);
    assert_eq!(logs.last().unwrap().matched_endpoint.as_deref(), Some("/users/42"));
}

#[test]
fn stored_status_outside_range_is_coerced_to_500() {
    let mut st = AppState::new(None, None);
    add_endpoint(&mut st, cfg("GET", "/odd", "{}", Some(9999))).unwrap();
    let reply = handle(&mut st, "GET", "/odd");
    assert_eq!(reply.status, 500);
}
