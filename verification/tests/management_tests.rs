use rustmock::management::{
    add_endpoint, clear_logs, delete_proxy, get_config, get_logs, get_proxy, remove_endpoint,
    set_proxy, ConfigEntry,
};
use rustmock::model::{EndpointConfig, Method, ProxyConfig, RemoveConfig};
use rustmock::store::AppState;

fn j(s: &str) -> serde_json::Value {
    serde_json::from_str(s).unwrap()
}

fn cfg(method: &str, path: &str, response: &str, status: Option<u16>) -> EndpointConfig {
    EndpointConfig {
        method: method.to_string(),
        path: path.to_string(),
        response: j(response),
        status,
        headers: None,
        proxy_url: None,
    }
}

#[test]
fn test_add_endpoint() {
    let mut st = AppState::new(None, None);
    let added = add_endpoint(
        &mut st,
        cfg("GET", "/test-path", "{\"message\": \"test response\"}", Some(200)),
    );
    assert!(added.is_ok());
    let ep = st.lookup_exact(Method::Get, "/test-path").unwrap();
    assert_eq!(ep.response, j("{\"message\": \"test response\"}"));
    assert_eq!(ep.status, 200);
}

#[test]
fn test_remove_endpoint() {
    let mut st = AppState::new(None, None);
    add_endpoint(&mut st, cfg("GET", "/test-remove", "{\"message\": \"test\"}", Some(200)))
        .unwrap();
    let removed = remove_endpoint(
        &mut st,
        RemoveConfig { method: "GET".to_string(), path: "/test-remove".to_string() },
    );
    assert!(removed);
    assert!(st.lookup_exact(Method::Get, "/test-remove").is_none());
}

#[test]
fn test_remove_nonexistent_endpoint() {
    let mut st = AppState::new(None, None);
    let removed = remove_endpoint(
        &mut st,
        RemoveConfig { method: "GET".to_string(), path: "/never-registered".to_string() },
    );
    // recording the suppression is itself an observable change
    assert!(removed);
    let again = remove_endpoint(
        &mut st,
        RemoveConfig { method: "GET".to_string(), path: "/never-registered".to_string() },
    );
    assert!(!again);
}

#[test]
fn test_get_config() {
    let mut st = AppState::new(None, None);
    add_endpoint(&mut st, cfg("POST", "/api/test", "{\"data\": \"value\"}", Some(201))).unwrap();
    let entries = get_config(&st);
    assert_eq!(entries.len(), 1);
    match &entries[0] {
        ConfigEntry::DynamicEntry { method, path, response, status, .. } => {
            assert_eq!(*method, Method::Post);
            assert_eq!(path, "/api/test");
            assert_eq!(*response, j("{\"data\": \"value\"}"));
            assert_eq!(*status, 201);
        },
        _ => panic!("expected a dynamic entry"),
    }
}

#[test]
fn test_get_logs() {
    let st = AppState::new(None, None);
    assert!(get_logs(&st).is_empty());
}

#[test]
fn test_clear_logs() {
    let mut st = AppState::new(None, None);
    clear_logs(&mut st);
    assert!(get_logs(&st).is_empty());
}

#[test]
fn test_endpoint_with_custom_status() {
    let mut st = AppState::new(None, None);
    add_endpoint(&mut st, cfg("POST", "/api/resource", "{\"id\": 1}", Some(201))).unwrap();
    let entries = get_config(&st);
    let found = entries.iter().find(|e| match e {
        ConfigEntry::DynamicEntry { path, .. } => path == "/api/resource",
        _ => false,
    });
    match found.unwrap() {
        ConfigEntry::DynamicEntry { status, .. } => assert_eq!(*status, 201),
        _ => panic!("expected a dynamic entry"),
    }
}

#[test]
fn test_multiple_endpoints() {
    let mut st = AppState::new(None, None);
    for i in 1..=3 {
        add_endpoint(
            &mut st,
            cfg(
                "GET",
                &format!("/api/endpoint{}", i),
                &format!("{{\"id\": {}}}", i),
                Some(200),
            ),
        )
        .unwrap();
    }
    assert_eq!(get_config(&st).len(), 3);
}

#[test]
fn add_with_unknown_method_is_rejected() {
    let mut st = AppState::new(None, None);
    let r = add_endpoint(&mut st, cfg("BREW", "/x", "{}", None));
    assert!(r.is_err());
    assert_eq!(get_config(&st).len(), 0);
}

#[test]
fn add_defaults_status_to_200() {
    let mut st = AppState::new(None, None);
    add_endpoint(&mut st, cfg("GET", "/d", "{}", None)).unwrap();
    assert_eq!(st.lookup_exact(Method::Get, "/d").unwrap().status, 200);
}

#[test]
fn methods_are_upper_cased_on_input() {
    let mut st = AppState::new(None, None);
    add_endpoint(&mut st, cfg("get", "/same", "{\"v\": 1}", Some(200))).unwrap();
    add_endpoint(&mut st, cfg("GET", "/same", "{\"v\": 2}", Some(200))).unwrap();
    // both spellings address the same key: the second write replaced the first
    assert_eq!(get_config(&st).len(), 1);
    let ep = st.lookup_exact(Method::Get, "/same").unwrap();
    assert_eq!(ep.response, j("{\"v\": 2}"));
    let removed = remove_endpoint(
        &mut st,
        RemoveConfig { method: "gEt".to_string(), path: "/same".to_string() },
    );
    assert!(removed);
    assert!(st.lookup_exact(Method::Get, "/same").is_none());
}

#[test]
fn test_case_sensitive_paths() {
    let mut st = AppState::new(None, None);
    add_endpoint(&mut st, cfg("GET", "/A", "{\"which\": \"upper\"}", Some(200))).unwrap();
    add_endpoint(&mut st, cfg("GET", "/a", "{\"which\": \"lower\"}", Some(200))).unwrap();
    assert_eq!(get_config(&st).len(), 2);
    assert_eq!(
        st.lookup_exact(Method::Get, "/A").unwrap().response,
        j("{\"which\": \"upper\"}")
    );
    assert_eq!(
        st.lookup_exact(Method::Get, "/a").unwrap().response,
        j("{\"which\": \"lower\"}")
    );
}

#[test]
fn add_then_delete_leaves_no_entry() {
    let mut st = AppState::new(None, None);
    add_endpoint(&mut st, cfg("PUT", "/k", "{\"v\": 1}", Some(200))).unwrap();
    remove_endpoint(&mut st, RemoveConfig { method: "PUT".to_string(), path: "/k".to_string() });
    assert!(st.lookup_exact(Method::Put, "/k").is_none());
}

#[test]
fn last_write_wins_on_same_key() {
    let mut st = AppState::new(None, None);
    add_endpoint(&mut st, cfg("GET", "/data", "{\"version\": 1}", Some(200))).unwrap();
    add_endpoint(&mut st, cfg("GET", "/data", "{\"version\": 2}", Some(200))).unwrap();
    let ep = st.lookup_exact(Method::Get, "/data").unwrap();
    assert_eq!(ep.response, j("{\"version\": 2}"));
}

#[test]
fn test_proxy_config_endpoints() {
    let mut st = AppState::new(None, None);
    assert!(get_proxy(&st).is_none());
    let r = set_proxy(&mut st, ProxyConfig { url: "https://httpbin.org".to_string() });
    assert_eq!(r.as_deref(), Some("https://httpbin.org"));
    assert_eq!(get_proxy(&st).as_deref(), Some("https://httpbin.org"));
    delete_proxy(&mut st);
    assert!(get_proxy(&st).is_none());
}

#[test]
fn set_proxy_trims_and_clears_on_blank() {
    let mut st = AppState::new(None, None);
    set_proxy(&mut st, ProxyConfig { url: "  http://u  ".to_string() });
    assert_eq!(get_proxy(&st).as_deref(), Some("http://u"));
    let r = set_proxy(&mut st, ProxyConfig { url: "   ".to_string() });
    assert!(r.is_none());
    assert!(get_proxy(&st).is_none());
}
