use rustmock::dispatch::{complete_dispatch, dispatch, RequestData};
use rustmock::management::{add_endpoint, get_config, ConfigEntry};
use rustmock::model::{EndpointConfig, Method, ReplyBody};
use rustmock::openapi::{
    export_openapi, import_openapi, ApiDocument, ApiOperation, ApiPath, ApiResponse,
};
use rustmock::store::AppState;

fn j(s: &str) -> serde_json::Value {
    serde_json::from_str(s).unwrap()
}

fn response(status: u16, example: Option<&str>) -> ApiResponse {
    ApiResponse {
        status,
        description: String::new(),
        example: example.map(j),
    }
}

fn operation(method: Method, responses: Vec<ApiResponse>) -> ApiOperation {
    ApiOperation {
        method,
        summary: String::new(),
        operation_id: String::new(),
        has_request_body: false,
        request_schema: None,
        responses,
    }
}

fn document(paths: Vec<ApiPath>) -> ApiDocument {
    ApiDocument {
        title: "Test API".to_string(),
        description: String::new(),
        version: "1.0.0".to_string(),
        paths,
    }
}

#[test]
fn test_import_openapi_valid_spec() {
    let mut st = AppState::new(None, None);
    let doc = document(vec![
        ApiPath {
            template: "/api/users".to_string(),
            operations: vec![
                operation(
                    Method::Get,
                    vec![response(200, Some("{\"users\": [{\"id\": 1, \"name\": \"John\"}]}"))],
                ),
                operation(
                    Method::Post,
                    vec![response(201, Some("{\"id\": 1, \"name\": \"John\"}"))],
                ),
            ],
        },
        ApiPath {
            template: "/api/products/{id}".to_string(),
            operations: vec![operation(
                Method::Get,
                vec![response(200, Some("{\"id\": 1, \"name\": \"Product 1\"}"))],
            )],
        },
    ]);
    let reply = import_openapi(&mut st, doc);
    assert_eq!(reply.count, 3);
    assert!(st.lookup_exact(Method::Get, "/api/users").is_some());
    assert!(st.lookup_exact(Method::Post, "/api/users").is_some());
    assert!(st.lookup_exact(Method::Get, "/api/products/{id}").is_some());
    let entries = get_config(&st);
    // the imported document is installed, so its operations are listed too
    assert!(entries.iter().any(|e| matches!(
        e,
        ConfigEntry::DynamicEntry { method: Method::Get, path, .. } if path == "/api/users"
    )));
}

#[test]
fn test_import_preferred_status_order() {
    let mut st = AppState::new(None, None);
    let doc = document(vec![ApiPath {
        template: "/api/users".to_string(),
        operations: vec![
            operation(
                Method::Post,
                vec![
                    response(200, Some("{\"ok\": true}")),
                    response(201, Some("{\"created\": true}")),
                ],
            ),
            operation(Method::Get, vec![response(200, Some("{\"ok\": true}"))]),
        ],
    }]);
    import_openapi(&mut st, doc);
    // POST defines 200 and 201: the import prefers 201
    let post = st.lookup_exact(Method::Post, "/api/users").unwrap();
    assert_eq!(post.status, 201);
    assert_eq!(post.response, j("{\"created\": true}"));
    // GET defines only 200
    let get = st.lookup_exact(Method::Get, "/api/users").unwrap();
    assert_eq!(get.status, 200);
}

#[test]
fn import_without_example_stores_fallback_message() {
    let mut st = AppState::new(None, None);
    let doc = document(vec![ApiPath {
        template: "/bare".to_string(),
        operations: vec![operation(Method::Get, vec![response(200, None)])],
    }]);
    import_openapi(&mut st, doc);
    let ep = st.lookup_exact(Method::Get, "/bare").unwrap();
    assert_eq!(ep.response, j("{\"message\": \"OK\"}"));
    assert!(ep
        .headers
        .as_ref()
        .unwrap()
        .iter()
        .any(|(k, v)| k == "Content-Type" && v == "application/json"));
}

#[test]
fn test_call_imported_endpoint() {
    let mut st = AppState::new(None, None);
    let doc = document(vec![ApiPath {
        template: "/api/users".to_string(),
        operations: vec![operation(
            Method::Get,
            vec![response(200, Some("{\"users\": []}"))],
        )],
    }]);
    import_openapi(&mut st, doc);
    let decision = dispatch(&st, "GET", "/api/users");
    let req = RequestData {
        method: "GET".to_string(),
        path: "/api/users".to_string(),
        headers: Vec::new(),
        query: String::new(),
        body: Vec::new(),
    };
    let reply = complete_dispatch(&mut st, req, decision, None, "t".to_string());
    assert_eq!(reply.status, 200);
    match reply.body {
        ReplyBody::Json(v) => assert_eq!(v, j("{\"users\": []}")),
        _ => panic!("expected a JSON body"),
    }
}

#[test]
fn spec_example_serves_when_nothing_else_matches() {
    // a loaded document answers template paths the registry does not
    let doc = document(vec![ApiPath {
        template: "/things/{id}".to_string(),
        operations: vec![operation(
            Method::Get,
            vec![response(200, Some("{\"thing\": 1}"))],
        )],
    }]);
    let mut st = AppState::new(Some(doc), None);
    let decision = dispatch(&st, "GET", "/things/7");
    let req = RequestData {
        method: "GET".to_string(),
        path: "/things/7".to_string(),
        headers: Vec::new(),
        query: String::new(),
        body: Vec::new(),
    };
    let reply = complete_dispatch(&mut st, req, decision, None, "t".to_string());
    assert_eq!(reply.status, 200);
    match reply.body {
        ReplyBody::Json(v) => assert_eq!(v, j("{\"thing\": 1}")),
        _ => panic!("expected a JSON body"),
    }
    let logs = rustmock::management::get_logs(&st);
    assert_eq!(logs.last().unwrap().matched_endpoint.as_deref(), Some("OpenAPI spec"));
}

#[test]
fn spec_example_dispatch_prefers_200_over_201() {
    let doc = document(vec![ApiPath {
        template: "/pick".to_string(),
        operations: vec![operation(
            Method::Get,
            vec![
                response(201, Some("{\"from\": 201}")),
                response(200, Some("{\"from\": 200}")),
            ],
        )],
    }]);
    let mut st = AppState::new(Some(doc), None);
    let decision = dispatch(&st, "GET", "/pick");
    let req = RequestData {
        method: "GET".to_string(),
        path: "/pick".to_string(),
        headers: Vec::new(),
        query: String::new(),
        body: Vec::new(),
    };
    let reply = complete_dispatch(&mut st, req, decision, None, "t".to_string());
    match reply.body {
        ReplyBody::Json(v) => assert_eq!(v, j("{\"from\": 200}")),
        _ => panic!("expected a JSON body"),
    }
}

#[test]
fn test_export_openapi() {
    let mut st = AppState::new(None, None);
    add_endpoint(
        &mut st,
        EndpointConfig {
            method: "GET".to_string(),
            path: "/api/users".to_string(),
            response: j("{\"users\": []}"),
            status: Some(200),
            headers: None,
            proxy_url: None,
        },
    )
    .unwrap();
    add_endpoint(
        &mut st,
        EndpointConfig {
            method: "POST".to_string(),
            path: "/api/users".to_string(),
            response: j("{\"id\": 1, \"name\": \"John\"}"),
            status: Some(201),
            headers: None,
            proxy_url: None,
        },
    )
    .unwrap();
    let doc = export_openapi(&st);
    assert_eq!(doc.title, "Mock API");
    assert_eq!(doc.description, "Exported from Rust-Mock server");
    assert_eq!(doc.version, "1.0.0");
    assert_eq!(doc.paths.len(), 1);
    let path = &doc.paths[0];
    assert_eq!(path.template, "/api/users");
    assert_eq!(path.operations.len(), 2);
    let get_op = path.operations.iter().find(|o| o.method == Method::Get).unwrap();
    assert_eq!(get_op.summary, "GET /api/users");
    assert_eq!(get_op.operation_id, "get_api_users");
    assert!(!get_op.has_request_body);
    assert_eq!(get_op.responses.len(), 1);
    assert_eq!(get_op.responses[0].status, 200);
    assert_eq!(get_op.responses[0].example.as_ref().unwrap(), &j("{\"users\": []}"));
    let post_op = path.operations.iter().find(|o| o.method == Method::Post).unwrap();
    assert_eq!(post_op.summary, "POST /api/users");
    assert_eq!(post_op.operation_id, "post_api_users");
    assert!(post_op.has_request_body);
    assert_eq!(post_op.responses[0].status, 201);
    assert_eq!(
        post_op.responses[0].description,
        "Successful response with status 201"
    );
}

#[test]
fn test_import_export_roundtrip() {
    let mut st = AppState::new(None, None);
    let doc = document(vec![ApiPath {
        template: "/api/test".to_string(),
        operations: vec![operation(
            Method::Get,
            vec![response(200, Some("{\"message\": \"test\"}"))],
        )],
    }]);
    import_openapi(&mut st, doc);
    let exported = export_openapi(&st);
    assert_eq!(exported.title, "Mock API");
    let path = exported.paths.iter().find(|p| p.template == "/api/test").unwrap();
    let op = path.operations.iter().find(|o| o.method == Method::Get).unwrap();
    assert_eq!(op.responses[0].status, 200);
    assert_eq!(op.responses[0].example.as_ref().unwrap(), &j("{\"message\": \"test\"}"));
}

#[test]
fn export_then_import_reproduces_the_registry() {
    let mut st = AppState::new(None, None);
    for (method, path, body, status) in [
        ("GET", "/a", "{\"a\": 1}", 200u16),
        ("POST", "/a", "{\"b\": 2}", 201),
        ("DELETE", "/b/{id}", "{}", 204),
        ("PUT", "/c", "{\"c\": [1, 2]}", 202),
    ] {
        add_endpoint(
            &mut st,
            EndpointConfig {
                method: method.to_string(),
                path: path.to_string(),
                response: j(body),
                status: Some(status),
                headers: None,
                proxy_url: None,
            },
        )
        .unwrap();
    }
    let doc = export_openapi(&st);
    let mut st2 = AppState::new(None, None);
    import_openapi(&mut st2, doc);
    for (method, path, body, status) in [
        (Method::Get, "/a", "{\"a\": 1}", 200u16),
        (Method::Post, "/a", "{\"b\": 2}", 201),
        (Method::Delete, "/b/{id}", "{}", 204),
        (Method::Put, "/c", "{\"c\": [1, 2]}", 202),
    ] {
        let ep = st2.lookup_exact(method, path).unwrap();
        assert_eq!(ep.status, status);
        assert_eq!(ep.response, j(body));
    }
    assert_eq!(get_config(&st2).len(), 4 + 4);
}

#[test]
fn test_import_multiple_methods_same_path() {
    let mut st = AppState::new(None, None);
    let doc = document(vec![ApiPath {
        template: "/api/resource".to_string(),
        operations: vec![
            operation(Method::Get, vec![response(200, Some("{\"action\": \"get\"}"))]),
            operation(Method::Post, vec![response(201, Some("{\"action\": \"create\"}"))]),
            operation(Method::Put, vec![response(200, Some("{\"action\": \"update\"}"))]),
            operation(Method::Delete, vec![response(204, Some("{\"action\": \"delete\"}"))]),
        ],
    }]);
    let reply = import_openapi(&mut st, doc);
    assert_eq!(reply.count, 4);
    assert_eq!(st.lookup_exact(Method::Get, "/api/resource").unwrap().status, 200);
    assert_eq!(st.lookup_exact(Method::Post, "/api/resource").unwrap().status, 201);
    assert_eq!(st.lookup_exact(Method::Put, "/api/resource").unwrap().status, 200);
    assert_eq!(st.lookup_exact(Method::Delete, "/api/resource").unwrap().status, 204);
}

#[test]
fn suppressed_spec_endpoints_leave_the_listing() {
    let doc = document(vec![ApiPath {
        template: "/api/users".to_string(),
        operations: vec![operation(
            Method::Get,
            vec![response(200, Some("{\"users\": []}"))],
        )],
    }]);
    let mut st = AppState::new(Some(doc), None);
    assert_eq!(get_config(&st).len(), 1);
    let removed = rustmock::management::remove_endpoint(
        &mut st,
        rustmock::model::RemoveConfig {
            method: "GET".to_string(),
            path: "/api/users".to_string(),
        },
    );
    assert!(removed);
    assert_eq!(get_config(&st).len(), 0);
}

#[test]
fn test_import_openapi_with_path_parameters() {
    let mut st = AppState::new(None, None);
    let doc = document(vec![ApiPath {
        template: "/api/items/{item_id}".to_string(),
        operations: vec![operation(
            Method::Get,
            vec![response(200, Some("{\"item\": \"found\"}"))],
        )],
    }]);
    let reply = import_openapi(&mut st, doc);
    assert_eq!(reply.count, 1);
    // the imported template answers concrete paths through template matching
    let decision = dispatch(&st, "GET", "/api/items/abc123");
    let req = RequestData {
        method: "GET".to_string(),
        path: "/api/items/abc123".to_string(),
        headers: Vec::new(),
        query: String::new(),
        body: Vec::new(),
    };
    let reply = complete_dispatch(&mut st, req, decision, None, "t".to_string());
    assert_eq!(reply.status, 200);
    match reply.body {
        ReplyBody::Json(v) => assert_eq!(v, j("{\"item\": \"found\"}")),
        _ => panic!("expected a JSON body"),
    }
}

#[test]
fn test_import_comprehensive_openapi_spec() {
    let mut st = AppState::new(None, None);
    let doc = document(vec![
        ApiPath {
            template: "/api/orders".to_string(),
            operations: vec![
                operation(Method::Get, vec![response(200, Some("{\"orders\": []}"))]),
                operation(Method::Post, vec![response(201, Some("{\"id\": 10}"))]),
            ],
        },
        ApiPath {
            template: "/api/orders/{id}".to_string(),
            operations: vec![
                operation(Method::Get, vec![response(200, Some("{\"id\": 10}"))]),
                operation(Method::Put, vec![response(200, Some("{\"updated\": true}"))]),
                operation(Method::Delete, vec![response(204, None)]),
            ],
        },
    ]);
    let reply = import_openapi(&mut st, doc);
    assert_eq!(reply.count, 5);
    assert_eq!(get_config(&st).len(), 5 + 5);
    // a delete operation without an example falls back to the fixed body
    let ep = st.lookup_exact(Method::Delete, "/api/orders/{id}").unwrap();
    assert_eq!(ep.status, 204);
    assert_eq!(ep.response, j("{\"message\": \"OK\"}"));
}
