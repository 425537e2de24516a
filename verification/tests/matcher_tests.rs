use rustmock::matcher::matches_path_template;

#[test]
fn template_literal_exact_match() {
    assert!(matches_path_template("/hello", "/hello"));
    assert!(!matches_path_template("/hello", "/hello/"));
    assert!(!matches_path_template("/hello", "/hell"));
}

#[test]
fn template_single_parameter() {
    assert!(matches_path_template("/a/{x}", "/a/42"));
    assert!(!matches_path_template("/a/{x}", "/a/42/b"));
}

#[test]
fn template_two_parameters() {
    assert!(matches_path_template("/a/{x}/{y}", "/a/1/2"));
    assert!(!matches_path_template("/a/{x}/{y}", "/a/1"));
}

#[test]
fn template_matching_is_case_sensitive() {
    assert!(!matches_path_template("/Test", "/test"));
    assert!(matches_path_template("/Test", "/Test"));
}

#[test]
fn template_empty_segment_does_not_match() {
    assert!(!matches_path_template("/a/{x}", "/a/"));
    assert!(!matches_path_template("/users/{id}", "/users/"));
}

#[test]
fn template_parameter_never_crosses_slash() {
    assert!(!matches_path_template("/users/{id}", "/users/42/extra"));
    assert!(matches_path_template("/users/{id}/extra", "/users/42/extra"));
}

#[test]
fn template_malformed_braces_match_nothing() {
    assert!(!matches_path_template("/a/{x", "/a/42"));
    assert!(!matches_path_template("/a/x}", "/a/x}"));
    assert!(!matches_path_template("/a/{{x}}", "/a/42"));
    assert!(!matches_path_template("/a/{x", "/a/{x"));
}

#[test]
fn template_parameter_mid_segment() {
    assert!(matches_path_template("/file-{name}.txt", "/file-report.txt"));
    assert!(!matches_path_template("/file-{name}.txt", "/file-.txt"));
}

#[test]
fn template_update_plan_example() {
    assert!(matches_path_template(
        "/update-plan/{request_hash}",
        "/update-plan/abc123"
    ));
    assert!(!matches_path_template("/update-plan/{request_hash}", "/update-plan"));
}
