use rustmock::text::{operation_path_id, trim_string, u16_to_string, upper_string};

#[test]
fn upper_casing_is_ascii_only() {
    assert_eq!(upper_string("get"), "GET");
    assert_eq!(upper_string("PaTcH"), "PATCH");
    assert_eq!(upper_string("x-9_z"), "X-9_Z");
}

#[test]
fn trimming_removes_surrounding_whitespace() {
    assert_eq!(trim_string("  http://u \t\n"), "http://u");
    assert_eq!(trim_string("   "), "");
    assert_eq!(trim_string("inner space kept"), "inner space kept");
}

#[test]
fn decimal_rendering_matches_the_number() {
    assert_eq!(u16_to_string(0), "0");
    assert_eq!(u16_to_string(7), "7");
    assert_eq!(u16_to_string(204), "204");
    assert_eq!(u16_to_string(65535), "65535");
}

#[test]
fn operation_id_path_replaces_and_trims() {
    assert_eq!(operation_path_id("/api/users"), "api_users");
    assert_eq!(operation_path_id("/a/b/"), "a_b");
    assert_eq!(operation_path_id("///"), "");
    assert_eq!(operation_path_id("/users/{id}"), "users_{id}");
}
