use oatf::path::is_valid_simple_dot_path;
use oatf::path::is_valid_wildcard_dot_path;
use oatf::path::resolve_simple_path;
use oatf::path::resolve_wildcard_path;
use oatf::value::values_deep_equal;
use oatf::Value;

fn obj(entries: Vec<(&str, Value)>) -> Value {
    Value::Object(entries.into_iter().map(|(k, v)| (k.to_string(), v)).collect())
}

fn s(text: &str) -> Value {
    Value::String(text.to_string())
}

#[test]
fn simple_path_reaches_nested_leaf() {
    let tree = obj(vec![("a", obj(vec![("b", obj(vec![("c", s("leaf"))]))]))]);
    let got = resolve_simple_path("a.b.c", &tree).expect("path should resolve");
    assert!(values_deep_equal(&got, &s("leaf")));
}

#[test]
fn simple_path_empty_returns_root() {
    let tree = obj(vec![("a", s("x"))]);
    let got = resolve_simple_path("", &tree).expect("empty path is the root");
    assert!(values_deep_equal(&got, &tree));
}

#[test]
fn simple_path_one_segment_too_deep_fails() {
    let tree = obj(vec![("a", obj(vec![("b", s("leaf"))]))]);
    assert!(resolve_simple_path("a.b.c", &tree).is_none());
}

#[test]
fn simple_path_missing_key_fails() {
    let tree = obj(vec![("a", s("x"))]);
    assert!(resolve_simple_path("b", &tree).is_none());
    assert!(resolve_simple_path("a.b", &tree).is_none());
}

#[test]
fn wildcard_path_without_wildcard_matches_simple() {
    let tree = obj(vec![("a", obj(vec![("b", s("leaf"))]))]);
    let got = resolve_wildcard_path("a.b", &tree);
    assert_eq!(got.len(), 1);
    assert!(values_deep_equal(&got[0], &s("leaf")));
}

#[test]
fn wildcard_path_empty_returns_root_as_singleton() {
    let tree = obj(vec![("a", s("x"))]);
    let got = resolve_wildcard_path("", &tree);
    assert_eq!(got.len(), 1);
    assert!(values_deep_equal(&got[0], &tree));
}

#[test]
fn wildcard_fans_out_over_array() {
    let tree = obj(vec![(
        "tools",
        Value::Array(vec![
            obj(vec![("name", s("one"))]),
            obj(vec![("name", s("two"))]),
            obj(vec![("name", s("three"))]),
        ]),
    )]);
    let got = resolve_wildcard_path("tools[*].name", &tree);
    assert_eq!(got.len(), 3);
    assert!(values_deep_equal(&got[0], &s("one")));
    assert!(values_deep_equal(&got[1], &s("two")));
    assert!(values_deep_equal(&got[2], &s("three")));
}

#[test]
fn wildcard_over_non_array_contributes_nothing() {
    let tree = obj(vec![("tools", s("not an array"))]);
    let got = resolve_wildcard_path("tools[*]", &tree);
    assert_eq!(got.len(), 0);
}

#[test]
fn wildcard_malformed_path_yields_empty() {
    let tree = obj(vec![("a", s("x"))]);
    assert_eq!(resolve_wildcard_path("a[0]", &tree).len(), 0);
    assert_eq!(resolve_wildcard_path("a[*", &tree).len(), 0);
    assert_eq!(resolve_wildcard_path(".a", &tree).len(), 0);
    assert_eq!(resolve_wildcard_path("a[*]b", &tree).len(), 0);
}

#[test]
fn valid_simple_dot_path_accepts_and_rejects() {
    assert!(is_valid_simple_dot_path(""));
    assert!(is_valid_simple_dot_path("a"));
    assert!(is_valid_simple_dot_path("a.b_c.d-e"));
    assert!(is_valid_simple_dot_path("A9.z"));
    assert!(!is_valid_simple_dot_path(".a"));
    assert!(!is_valid_simple_dot_path("a."));
    assert!(!is_valid_simple_dot_path("a..b"));
    assert!(!is_valid_simple_dot_path("a[*].b"));
    assert!(!is_valid_simple_dot_path("a b"));
}

#[test]
fn valid_wildcard_dot_path_accepts_and_rejects() {
    assert!(is_valid_wildcard_dot_path(""));
    assert!(is_valid_wildcard_dot_path("tools[*].description"));
    assert!(is_valid_wildcard_dot_path("a.b"));
    assert!(is_valid_wildcard_dot_path("a[*]"));
    assert!(!is_valid_wildcard_dot_path("a[0]"));
    assert!(!is_valid_wildcard_dot_path("a[-1]"));
    assert!(!is_valid_wildcard_dot_path("a..b"));
    assert!(!is_valid_wildcard_dot_path("a."));
    assert!(!is_valid_wildcard_dot_path(".a"));
    assert!(!is_valid_wildcard_dot_path("[*]"));
    assert!(!is_valid_wildcard_dot_path("a[*]b"));
}
