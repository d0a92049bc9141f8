use oatf::error::DiagnosticSeverity;
use oatf::template::interpolate_template;
use oatf::template::interpolate_value;
use oatf::value::values_deep_equal;
use oatf::Value;

fn s(text: &str) -> Value {
    Value::String(text.to_string())
}

#[test]
fn escaped_braces_survive_verbatim() {
    let (out, diags) = interpolate_template("\\{{x}}", &vec![], None, None);
    assert_eq!(out, "{{x}}");
    assert_eq!(diags.len(), 0);
}

#[test]
fn unresolved_reference_substitutes_empty_and_warns_once() {
    let (out, diags) = interpolate_template("a {{nope}} b", &vec![], None, None);
    assert_eq!(out, "a  b");
    assert_eq!(diags.len(), 1);
    assert_eq!(diags[0].severity, DiagnosticSeverity::Warning);
    assert_eq!(diags[0].code, "W-004");
    assert!(diags[0].message.contains("nope"));
}

#[test]
fn extractor_table_match_is_used_verbatim() {
    let table = vec![("name".to_string(), "Alice".to_string())];
    let (out, diags) = interpolate_template("hello {{name}}!", &table, None, None);
    assert_eq!(out, "hello Alice!");
    assert_eq!(diags.len(), 0);
}

#[test]
fn request_prefix_resolves_against_request_tree() {
    let request = Value::Object(vec![(
        "user".to_string(),
        Value::Object(vec![("id".to_string(), s("u-7"))]),
    )]);
    let (out, diags) = interpolate_template("id={{request.user.id}}", &vec![], Some(&request), None);
    assert_eq!(out, "id=u-7");
    assert_eq!(diags.len(), 0);
}

#[test]
fn response_prefix_without_tree_warns() {
    let (out, diags) = interpolate_template("{{response.status}}", &vec![], None, None);
    assert_eq!(out, "");
    assert_eq!(diags.len(), 1);
    assert!(diags[0].message.contains("response.status"));
}

#[test]
fn unterminated_open_brace_passes_through() {
    let (out, diags) = interpolate_template("a {{ rest", &vec![], None, None);
    assert_eq!(out, "a {{ rest");
    assert_eq!(diags.len(), 0);
}

#[test]
fn non_string_values_render_naturally() {
    let request = Value::Object(vec![
        ("n".to_string(), Value::from_int(5)),
        ("b".to_string(), Value::Bool(true)),
        ("z".to_string(), Value::Null),
        ("a".to_string(), Value::Array(vec![Value::from_int(1), s("x")])),
    ]);
    let (out, _) = interpolate_template(
        "{{request.n}}|{{request.b}}|{{request.z}}|{{request.a}}",
        &vec![],
        Some(&request),
        None,
    );
    assert_eq!(out, "5|true|null|[1,\"x\"]");
}

#[test]
fn interpolate_value_rebuilds_the_tree_and_aggregates_diagnostics() {
    let table = vec![("who".to_string(), "world".to_string())];
    let tree = Value::Object(vec![
        ("greet".to_string(), s("hi {{who}}")),
        (
            "list".to_string(),
            Value::Array(vec![s("{{missing1}}"), s("plain"), s("{{missing2}}")]),
        ),
        ("num".to_string(), Value::from_int(3)),
    ]);
    let (out, diags) = interpolate_value(&tree, &table, None, None);
    let expected = Value::Object(vec![
        ("greet".to_string(), s("hi world")),
        ("list".to_string(), Value::Array(vec![s(""), s("plain"), s("")])),
        ("num".to_string(), Value::from_int(3)),
    ]);
    assert!(values_deep_equal(&out, &expected));
    assert_eq!(diags.len(), 2);
    assert!(diags[0].message.contains("missing1"));
    assert!(diags[1].message.contains("missing2"));
}
