use oatf::render::to_json_string;
use oatf::render::value_to_string;
use oatf::Value;

fn s(text: &str) -> Value {
    Value::String(text.to_string())
}

#[test]
fn scalars_render_naturally() {
    assert_eq!(value_to_string(&s("plain")), "plain");
    assert_eq!(value_to_string(&Value::Null), "null");
    assert_eq!(value_to_string(&Value::Bool(true)), "true");
    assert_eq!(value_to_string(&Value::Bool(false)), "false");
    assert_eq!(value_to_string(&Value::from_int(42)), "42");
    assert_eq!(value_to_string(&Value::from_int(-7)), "-7");
    assert_eq!(value_to_string(&Value::from_micros(700000)), "0.7");
    assert_eq!(value_to_string(&Value::from_micros(-1500000)), "-1.5");
    assert_eq!(value_to_string(&Value::from_micros(123456)), "0.123456");
}

#[test]
fn containers_render_as_compact_json() {
    let v = Value::Object(vec![
        ("a".to_string(), Value::Array(vec![Value::from_int(1), Value::Null])),
        ("b".to_string(), s("x")),
    ]);
    assert_eq!(value_to_string(&v), "{\"a\":[1,null],\"b\":\"x\"}");
    assert_eq!(to_json_string(&s("quoted")), "\"quoted\"");
    assert_eq!(to_json_string(&Value::Array(vec![])), "[]");
    assert_eq!(to_json_string(&Value::Object(vec![])), "{}");
}

#[test]
fn strings_are_escaped_in_json() {
    let v = s("a\"b\\c\nd\te");
    assert_eq!(to_json_string(&v), "\"a\\\"b\\\\c\\nd\\te\"");
    let ctrl = s("\u{1}");
    assert_eq!(to_json_string(&ctrl), "\"\\u0001\"");
}
