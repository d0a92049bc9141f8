use oatf::enums::ExtractorSource;
use oatf::enums::ExtractorType;
use oatf::extractor::evaluate_extractor;
use oatf::extractor::Extractor;
use oatf::Value;

fn s(text: &str) -> Value {
    Value::String(text.to_string())
}

fn message() -> Value {
    Value::Object(vec![("name".to_string(), s("test"))])
}

#[test]
fn extractor_direction_mismatch_request() {
    let extractor = Extractor {
        name: "x".to_string(),
        source: ExtractorSource::Request,
        extractor_type: ExtractorType::JsonPath,
        selector: "$.name".to_string(),
    };
    let result = evaluate_extractor(&extractor, &message(), ExtractorSource::Response);
    assert_eq!(result, None);
}

#[test]
fn extractor_direction_mismatch_response() {
    let extractor = Extractor {
        name: "x".to_string(),
        source: ExtractorSource::Response,
        extractor_type: ExtractorType::JsonPath,
        selector: "$.name".to_string(),
    };
    let result = evaluate_extractor(&extractor, &message(), ExtractorSource::Request);
    assert_eq!(result, None);
}

#[test]
fn extractor_direction_match_extracts() {
    let extractor = Extractor {
        name: "x".to_string(),
        source: ExtractorSource::Response,
        extractor_type: ExtractorType::JsonPath,
        selector: "$.name".to_string(),
    };
    let result = evaluate_extractor(&extractor, &message(), ExtractorSource::Response);
    assert_eq!(result, Some("test".to_string()));
}

#[test]
fn jsonpath_no_match_and_bad_selector_yield_none() {
    let extractor = Extractor {
        name: "x".to_string(),
        source: ExtractorSource::Request,
        extractor_type: ExtractorType::JsonPath,
        selector: "$.missing".to_string(),
    };
    assert_eq!(evaluate_extractor(&extractor, &message(), ExtractorSource::Request), None);

    let extractor = Extractor {
        name: "x".to_string(),
        source: ExtractorSource::Request,
        extractor_type: ExtractorType::JsonPath,
        selector: "not a path".to_string(),
    };
    assert_eq!(evaluate_extractor(&extractor, &message(), ExtractorSource::Request), None);
}

#[test]
fn jsonpath_non_scalar_renders_compact() {
    let extractor = Extractor {
        name: "x".to_string(),
        source: ExtractorSource::Request,
        extractor_type: ExtractorType::JsonPath,
        selector: "$".to_string(),
    };
    let result = evaluate_extractor(&extractor, &message(), ExtractorSource::Request);
    assert_eq!(result, Some("{\"name\":\"test\"}".to_string()));
}

#[test]
fn regex_extractor_returns_first_capture_group() {
    let extractor = Extractor {
        name: "x".to_string(),
        source: ExtractorSource::Request,
        extractor_type: ExtractorType::Regex,
        selector: "name=(\\w+)".to_string(),
    };
    let result = evaluate_extractor(&extractor, &s("name=alice id=7"), ExtractorSource::Request);
    assert_eq!(result, Some("alice".to_string()));
}

#[test]
fn regex_without_capture_group_yields_none_even_on_match() {
    let extractor = Extractor {
        name: "x".to_string(),
        source: ExtractorSource::Request,
        extractor_type: ExtractorType::Regex,
        selector: "name=\\w+".to_string(),
    };
    let result = evaluate_extractor(&extractor, &s("name=alice"), ExtractorSource::Request);
    assert_eq!(result, None);
}

#[test]
fn regex_empty_capture_is_some_empty_not_none() {
    let extractor = Extractor {
        name: "x".to_string(),
        source: ExtractorSource::Request,
        extractor_type: ExtractorType::Regex,
        selector: "name=(\\w*)".to_string(),
    };
    let result = evaluate_extractor(&extractor, &s("name="), ExtractorSource::Request);
    assert_eq!(result, Some("".to_string()));
}

#[test]
fn regex_extractor_renders_non_string_messages_as_json() {
    let extractor = Extractor {
        name: "x".to_string(),
        source: ExtractorSource::Request,
        extractor_type: ExtractorType::Regex,
        selector: "\"name\":\"(\\w+)\"".to_string(),
    };
    let result = evaluate_extractor(&extractor, &message(), ExtractorSource::Request);
    assert_eq!(result, Some("test".to_string()));
}
