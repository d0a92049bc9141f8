use oatf::document::Phase;
use oatf::document::ResponseEntry;
use oatf::document::select_response;
use oatf::document::compute_effective_state;
use oatf::predicate::MatchEntry;
use oatf::registry::extract_protocol;
use oatf::registry::is_event_valid_for_mode;
use oatf::registry::lookup_event;
use oatf::registry::lookup_surface;
use oatf::registry::strip_event_qualifier;
use oatf::value::values_deep_equal;
use oatf::Value;

fn s(text: &str) -> Value {
    Value::String(text.to_string())
}

fn phase(state: Option<Value>) -> Phase {
    Phase {
        name: None,
        description: None,
        mode: None,
        state,
        extractors: None,
        on_enter: None,
        trigger: None,
        extensions: vec![],
    }
}

#[test]
fn event_registry_knows_its_events() {
    let entry = lookup_event("tools/call").expect("registered event");
    assert_eq!(entry.event, "tools/call");
    assert_eq!(entry.valid_modes, vec!["mcp_server".to_string(), "mcp_client".to_string()]);
    assert!(lookup_event("no/such/event").is_none());
}

#[test]
fn event_mode_validity_checks_membership() {
    assert_eq!(is_event_valid_for_mode("tools/call", "mcp_server"), Some(true));
    assert_eq!(is_event_valid_for_mode("tools/call", "a2a_server"), Some(false));
    assert_eq!(is_event_valid_for_mode("run_started", "ag_ui_client"), Some(true));
    assert_eq!(is_event_valid_for_mode("unknown_event", "mcp_server"), None);
}

#[test]
fn surface_registry_knows_its_surfaces() {
    let entry = lookup_surface("tool_description").expect("registered surface");
    assert_eq!(entry.protocol, "mcp");
    assert_eq!(entry.default_target, "tools[*].description");
    let entry = lookup_surface("agent_card").expect("registered surface");
    assert_eq!(entry.protocol, "a2a");
    assert_eq!(entry.default_target, "");
    assert!(lookup_surface("no_such_surface").is_none());
}

#[test]
fn qualifier_stripping_and_protocol_extraction() {
    assert_eq!(strip_event_qualifier("tools/call:calculator"), "tools/call");
    assert_eq!(strip_event_qualifier("ping"), "ping");
    assert_eq!(extract_protocol("mcp_server"), "mcp");
    assert_eq!(extract_protocol("ag_ui_client"), "ag_ui");
    assert_eq!(extract_protocol("weird"), "weird");
}

#[test]
fn effective_state_inherits_from_earlier_phases() {
    let phases = vec![
        phase(Some(s("first"))),
        phase(None),
        phase(Some(s("third"))),
        phase(None),
    ];
    assert!(values_deep_equal(&compute_effective_state(&phases, 0), &s("first")));
    assert!(values_deep_equal(&compute_effective_state(&phases, 1), &s("first")));
    assert!(values_deep_equal(&compute_effective_state(&phases, 2), &s("third")));
    assert!(values_deep_equal(&compute_effective_state(&phases, 3), &s("third")));
    assert!(values_deep_equal(&compute_effective_state(&phases, 9), &s("third")));

    let none: Vec<Phase> = vec![phase(None)];
    assert!(values_deep_equal(&compute_effective_state(&none, 0), &Value::Null));
}

#[test]
fn response_selection_is_first_match_with_default_fallback() {
    let entries = vec![
        ResponseEntry {
            when: Some(vec![("kind".to_string(), MatchEntry::Scalar(s("a")))]),
            synthesize: None,
            extra: vec![("tag".to_string(), s("for-a"))],
        },
        ResponseEntry { when: None, synthesize: None, extra: vec![("tag".to_string(), s("default"))] },
        ResponseEntry {
            when: Some(vec![("kind".to_string(), MatchEntry::Scalar(s("b")))]),
            synthesize: None,
            extra: vec![("tag".to_string(), s("for-b"))],
        },
    ];

    let req_a = Value::Object(vec![("kind".to_string(), s("a"))]);
    let picked = select_response(&entries, &req_a).expect("a matches");
    assert_eq!(picked.extra[0].1.as_str().unwrap(), "for-a");

    let req_b = Value::Object(vec![("kind".to_string(), s("b"))]);
    let picked = select_response(&entries, &req_b).expect("b matches");
    assert_eq!(picked.extra[0].1.as_str().unwrap(), "for-b");

    let req_c = Value::Object(vec![("kind".to_string(), s("c"))]);
    let picked = select_response(&entries, &req_c).expect("default");
    assert_eq!(picked.extra[0].1.as_str().unwrap(), "default");

    let no_default = vec![ResponseEntry {
        when: Some(vec![("kind".to_string(), MatchEntry::Scalar(s("a")))]),
        synthesize: None,
        extra: vec![],
    }];
    assert!(select_response(&no_default, &req_c).is_none());
}
