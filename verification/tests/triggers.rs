use oatf::duration::Duration;
use oatf::indicator::PatternMatch;
use oatf::predicate::MatchEntry;
use oatf::enums::AdvanceReason;
use oatf::trigger::evaluate_trigger;
use oatf::trigger::evaluate_trigger_resolved;
use oatf::trigger::parse_event_qualifier;
use oatf::trigger::ProtocolEvent;
use oatf::trigger::QualifierResolver;
use oatf::trigger::Trigger;
use oatf::trigger::TriggerResult;
use oatf::trigger::TriggerState;
use oatf::Value;

fn trigger_on(event: &str, count: Option<i64>, after: Option<&str>) -> Trigger {
    Trigger {
        event: Some(event.to_string()),
        count,
        match_predicate: None,
        after: after.map(|a| a.to_string()),
    }
}

fn event(event_type: &str) -> ProtocolEvent {
    ProtocolEvent {
        event_type: event_type.to_string(),
        qualifier: None,
        content: Value::Object(vec![]),
    }
}

fn advanced(reason: AdvanceReason) -> TriggerResult {
    TriggerResult::Advanced { reason }
}

#[test]
fn count_three_advances_only_on_third_matching_call() {
    let trigger = trigger_on("tools/call", Some(3), None);
    let mut state = TriggerState { event_count: 0 };
    let ev = event("tools/call");
    let other = event("tools/list");
    let elapsed = Duration { secs: 0 };

    let r1 = evaluate_trigger_resolved(&trigger, Some(&ev), elapsed, &mut state, None);
    assert_eq!(r1, TriggerResult::NotAdvanced);
    assert_eq!(state.event_count, 1);

    let r2 = evaluate_trigger_resolved(&trigger, Some(&ev), elapsed, &mut state, None);
    assert_eq!(r2, TriggerResult::NotAdvanced);
    assert_eq!(state.event_count, 2);

    // A non-matching event in between does not increment the counter.
    let rx = evaluate_trigger_resolved(&trigger, Some(&other), elapsed, &mut state, None);
    assert_eq!(rx, TriggerResult::NotAdvanced);
    assert_eq!(state.event_count, 2);

    let r3 = evaluate_trigger_resolved(&trigger, Some(&ev), elapsed, &mut state, None);
    assert_eq!(r3, advanced(AdvanceReason::EventMatched));
    assert_eq!(state.event_count, 3);
}

#[test]
fn timeout_fires_before_event_matching_and_keeps_state() {
    let trigger = trigger_on("tools/call", Some(1), Some("5s"));
    let mut state = TriggerState { event_count: 0 };
    let ev = event("tools/call");

    let r = evaluate_trigger_resolved(
        &trigger,
        Some(&ev),
        Duration { secs: 5 },
        &mut state,
        None,
    );
    assert_eq!(r, advanced(AdvanceReason::Timeout));
    assert_eq!(state.event_count, 0);

    let r = evaluate_trigger_resolved(
        &trigger,
        Some(&ev),
        Duration { secs: 4 },
        &mut state,
        None,
    );
    assert_eq!(r, advanced(AdvanceReason::EventMatched));
    assert_eq!(state.event_count, 1);
}

#[test]
fn unparsable_after_never_times_out() {
    let trigger = trigger_on("tools/call", None, Some("bogus"));
    let mut state = TriggerState { event_count: 0 };
    let r = evaluate_trigger_resolved(
        &trigger,
        Some(&event("tools/call")),
        Duration { secs: 100 },
        &mut state,
        None,
    );
    assert_eq!(r, advanced(AdvanceReason::EventMatched));
}

#[test]
fn qualifier_from_event_must_match_trigger() {
    let trigger = trigger_on("tools/call:calc", None, None);
    let mut state = TriggerState { event_count: 0 };
    let elapsed = Duration { secs: 0 };

    let mut ev = event("tools/call");
    ev.qualifier = Some("calc".to_string());
    let r = evaluate_trigger_resolved(&trigger, Some(&ev), elapsed, &mut state, None);
    assert_eq!(r, advanced(AdvanceReason::EventMatched));

    let mut ev = event("tools/call");
    ev.qualifier = Some("other".to_string());
    let r = evaluate_trigger_resolved(&trigger, Some(&ev), elapsed, &mut state, None);
    assert_eq!(r, TriggerResult::NotAdvanced);

    // No event qualifier and no fallback: unresolvable, not advanced.
    let ev = event("tools/call");
    let r = evaluate_trigger_resolved(&trigger, Some(&ev), elapsed, &mut state, None);
    assert_eq!(r, TriggerResult::NotAdvanced);
}

struct NameResolver;

impl QualifierResolver for NameResolver {
    fn resolve(&self, _protocol: &str, _base_event: &str, content: &Value) -> Option<String> {
        match content {
            Value::Object(entries) => entries.iter().find_map(|(k, v)| {
                if k == "name" {
                    match v {
                        Value::String(s) => Some(s.clone()),
                        _ => None,
                    }
                } else {
                    None
                }
            }),
            _ => None,
        }
    }
}

#[test]
fn resolver_supplies_qualifier_from_content() {
    let trigger = trigger_on("tools/call:calc", None, None);
    let mut state = TriggerState { event_count: 0 };
    let ev = ProtocolEvent {
        event_type: "tools/call".to_string(),
        qualifier: None,
        content: Value::Object(vec![(
            "name".to_string(),
            Value::String("calc".to_string()),
        )]),
    };
    let r = evaluate_trigger(
        &trigger,
        Some(&ev),
        Duration { secs: 0 },
        &mut state,
        "mcp",
        Some(&NameResolver),
    );
    assert_eq!(r, advanced(AdvanceReason::EventMatched));
    assert_eq!(state.event_count, 1);
}

#[test]
fn no_event_and_no_after_never_advances() {
    let trigger = trigger_on("tools/call", None, None);
    let mut state = TriggerState { event_count: 0 };
    let r = evaluate_trigger_resolved(
        &trigger,
        None,
        Duration { secs: 1000 },
        &mut state,
        None,
    );
    assert_eq!(r, TriggerResult::NotAdvanced);
    assert_eq!(state.event_count, 0);
}

#[test]
fn event_names_split_on_first_colon() {
    let (base, qual) = parse_event_qualifier("tools/call:calc");
    assert_eq!(base, "tools/call");
    assert_eq!(qual, Some("calc".to_string()));

    let (base, qual) = parse_event_qualifier("ping");
    assert_eq!(base, "ping");
    assert_eq!(qual, None);

    let (base, qual) = parse_event_qualifier("a:b:c");
    assert_eq!(base, "a");
    assert_eq!(qual, Some("b:c".to_string()));
}

#[test]
fn trigger_predicate_gates_the_match() {
    let trigger = Trigger {
        event: Some("tools/call".to_string()),
        count: None,
        match_predicate: Some(vec![(
            "params.name".to_string(),
            MatchEntry::Scalar(Value::String("calc".to_string())),
        )]),
        after: None,
    };
    let mut state = TriggerState { event_count: 0 };
    let elapsed = Duration { secs: 0 };

    let wrong = ProtocolEvent {
        event_type: "tools/call".to_string(),
        qualifier: None,
        content: Value::Object(vec![(
            "params".to_string(),
            Value::Object(vec![("name".to_string(), Value::String("other".to_string()))]),
        )]),
    };
    let r = evaluate_trigger_resolved(&trigger, Some(&wrong), elapsed, &mut state, None);
    assert_eq!(r, TriggerResult::NotAdvanced);
    assert_eq!(state.event_count, 0);

    let right = ProtocolEvent {
        event_type: "tools/call".to_string(),
        qualifier: None,
        content: Value::Object(vec![(
            "params".to_string(),
            Value::Object(vec![("name".to_string(), Value::String("calc".to_string()))]),
        )]),
    };
    let r = evaluate_trigger_resolved(&trigger, Some(&right), elapsed, &mut state, None);
    assert_eq!(r, advanced(AdvanceReason::EventMatched));
    assert_eq!(state.event_count, 1);
}

#[test]
fn match_condition_exists_is_ignored_by_shorthand_detection() {
    let p = PatternMatch {
        target: None,
        condition: None,
        contains: Some("x".to_string()),
        starts_with: None,
        ends_with: None,
        regex: None,
        any_of: None,
        gt: None,
        lt: None,
        gte: None,
        lte: None,
    };
    assert!(p.is_shorthand());
    assert!(p.is_shorthand_fields_present());

    let bare = PatternMatch {
        target: Some("a".to_string()),
        condition: None,
        contains: None,
        starts_with: None,
        ends_with: None,
        regex: None,
        any_of: None,
        gt: None,
        lt: None,
        gte: None,
        lte: None,
    };
    assert!(!bare.is_shorthand());
}
