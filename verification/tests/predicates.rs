use oatf::condition::MatchCondition;
use oatf::predicate::evaluate_predicate;
use oatf::predicate::MatchEntry;
use oatf::Value;

fn empty_condition() -> MatchCondition {
    MatchCondition {
        contains: None,
        starts_with: None,
        ends_with: None,
        regex: None,
        any_of: None,
        gt: None,
        lt: None,
        gte: None,
        lte: None,
        exists: None,
    }
}

fn s(text: &str) -> Value {
    Value::String(text.to_string())
}

fn tree() -> Value {
    Value::Object(vec![(
        "params".to_string(),
        Value::Object(vec![("name".to_string(), s("calc"))]),
    )])
}

#[test]
fn scalar_entry_requires_resolution_and_equality() {
    let p = vec![("params.name".to_string(), MatchEntry::Scalar(s("calc")))];
    assert!(evaluate_predicate(&p, &tree()));

    let p = vec![("params.name".to_string(), MatchEntry::Scalar(s("other")))];
    assert!(!evaluate_predicate(&p, &tree()));

    let p = vec![("params.missing".to_string(), MatchEntry::Scalar(s("calc")))];
    assert!(!evaluate_predicate(&p, &tree()));
}

#[test]
fn exists_false_on_missing_path_is_true() {
    let mut c = empty_condition();
    c.exists = Some(false);
    let p = vec![("params.missing".to_string(), MatchEntry::Condition(c))];
    assert!(evaluate_predicate(&p, &tree()));
}

#[test]
fn exists_false_on_present_path_is_false() {
    let mut c = empty_condition();
    c.exists = Some(false);
    let p = vec![("params.name".to_string(), MatchEntry::Condition(c))];
    assert!(!evaluate_predicate(&p, &tree()));
}

#[test]
fn exists_true_on_present_path_is_true() {
    let mut c = empty_condition();
    c.exists = Some(true);
    let p = vec![("params.name".to_string(), MatchEntry::Condition(c))];
    assert!(evaluate_predicate(&p, &tree()));
}

#[test]
fn exists_true_on_missing_path_is_false() {
    let mut c = empty_condition();
    c.exists = Some(true);
    let p = vec![("params.missing".to_string(), MatchEntry::Condition(c))];
    assert!(!evaluate_predicate(&p, &tree()));
}

#[test]
fn exists_false_with_other_operators_is_false() {
    let mut c = empty_condition();
    c.exists = Some(false);
    c.contains = Some("x".to_string());
    let p = vec![("params.missing".to_string(), MatchEntry::Condition(c))];
    assert!(!evaluate_predicate(&p, &tree()));
}

#[test]
fn exists_true_also_checks_remaining_operators() {
    let mut c = empty_condition();
    c.exists = Some(true);
    c.contains = Some("al".to_string());
    let p = vec![("params.name".to_string(), MatchEntry::Condition(c))];
    assert!(evaluate_predicate(&p, &tree()));

    let mut c = empty_condition();
    c.exists = Some(true);
    c.contains = Some("zz".to_string());
    let p = vec![("params.name".to_string(), MatchEntry::Condition(c))];
    assert!(!evaluate_predicate(&p, &tree()));
}

#[test]
fn entries_combine_with_and() {
    let mut c = empty_condition();
    c.starts_with = Some("ca".to_string());
    let p = vec![
        ("params.name".to_string(), MatchEntry::Scalar(s("calc"))),
        ("params.name".to_string(), MatchEntry::Condition(c)),
    ];
    assert!(evaluate_predicate(&p, &tree()));

    let mut c = empty_condition();
    c.starts_with = Some("zz".to_string());
    let p = vec![
        ("params.name".to_string(), MatchEntry::Scalar(s("calc"))),
        ("params.name".to_string(), MatchEntry::Condition(c)),
    ];
    assert!(!evaluate_predicate(&p, &tree()));
}

#[test]
fn empty_predicate_is_vacuously_true() {
    let p = vec![];
    assert!(evaluate_predicate(&p, &tree()));
    assert!(evaluate_predicate(&p, &Value::Null));
}
