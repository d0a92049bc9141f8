use oatf::condition::evaluate_condition;
use oatf::condition::evaluate_match_condition;
use oatf::condition::Condition;
use oatf::condition::MatchCondition;
use oatf::value::values_deep_equal;
use oatf::Value;

fn empty_condition() -> MatchCondition {
    MatchCondition {
        contains: None,
        starts_with: None,
        ends_with: None,
        regex: None,
        any_of: None,
        gt: None,
        lt: None,
        gte: None,
        lte: None,
        exists: None,
    }
}

fn s(text: &str) -> Value {
    Value::String(text.to_string())
}

#[test]
fn equality_compares_numbers_by_value() {
    // A whole number and a fixed-point number built from the same value are
    // deep-equal, whatever constructor produced them.
    let from_int = Value::from_int(42);
    let from_micros = Value::from_micros(42_000_000);
    assert!(values_deep_equal(&from_int, &from_micros));
    assert!(evaluate_condition(&Condition::Equality(from_micros), &from_int));
    assert!(!values_deep_equal(&Value::from_int(42), &Value::from_micros(42_000_001)));
}

#[test]
fn equality_is_deep_and_order_sensitive_for_arrays() {
    let a = Value::Array(vec![s("x"), s("y")]);
    let b = Value::Array(vec![s("x"), s("y")]);
    let c = Value::Array(vec![s("y"), s("x")]);
    assert!(evaluate_condition(&Condition::Equality(b), &a));
    assert!(!evaluate_condition(&Condition::Equality(c), &a));
}

#[test]
fn equality_ignores_object_key_order() {
    let a = Value::Object(vec![("k1".to_string(), s("v1")), ("k2".to_string(), s("v2"))]);
    let b = Value::Object(vec![("k2".to_string(), s("v2")), ("k1".to_string(), s("v1"))]);
    assert!(evaluate_condition(&Condition::Equality(b), &a));
}

#[test]
fn mismatched_kinds_are_never_equal() {
    assert!(!evaluate_condition(&Condition::Equality(s("1")), &Value::from_int(1)));
    assert!(!evaluate_condition(&Condition::Equality(Value::Bool(true)), &s("true")));
    assert!(!evaluate_condition(&Condition::Equality(Value::Null), &Value::Bool(false)));
}

#[test]
fn string_operators_pass_and_fail() {
    let mut c = empty_condition();
    c.contains = Some("licious".to_string());
    assert!(evaluate_match_condition(&c, &s("malicious tool")));
    assert!(!evaluate_match_condition(&c, &s("benign")));
    assert!(!evaluate_match_condition(&c, &Value::from_int(3)));

    let mut c = empty_condition();
    c.starts_with = Some("mal".to_string());
    assert!(evaluate_match_condition(&c, &s("malicious")));
    assert!(!evaluate_match_condition(&c, &s("amal")));

    let mut c = empty_condition();
    c.ends_with = Some("ous".to_string());
    assert!(evaluate_match_condition(&c, &s("malicious")));
    assert!(!evaluate_match_condition(&c, &s("ouster")));
}

#[test]
fn regex_operator_matches_and_fails_closed() {
    let mut c = empty_condition();
    c.regex = Some("^mal.*s$".to_string());
    assert!(evaluate_match_condition(&c, &s("malicious")));
    assert!(!evaluate_match_condition(&c, &s("benign")));
    assert!(!evaluate_match_condition(&c, &Value::from_int(1)));

    // An invalid pattern evaluates to false rather than erroring.
    let mut c = empty_condition();
    c.regex = Some("([".to_string());
    assert!(!evaluate_match_condition(&c, &s("anything")));
}

#[test]
fn any_of_singleton_acts_as_equality() {
    let mut c = empty_condition();
    c.any_of = Some(vec![s("x")]);
    assert!(evaluate_match_condition(&c, &s("x")));
    assert!(!evaluate_match_condition(&c, &s("y")));

    let mut c = empty_condition();
    c.any_of = Some(vec![Value::from_int(1), Value::from_int(2)]);
    assert!(evaluate_match_condition(&c, &Value::from_int(2)));
    assert!(!evaluate_match_condition(&c, &Value::from_int(3)));
}

#[test]
fn numeric_comparisons_combine_with_and() {
    let mut c = empty_condition();
    c.gt = Some(Value::from_int(1).as_number().unwrap());
    c.lt = Some(3_000_000);
    assert!(evaluate_match_condition(&c, &Value::from_int(2)));
    assert!(!evaluate_match_condition(&c, &Value::from_int(1)));
    assert!(!evaluate_match_condition(&c, &Value::from_int(3)));
    assert!(!evaluate_match_condition(&c, &s("2")));
}

#[test]
fn gt_and_lte_are_strict_complements() {
    // For every numeric subject, exactly one of {gt: b} and {lte: b} passes.
    for a in [-3_000_000i64, 0, 1_999_999, 2_000_000, 2_000_001, 7_000_000] {
        let mut gt = empty_condition();
        gt.gt = Some(2_000_000);
        let mut lte = empty_condition();
        lte.lte = Some(2_000_000);
        let subject = Value::from_micros(a);
        assert_ne!(
            evaluate_match_condition(&gt, &subject),
            evaluate_match_condition(&lte, &subject),
        );

        let mut lt = empty_condition();
        lt.lt = Some(2_000_000);
        let mut gte = empty_condition();
        gte.gte = Some(2_000_000);
        assert_ne!(
            evaluate_match_condition(&lt, &subject),
            evaluate_match_condition(&gte, &subject),
        );
    }
}

#[test]
fn empty_operator_set_is_true() {
    assert!(evaluate_match_condition(&empty_condition(), &s("anything")));
    assert!(evaluate_match_condition(&empty_condition(), &Value::Null));
}

#[test]
fn exists_is_ignored_outside_predicates() {
    let mut c = empty_condition();
    c.exists = Some(false);
    assert!(evaluate_match_condition(&c, &s("present")));
}
