use oatf::condition::Condition;
use oatf::condition::MatchCondition;
use oatf::enums::IndicatorResult;
use oatf::enums::SemanticIntentClass;
use oatf::error::EvaluationError;
use oatf::error::EvaluationErrorKind;
use oatf::indicator::evaluate_indicator;
use oatf::indicator::evaluate_pattern;
use oatf::indicator::CelEvaluator;
use oatf::indicator::ExpressionMatch;
use oatf::indicator::Indicator;
use oatf::indicator::PatternMatch;
use oatf::indicator::SemanticEvaluator;
use oatf::indicator::SemanticExamples;
use oatf::indicator::SemanticMatch;
use oatf::Value;

fn s(text: &str) -> Value {
    Value::String(text.to_string())
}

fn bare_indicator(id: &str) -> Indicator {
    Indicator {
        id: Some(id.to_string()),
        protocol: None,
        surface: "tool_description".to_string(),
        description: None,
        pattern: None,
        expression: None,
        semantic: None,
        confidence: None,
        severity: None,
        false_positives: None,
        extensions: vec![],
    }
}

fn contains_pattern(target: &str, needle: &str) -> PatternMatch {
    PatternMatch {
        target: Some(target.to_string()),
        condition: Some(Condition::Operators(MatchCondition {
            contains: Some(needle.to_string()),
            starts_with: None,
            ends_with: None,
            regex: None,
            any_of: None,
            gt: None,
            lt: None,
            gte: None,
            lte: None,
            exists: None,
        })),
        contains: None,
        starts_with: None,
        ends_with: None,
        regex: None,
        any_of: None,
        gt: None,
        lt: None,
        gte: None,
        lte: None,
    }
}

fn tools_message(descriptions: &[&str]) -> Value {
    Value::Object(vec![(
        "tools".to_string(),
        Value::Array(
            descriptions
                .iter()
                .map(|d| Value::Object(vec![("description".to_string(), s(d))]))
                .collect(),
        ),
    )])
}

struct NoCel;

impl CelEvaluator for NoCel {
    fn evaluate(&self, _e: &str, _c: &Value) -> Result<Value, EvaluationError> {
        Err(EvaluationError {
            kind: EvaluationErrorKind::CelError,
            message: "unused".to_string(),
            indicator_id: None,
        })
    }
}

struct FixedCel(Value);

impl CelEvaluator for FixedCel {
    fn evaluate(&self, _e: &str, _c: &Value) -> Result<Value, EvaluationError> {
        Ok(self.0.deep_copy())
    }
}

struct FixedScoreEvaluator(i64);

impl SemanticEvaluator for FixedScoreEvaluator {
    fn evaluate(
        &self,
        _text: &str,
        _intent: &str,
        _intent_class: Option<&SemanticIntentClass>,
        _threshold: Option<i64>,
        _examples: Option<&SemanticExamples>,
    ) -> Result<i64, EvaluationError> {
        Ok(self.0)
    }
}

struct FailingSemantic;

impl SemanticEvaluator for FailingSemantic {
    fn evaluate(
        &self,
        _text: &str,
        _intent: &str,
        _intent_class: Option<&SemanticIntentClass>,
        _threshold: Option<i64>,
        _examples: Option<&SemanticExamples>,
    ) -> Result<i64, EvaluationError> {
        Err(EvaluationError {
            kind: EvaluationErrorKind::SemanticError,
            message: "model unavailable".to_string(),
            indicator_id: None,
        })
    }
}

fn make_semantic_indicator(id: &str, threshold_micros: i64) -> Indicator {
    let mut ind = bare_indicator(id);
    ind.semantic = Some(SemanticMatch {
        target: None,
        intent: "malicious".to_string(),
        intent_class: None,
        threshold: Some(threshold_micros),
        examples: None,
    });
    ind
}

#[test]
fn pattern_matches_any_resolved_value() {
    let pattern = contains_pattern("tools[*].description", "evil");
    let msg = tools_message(&["benign tool", "an evil tool"]);
    assert_eq!(evaluate_pattern(&pattern, &msg), Ok(true));

    let msg = tools_message(&["benign", "also benign"]);
    assert_eq!(evaluate_pattern(&pattern, &msg), Ok(false));
}

#[test]
fn pattern_with_empty_resolution_is_not_matched() {
    let pattern = contains_pattern("missing[*].description", "evil");
    let msg = tools_message(&["evil"]);
    assert_eq!(evaluate_pattern(&pattern, &msg), Ok(false));
}

#[test]
fn pattern_indicator_produces_matched_verdict() {
    let mut ind = bare_indicator("IND-001-01");
    ind.pattern = Some(contains_pattern("tools[*].description", "evil"));
    let verdict = evaluate_indicator(
        &ind,
        &tools_message(&["an evil tool"]),
        Option::<&NoCel>::None,
        Option::<&FixedScoreEvaluator>::None,
    );
    assert_eq!(verdict.indicator_id, "IND-001-01");
    assert_eq!(verdict.result, IndicatorResult::Matched);
}

#[test]
fn expression_without_evaluator_is_skipped() {
    let mut ind = bare_indicator("IND-001-02");
    ind.expression = Some(ExpressionMatch { cel: "true".to_string(), variables: None });
    let verdict = evaluate_indicator(
        &ind,
        &tools_message(&[]),
        Option::<&NoCel>::None,
        Option::<&FixedScoreEvaluator>::None,
    );
    assert_eq!(verdict.result, IndicatorResult::Skipped);
    assert_eq!(verdict.evidence, Some("CEL evaluator not available".to_string()));
}

#[test]
fn expression_boolean_results_map_to_verdicts() {
    let mut ind = bare_indicator("IND-001-03");
    ind.expression = Some(ExpressionMatch { cel: "x".to_string(), variables: None });

    let verdict = evaluate_indicator(
        &ind,
        &tools_message(&[]),
        Some(&FixedCel(Value::Bool(true))),
        Option::<&FixedScoreEvaluator>::None,
    );
    assert_eq!(verdict.result, IndicatorResult::Matched);

    let verdict = evaluate_indicator(
        &ind,
        &tools_message(&[]),
        Some(&FixedCel(Value::Bool(false))),
        Option::<&FixedScoreEvaluator>::None,
    );
    assert_eq!(verdict.result, IndicatorResult::NotMatched);
}

#[test]
fn expression_non_boolean_result_is_a_type_error() {
    let mut ind = bare_indicator("IND-001-04");
    ind.expression = Some(ExpressionMatch { cel: "x".to_string(), variables: None });
    let verdict = evaluate_indicator(
        &ind,
        &tools_message(&[]),
        Some(&FixedCel(Value::from_int(3))),
        Option::<&FixedScoreEvaluator>::None,
    );
    assert_eq!(verdict.result, IndicatorResult::Error);
    assert_eq!(
        verdict.evidence,
        Some("CEL expression returned non-boolean result: 3".to_string())
    );
}

#[test]
fn semantic_without_evaluator_is_skipped() {
    let ind = make_semantic_indicator("sem-0", 800000);
    let verdict = evaluate_indicator(
        &ind,
        &s("text"),
        Option::<&NoCel>::None,
        Option::<&FixedScoreEvaluator>::None,
    );
    assert_eq!(verdict.result, IndicatorResult::Skipped);
    assert_eq!(verdict.evidence, Some("Semantic evaluator not available".to_string()));
}

#[test]
fn semantic_score_exactly_at_threshold_matches() {
    let indicator = make_semantic_indicator("sem-1", 800000);
    // Score == threshold: must match (>= semantics).
    let evaluator = FixedScoreEvaluator(800000);
    let message = s("some suspicious text");

    let verdict = evaluate_indicator(&indicator, &message, Option::<&NoCel>::None, Some(&evaluator));
    assert_eq!(verdict.result, IndicatorResult::Matched, "score == threshold must match");
    assert_eq!(verdict.evidence, Some("0.80".to_string()));
}

#[test]
fn semantic_score_just_below_threshold_does_not_match() {
    let indicator = make_semantic_indicator("sem-2", 800000);
    let evaluator = FixedScoreEvaluator(790000);
    let message = s("some text");

    let verdict = evaluate_indicator(&indicator, &message, Option::<&NoCel>::None, Some(&evaluator));
    assert_eq!(verdict.result, IndicatorResult::NotMatched, "score < threshold must not match");
    assert_eq!(verdict.evidence, Some("0.79".to_string()));
}

#[test]
fn semantic_evaluator_error_aborts_with_error_verdict() {
    let indicator = make_semantic_indicator("sem-3", 700000);
    let verdict = evaluate_indicator(
        &indicator,
        &s("text"),
        Option::<&NoCel>::None,
        Some(&FailingSemantic),
    );
    assert_eq!(verdict.result, IndicatorResult::Error);
    assert_eq!(verdict.evidence, Some("model unavailable".to_string()));
}

#[test]
fn no_detection_key_is_a_defensive_error() {
    let ind = bare_indicator("IND-001-05");
    let verdict = evaluate_indicator(
        &ind,
        &s("text"),
        Option::<&NoCel>::None,
        Option::<&FixedScoreEvaluator>::None,
    );
    assert_eq!(verdict.result, IndicatorResult::Error);
    assert_eq!(
        verdict.evidence,
        Some("No detection key (pattern/expression/semantic) present".to_string())
    );
}

#[test]
fn expression_context_binds_message_and_variables() {
    // An evaluator that checks its context rather than its expression.
    struct ContextProbe;
    impl CelEvaluator for ContextProbe {
        fn evaluate(&self, _e: &str, context: &Value) -> Result<Value, EvaluationError> {
            match context {
                Value::Object(entries) => {
                    let message_bound = entries.iter().any(|(k, _)| k == "message");
                    let tool_bound = entries.iter().any(|(k, v)| {
                        k == "tool"
                            && matches!(v, Value::String(s) if s == "calc")
                    });
                    let missing_null = entries
                        .iter()
                        .any(|(k, v)| k == "gone" && matches!(v, Value::Null));
                    Ok(Value::Bool(message_bound && tool_bound && missing_null))
                }
                _ => Ok(Value::Bool(false)),
            }
        }
    }

    let expr = ExpressionMatch {
        cel: "unused".to_string(),
        variables: Some(vec![
            ("tool".to_string(), "params.name".to_string()),
            ("gone".to_string(), "params.missing".to_string()),
        ]),
    };
    let message = Value::Object(vec![(
        "params".to_string(),
        Value::Object(vec![("name".to_string(), s("calc"))]),
    )]);
    let out = oatf::indicator::evaluate_expression(&expr, &message, &ContextProbe);
    assert_eq!(out, Ok(true));
}

#[test]
fn semantic_empty_resolution_is_not_matched_without_calling_the_evaluator() {
    let mut ind = bare_indicator("sem-4");
    ind.semantic = Some(SemanticMatch {
        target: Some("missing[*].text".to_string()),
        intent: "anything".to_string(),
        intent_class: None,
        threshold: None,
        examples: None,
    });
    let verdict = evaluate_indicator(
        &ind,
        &Value::Object(vec![]),
        Option::<&NoCel>::None,
        Some(&FailingSemantic),
    );
    assert_eq!(verdict.result, IndicatorResult::NotMatched);
    assert_eq!(verdict.evidence, None);
}

#[test]
fn semantic_default_threshold_is_seven_tenths() {
    let mut ind = bare_indicator("sem-5");
    ind.semantic = Some(SemanticMatch {
        target: None,
        intent: "anything".to_string(),
        intent_class: None,
        threshold: None,
        examples: None,
    });
    let verdict = evaluate_indicator(
        &ind,
        &s("text"),
        Option::<&NoCel>::None,
        Some(&FixedScoreEvaluator(700000)),
    );
    assert_eq!(verdict.result, IndicatorResult::Matched);
    let verdict = evaluate_indicator(
        &ind,
        &s("text"),
        Option::<&NoCel>::None,
        Some(&FixedScoreEvaluator(699999)),
    );
    assert_eq!(verdict.result, IndicatorResult::NotMatched);
}

#[test]
fn semantic_tracks_the_maximum_score_over_all_targets() {
    let mut ind = bare_indicator("sem-6");
    ind.semantic = Some(SemanticMatch {
        target: Some("msgs[*]".to_string()),
        intent: "anything".to_string(),
        intent_class: None,
        threshold: Some(500000),
        examples: None,
    });
    // Scores rise with the rendered text length.
    struct LengthScore;
    impl SemanticEvaluator for LengthScore {
        fn evaluate(
            &self,
            text: &str,
            _intent: &str,
            _intent_class: Option<&SemanticIntentClass>,
            _threshold: Option<i64>,
            _examples: Option<&SemanticExamples>,
        ) -> Result<i64, EvaluationError> {
            Ok(text.len() as i64 * 100000)
        }
    }
    let message = Value::Object(vec![(
        "msgs".to_string(),
        Value::Array(vec![s("ab"), s("abcdefg"), s("abc")]),
    )]);
    let verdict = evaluate_indicator(
        &ind,
        &message,
        Option::<&NoCel>::None,
        Some(&LengthScore),
    );
    assert_eq!(verdict.result, IndicatorResult::Matched);
    assert_eq!(verdict.evidence, Some("0.70".to_string()));
}
