use oatf::document::Attack;
use oatf::document::Correlation;
use oatf::document::Execution;
use oatf::enums::AttackResult;
use oatf::enums::CorrelationLogic;
use oatf::enums::IndicatorResult;
use oatf::indicator::Indicator;
use oatf::indicator::IndicatorVerdict;
use oatf::verdict::compute_verdict;

fn make_attack(indicator_ids: &[&str], logic: CorrelationLogic) -> Attack {
    let indicators: Vec<Indicator> = indicator_ids
        .iter()
        .map(|id| Indicator {
            id: Some(id.to_string()),
            protocol: None,
            surface: "tool_description".to_string(),
            description: None,
            pattern: None,
            expression: None,
            semantic: None,
            confidence: None,
            severity: None,
            false_positives: None,
            extensions: vec![],
        })
        .collect();

    Attack {
        id: Some("ATK-001".to_string()),
        name: None,
        version: None,
        status: None,
        created: None,
        modified: None,
        author: None,
        description: None,
        grace_period: None,
        severity: None,
        impact: None,
        classification: None,
        references: None,
        execution: Execution {
            mode: Some("mcp_server".to_string()),
            state: None,
            phases: None,
            actors: None,
            extensions: vec![],
        },
        indicators: Some(indicators),
        correlation: Some(Correlation { logic: Some(logic) }),
        extensions: vec![],
    }
}

fn make_verdict(id: &str, result: IndicatorResult) -> IndicatorVerdict {
    IndicatorVerdict {
        indicator_id: id.to_string(),
        result,
        timestamp: None,
        evidence: None,
        source: None,
    }
}

#[test]
fn verdict_any_counts_matched_correctly() {
    let attack = make_attack(&["i1", "i2", "i3"], CorrelationLogic::Any);
    let verdicts = vec![
        make_verdict("i1", IndicatorResult::Matched),
        make_verdict("i2", IndicatorResult::NotMatched),
        make_verdict("i3", IndicatorResult::NotMatched),
    ];

    let result = compute_verdict(&attack, &verdicts);
    assert_eq!(result.result, AttackResult::Exploited);
    assert_eq!(result.evaluation_summary.matched, 1);
    assert_eq!(result.evaluation_summary.not_matched, 2);
    assert_eq!(result.evaluation_summary.error, 0);
    assert_eq!(result.evaluation_summary.skipped, 0);
}

#[test]
fn verdict_all_partial_when_mixed() {
    let attack = make_attack(&["i1", "i2"], CorrelationLogic::All);
    let verdicts = vec![
        make_verdict("i1", IndicatorResult::Matched),
        make_verdict("i2", IndicatorResult::NotMatched),
    ];

    let result = compute_verdict(&attack, &verdicts);
    assert_eq!(result.result, AttackResult::Partial);
    assert_eq!(result.evaluation_summary.matched, 1);
    assert_eq!(result.evaluation_summary.not_matched, 1);
}

#[test]
fn verdict_all_exploited_when_all_matched() {
    let attack = make_attack(&["i1", "i2"], CorrelationLogic::All);
    let verdicts = vec![
        make_verdict("i1", IndicatorResult::Matched),
        make_verdict("i2", IndicatorResult::Matched),
    ];

    let result = compute_verdict(&attack, &verdicts);
    assert_eq!(result.result, AttackResult::Exploited);
    assert_eq!(result.evaluation_summary.matched, 2);
    assert_eq!(result.evaluation_summary.not_matched, 0);
}

#[test]
fn verdict_skipped_counted_correctly() {
    let attack = make_attack(&["i1", "i2"], CorrelationLogic::Any);
    // i2 has no verdict entry and is treated as skipped.
    let verdicts = vec![make_verdict("i1", IndicatorResult::Skipped)];

    let result = compute_verdict(&attack, &verdicts);
    assert_eq!(result.result, AttackResult::NotExploited);
    assert_eq!(result.evaluation_summary.skipped, 2);
    assert_eq!(result.evaluation_summary.matched, 0);
    assert_eq!(
        result.indicator_verdicts[1].evidence,
        Some("No evaluation result provided".to_string())
    );
}

#[test]
fn verdict_error_takes_priority() {
    let attack = make_attack(&["i1", "i2"], CorrelationLogic::Any);
    let verdicts = vec![
        make_verdict("i1", IndicatorResult::Matched),
        make_verdict("i2", IndicatorResult::Error),
    ];

    let result = compute_verdict(&attack, &verdicts);
    assert_eq!(result.result, AttackResult::Error);
    assert_eq!(result.evaluation_summary.error, 1);
    assert_eq!(result.evaluation_summary.matched, 1);
}

#[test]
fn verdict_all_error_takes_priority_too() {
    let attack = make_attack(&["i1", "i2"], CorrelationLogic::All);
    let verdicts = vec![
        make_verdict("i1", IndicatorResult::Matched),
        make_verdict("i2", IndicatorResult::Error),
    ];

    let result = compute_verdict(&attack, &verdicts);
    assert_eq!(result.result, AttackResult::Error);
}

#[test]
fn zero_indicators_any_returns_not_exploited() {
    let attack = make_attack(&[], CorrelationLogic::Any);
    let verdicts = vec![];

    let result = compute_verdict(&attack, &verdicts);
    assert_eq!(result.result, AttackResult::NotExploited);
}

#[test]
fn zero_indicators_all_returns_not_exploited() {
    let attack = make_attack(&[], CorrelationLogic::All);
    let verdicts = vec![];

    let result = compute_verdict(&attack, &verdicts);
    assert_eq!(result.result, AttackResult::NotExploited);
}

#[test]
fn missing_indicator_list_is_an_error_with_zeroed_summary() {
    let mut attack = make_attack(&[], CorrelationLogic::Any);
    attack.indicators = None;
    let verdicts = vec![];

    let result = compute_verdict(&attack, &verdicts);
    assert_eq!(result.result, AttackResult::Error);
    assert_eq!(result.indicator_verdicts.len(), 0);
    assert_eq!(result.evaluation_summary.matched, 0);
    assert_eq!(result.evaluation_summary.not_matched, 0);
    assert_eq!(result.evaluation_summary.error, 0);
    assert_eq!(result.evaluation_summary.skipped, 0);
}

#[test]
fn missing_correlation_defaults_to_any() {
    let mut attack = make_attack(&["i1"], CorrelationLogic::All);
    attack.correlation = None;
    let verdicts = vec![make_verdict("i1", IndicatorResult::Matched)];

    let result = compute_verdict(&attack, &verdicts);
    assert_eq!(result.result, AttackResult::Exploited);
    assert_eq!(result.attack_id, Some("ATK-001".to_string()));
}
