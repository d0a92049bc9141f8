//! Indicator evaluation: dispatching a detection indicator to pattern,
//! expression or semantic matching, producing a verdict. Expression and
//! semantic matching delegate to caller-supplied evaluators behind narrow
//! traits.

use vstd::prelude::*;

use crate::condition::condition_holds;
use crate::condition::evaluate_condition;
use crate::condition::Condition;
use crate::enums::IndicatorResult;
use crate::enums::SemanticIntentClass;
use crate::error::EvaluationError;
use crate::error::EvaluationErrorKind;
use crate::path::resolve_simple_path;
use crate::path::resolve_simple_spec;
use crate::path::resolve_wildcard_path;
use crate::path::resolve_wildcard_spec;
use crate::render::dec_digits;
use crate::render::json_text;
use crate::render::pad_digits;
use crate::value::arr_elems_view;
use crate::value::obj_entries_view;
use crate::value::Value;
use crate::value::ValueView;

verus! {

/// A pattern match indicator. In normalized standard form it has `target`
/// and `condition`; the remaining fields carry the shorthand form that
/// normalization expands.
pub struct PatternMatch {
    /// Wildcard dot-path to match against.
    pub target: Option<String>,
    /// Condition to evaluate against each resolved target value.
    pub condition: Option<Condition>,
    /// Shorthand: string containment check.
    pub contains: Option<String>,
    /// Shorthand: string prefix check.
    pub starts_with: Option<String>,
    /// Shorthand: string suffix check.
    pub ends_with: Option<String>,
    /// Shorthand: regular expression match.
    pub regex: Option<String>,
    /// Shorthand: the value must deep-equal one of these.
    pub any_of: Option<Vec<Value>>,
    /// Shorthand: strictly-greater numeric threshold, in micro-units.
    pub gt: Option<i64>,
    /// Shorthand: strictly-less numeric threshold, in micro-units.
    pub lt: Option<i64>,
    /// Shorthand: greater-or-equal numeric threshold, in micro-units.
    pub gte: Option<i64>,
    /// Shorthand: less-or-equal numeric threshold, in micro-units.
    pub lte: Option<i64>,
}

impl PatternMatch {
    /// Whether any shorthand operator field is present.
    pub fn is_shorthand_fields_present(&self) -> (r: bool)
        ensures
            r == ({
                ||| self.contains is Some
                ||| self.starts_with is Some
                ||| self.ends_with is Some
                ||| self.regex is Some
                ||| self.any_of is Some
                ||| self.gt is Some
                ||| self.lt is Some
                ||| self.gte is Some
                ||| self.lte is Some
            }),
    {
        self.contains.is_some() || self.starts_with.is_some() || self.ends_with.is_some()
            || self.regex.is_some() || self.any_of.is_some() || self.gt.is_some()
            || self.lt.is_some() || self.gte.is_some() || self.lte.is_some()
    }

    /// Whether this pattern is in shorthand form: no explicit condition, and
    /// at least one direct operator field.
    pub fn is_shorthand(&self) -> (r: bool)
        ensures
            r == (self.condition is None && {
                ||| self.contains is Some
                ||| self.starts_with is Some
                ||| self.ends_with is Some
                ||| self.regex is Some
                ||| self.any_of is Some
                ||| self.gt is Some
                ||| self.lt is Some
                ||| self.gte is Some
                ||| self.lte is Some
            }),
    {
        self.condition.is_none() && self.is_shorthand_fields_present()
    }
}

/// An expression-based detection indicator.
pub struct ExpressionMatch {
    /// Expression source to hand to the caller-supplied evaluator.
    pub cel: String,
    /// Variable bindings: name to simple dot-path into the message.
    pub variables: Option<Vec<(String, String)>>,
}

/// Positive and negative examples for semantic matching guidance.
pub struct SemanticExamples {
    /// Examples that should match the intent.
    pub positive: Option<Vec<String>>,
    /// Examples that should not match the intent.
    pub negative: Option<Vec<String>>,
}

/// A semantic, intent-based detection indicator. The threshold is a score in
/// micro-units (one million stands for 1.0); absent, it defaults to 0.7.
pub struct SemanticMatch {
    /// Wildcard dot-path to extract text from.
    pub target: Option<String>,
    /// Natural-language intent description to match against.
    pub intent: String,
    /// Classification hint for the semantic evaluator.
    pub intent_class: Option<SemanticIntentClass>,
    /// Similarity threshold in micro-units, 0 to one million.
    pub threshold: Option<i64>,
    /// Few-shot guidance examples.
    pub examples: Option<SemanticExamples>,
}

/// A detection indicator. Exactly one of `pattern`, `expression` and
/// `semantic` should be present; when several are, the first in that order
/// wins, and when none is, evaluation reports an error verdict.
pub struct Indicator {
    /// Unique indicator identifier, used in verdict reporting.
    pub id: Option<String>,
    /// Protocol this indicator applies to.
    pub protocol: Option<String>,
    /// Attack surface name.
    pub surface: String,
    /// Human-readable description.
    pub description: Option<String>,
    /// Pattern-based detection.
    pub pattern: Option<PatternMatch>,
    /// Expression-based detection.
    pub expression: Option<ExpressionMatch>,
    /// Semantic detection.
    pub semantic: Option<SemanticMatch>,
    /// Confidence percentage, 0 to 100.
    pub confidence: Option<i64>,
    /// Indicator-level severity override.
    pub severity: Option<crate::enums::SeverityLevel>,
    /// Known false-positive descriptions.
    pub false_positives: Option<Vec<String>>,
    /// Extension fields.
    pub extensions: Vec<(String, Value)>,
}

/// Result of evaluating a single indicator against a protocol message.
pub struct IndicatorVerdict {
    /// Identifier of the evaluated indicator.
    pub indicator_id: String,
    /// Evaluation result.
    pub result: IndicatorResult,
    /// Timestamp of the evaluation, when the caller records one.
    pub timestamp: Option<String>,
    /// Supporting evidence: a score, a matched value or an error message.
    pub evidence: Option<String>,
    /// Source that produced this verdict.
    pub source: Option<String>,
}

/// Extension point for expression evaluation, supplied by the caller. The
/// context is an object binding `message` and any declared variables.
pub trait CelEvaluator {
    /// Evaluates an expression against a context of named variables.
    fn evaluate(&self, expression: &str, context: &Value) -> (r: Result<Value, EvaluationError>);
}

/// Extension point for semantic, intent-based matching, supplied by the
/// caller. Scores are in micro-units: one million stands for 1.0.
pub trait SemanticEvaluator {
    /// Scores the similarity between observed text and an intent.
    fn evaluate(
        &self,
        text: &str,
        intent: &str,
        intent_class: Option<&SemanticIntentClass>,
        threshold: Option<i64>,
        examples: Option<&SemanticExamples>,
    ) -> (r: Result<i64, EvaluationError>);
}

/// The target path of a pattern, empty when absent.
pub open spec fn pattern_target(p: PatternMatch) -> Seq<char> {
    match p.target {
        Some(t) => t@,
        None => Seq::empty(),
    }
}

/// What a pattern indicator yields on a message: with no condition nothing
/// matches; else the target is resolved with wildcard fan-out and the
/// pattern matches when any resolved value passes the condition.
pub open spec fn pattern_matches(p: PatternMatch, m: ValueView) -> bool {
    match p.condition {
        Some(c) => {
            let resolved = resolve_wildcard_spec(pattern_target(p), m);
            exists|i: int| 0 <= i < resolved.len() && condition_holds(c, #[trigger] resolved[i])
        },
        None => false,
    }
}

/// Evaluates a pattern indicator against a protocol message.
///
/// Returns `Ok(true)` exactly when the pattern has a condition and some
/// value resolved from its target passes it; no input makes this fail.
#[verifier::loop_isolation(false)]
pub fn evaluate_pattern(pattern: &PatternMatch, message: &Value) -> (r: Result<
    bool,
    EvaluationError,
>)
    ensures
        r matches Ok(b) && b == pattern_matches(*pattern, message@),
{
    let condition = match &pattern.condition {
        Some(c) => c,
        None => {
            return Ok(false);
        },
    };
    let resolved = match &pattern.target {
        Some(t) => resolve_wildcard_path(t.as_str(), message),
        None => {
            proof {
                reveal_strlit("");
                assert(""@ =~= Seq::<char>::empty());
            }
            resolve_wildcard_path("", message)
        },
    };
    let ghost rvs = resolve_wildcard_spec(pattern_target(*pattern), message@);
    proof {
        assert(arr_elems_view(resolved@) == rvs);
    }
    let n: usize = resolved.len();
    let mut i: usize = 0;
    while i < n
        invariant
            n == resolved@.len(),
            rvs == arr_elems_view(resolved@),
            rvs.len() == n,
            0 <= i <= n,
            forall|j: int| 0 <= j < i ==> !condition_holds(*condition, #[trigger] rvs[j]),
        decreases n - i,
    {
        proof {
            assert(rvs[i as int] == resolved@[i as int]@);
        }
        if evaluate_condition(condition, &resolved[i]) {
            return Ok(true);
        }
        i = i + 1;
    }
    Ok(false)
}

/// The context object handed to the expression evaluator: `message` bound to
/// the message, then each declared variable bound to what its simple path
/// resolves to, defaulting to null.
pub open spec fn expression_context(e: ExpressionMatch, m: ValueView) -> ValueView {
    let base: Seq<(Seq<char>, ValueView)> = seq![("message"@, m)];
    match e.variables {
        Some(vars) => ValueView::Obj(
            base + Seq::new(
                vars@.len(),
                |i: int|
                    if 0 <= i < vars@.len() {
                        (
                            vars@[i].0@,
                            match resolve_simple_spec(vars@[i].1@, m) {
                                Some(v) => v,
                                None => ValueView::Null,
                            },
                        )
                    } else {
                        (Seq::empty(), ValueView::Null)
                    },
            ),
        ),
        None => ValueView::Obj(base),
    }
}

/// Builds the context object for an expression indicator.
#[verifier::loop_isolation(false)]
pub fn build_expression_context(expression: &ExpressionMatch, message: &Value) -> (r: Value)
    ensures
        r@ == expression_context(*expression, message@),
{
    let mut entries: Vec<(String, Value)> = Vec::new();
    entries.push((String::from_str("message"), message.deep_copy()));
    match &expression.variables {
        Some(vars) => {
            let n: usize = vars.len();
            let mut i: usize = 0;
            while i < n
                invariant
                    n == vars@.len(),
                    0 <= i <= n,
                    entries@.len() == i + 1,
                    entries@[0].0@ == "message"@,
                    entries@[0].1@ == message@,
                    forall|j: int|
                        0 <= j < i ==> (#[trigger] entries@[j + 1]).0@ == vars@[j].0@
                            && entries@[j + 1].1@ == match resolve_simple_spec(
                            vars@[j].1@,
                            message@,
                        ) {
                            Some(v) => v,
                            None => ValueView::Null,
                        },
                decreases n - i,
            {
                let resolved = match resolve_simple_path(vars[i].1.as_str(), message) {
                    Some(v) => v,
                    None => Value::Null,
                };
                entries.push((vars[i].0.clone(), resolved));
                i = i + 1;
            }
            let ghost evs = entries@;
            let result = Value::Object(entries);
            proof {
                let specd = expression_context(*expression, message@);
                assert(result@ == ValueView::Obj(obj_entries_view(evs)));
                assert forall|j: int|
                    0 <= j < n + 1 implies obj_entries_view(evs)[j] == specd->Obj_0[j] by {
                    assert(obj_entries_view(evs)[j] == (evs[j].0@, evs[j].1@));
                    if j > 0 {
                        assert((evs[(j - 1) + 1].0@, evs[(j - 1) + 1].1@) == specd->Obj_0[j]);
                    }
                }
                assert(obj_entries_view(evs) =~= specd->Obj_0);
                assert(result@ == specd);
            }
            result
        },
        None => {
            let ghost evs = entries@;
            let result = Value::Object(entries);
            proof {
                let specd = expression_context(*expression, message@);
                assert(result@ == ValueView::Obj(obj_entries_view(evs)));
                assert(obj_entries_view(evs)[0] == (evs[0].0@, evs[0].1@));
                assert(obj_entries_view(evs) =~= specd->Obj_0);
                assert(result@ == specd);
            }
            result
        },
    }
}

/// Whether `out` is what an expression result maps to: a boolean result
/// passes through, any other value is a type error naming the rendered
/// result, and an evaluator error propagates.
pub open spec fn expression_verdict_rel(
    cr: Result<Value, EvaluationError>,
    out: Result<bool, EvaluationError>,
) -> bool {
    match cr {
        Ok(v) => match v@ {
            ValueView::Bool(b) => out == Result::<bool, EvaluationError>::Ok(b),
            _ => {
                &&& out matches Err(e)
                &&& e.kind == EvaluationErrorKind::TypeError
                &&& e.message@ == "CEL expression returned non-boolean result: "@ + json_text(v@)
                &&& e.indicator_id is None
            },
        },
        Err(e) => out == Result::<bool, EvaluationError>::Err(e),
    }
}

/// The boolean verdict for an expression evaluator outcome: a non-boolean
/// result is a type error, an evaluator error propagates.
pub fn expression_result_to_verdict(result: Result<Value, EvaluationError>) -> (r: Result<
    bool,
    EvaluationError,
>)
    ensures
        expression_verdict_rel(result, r),
{
    match result {
        Ok(v) => {
            match &v {
                Value::Bool(b) => Ok(*b),
                _ => {
                    let mut message = String::from_str(
                        "CEL expression returned non-boolean result: ",
                    );
                    let rendered = crate::render::to_json_string(&v);
                    message.append(rendered.as_str());
                    Err(
                        EvaluationError {
                            kind: EvaluationErrorKind::TypeError,
                            message,
                            indicator_id: None,
                        },
                    )
                },
            }
        },
        Err(e) => Err(e),
    }
}

/// Evaluates an expression indicator against a protocol message.
///
/// Builds the context binding `message` and the declared variables, hands it
/// to the caller-supplied evaluator, and maps the outcome: a boolean result
/// passes through, anything else is a type error. What the evaluator itself
/// returns is its own affair; `expression_verdict_rel` pins the mapping for
/// every possible outcome.
pub fn evaluate_expression<C: CelEvaluator>(
    expression: &ExpressionMatch,
    message: &Value,
    cel_evaluator: &C,
) -> (r: Result<bool, EvaluationError>)
    ensures
        exists|cr: Result<Value, EvaluationError>| expression_verdict_rel(cr, r),
{
    let context = build_expression_context(expression, message);
    let result = cel_evaluator.evaluate(expression.cel.as_str(), &context);
    let ghost cr = result;
    let out = expression_result_to_verdict(result);
    proof {
        assert(expression_verdict_rel(cr, out));
    }
    out
}

/// The two-decimal rendering of a non-negative score in micro-units,
/// rounding half away from zero: the units, a dot, and two digits.
pub open spec fn score_text(score: int) -> Seq<char> {
    let hundredths = (score + 5000) / 10000;
    dec_digits((hundredths / 100) as nat) + seq!['.'] + pad_digits((hundredths % 100) as nat, 2)
}

/// Appends the two-decimal rendering of a non-negative score.
fn push_score_text(score: i64, out: &mut Vec<char>)
    requires
        score >= 0,
    ensures
        final(out)@ == old(out)@ + score_text(score as int),
{
    let hundredths: i64 = ((score as i128 + 5000) / 10000) as i64;
    crate::render::push_dec_digits((hundredths / 100) as u64, out);
    out.push('.');
    crate::render::push_pad_digits((hundredths % 100) as u64, 2, out);
    proof {
        assert(out@ =~= old(out)@ + score_text(score as int));
    }
}

/// The default semantic threshold in micro-units: 0.7.
pub open spec fn semantic_threshold(s: SemanticMatch) -> int {
    match s.threshold {
        Some(t) => t as int,
        None => 700000,
    }
}

/// The largest score seen, starting from zero.
pub open spec fn max_score(scores: Seq<i64>) -> int
    decreases scores.len(),
{
    if scores.len() == 0 {
        0
    } else {
        let rest = max_score(scores.drop_last());
        if scores.last() > rest {
            scores.last() as int
        } else {
            rest
        }
    }
}

/// The verdict a list of semantic scores yields: matched exactly when the
/// highest score reaches the threshold, with the highest score as evidence.
pub fn semantic_verdict_from_scores(scores: &Vec<i64>, threshold: i64, indicator_id: &String) -> (r:
    IndicatorVerdict)
    ensures
        r.indicator_id@ == indicator_id@,
        r.result == if max_score(scores@) >= threshold {
            IndicatorResult::Matched
        } else {
            IndicatorResult::NotMatched
        },
        r.evidence matches Some(e) && e@ == score_text(max_score(scores@)),
        r.timestamp is None,
        r.source is None,
{
    let n: usize = scores.len();
    let mut highest: i64 = 0;
    let mut i: usize = 0;
    proof {
        assert(scores@.take(0) =~= Seq::<i64>::empty());
    }
    while i < n
        invariant
            n == scores@.len(),
            0 <= i <= n,
            highest == max_score(scores@.take(i as int)),
            highest >= 0,
        decreases n - i,
    {
        proof {
            assert(scores@.take(i as int + 1).drop_last() =~= scores@.take(i as int));
            assert(scores@.take(i as int + 1).last() == scores@[i as int]);
        }
        if scores[i] > highest {
            highest = scores[i];
        }
        i = i + 1;
    }
    proof {
        assert(scores@.take(n as int) =~= scores@);
    }
    let mut evidence_chars: Vec<char> = Vec::new();
    push_score_text(highest, &mut evidence_chars);
    let evidence = crate::text::chars_to_string(&evidence_chars);
    let result = if highest >= threshold {
        IndicatorResult::Matched
    } else {
        IndicatorResult::NotMatched
    };
    IndicatorVerdict {
        indicator_id: indicator_id.clone(),
        result,
        timestamp: None,
        evidence: Some(evidence),
        source: None,
    }
}

/// The target path of a semantic indicator, empty when absent.
pub open spec fn semantic_target(s: SemanticMatch) -> Seq<char> {
    match s.target {
        Some(t) => t@,
        None => Seq::empty(),
    }
}

/// Whether `r` is a verdict that some score list explains: matched exactly
/// when the highest score reaches the threshold, with that score as
/// evidence.
pub open spec fn semantic_scored_verdict(r: IndicatorVerdict, threshold: int, scores: Seq<i64>,
) -> bool {
    &&& r.result == if max_score(scores) >= threshold {
        IndicatorResult::Matched
    } else {
        IndicatorResult::NotMatched
    }
    &&& r.evidence matches Some(e) && e@ == score_text(max_score(scores))
}

/// Whether `r` is a well-formed outcome of semantic evaluation: nothing
/// resolved means not matched; otherwise either the evaluator failed and the
/// verdict is an error, or some score list explains the verdict.
pub open spec fn semantic_verdict_ok(r: IndicatorVerdict, s: SemanticMatch, m: ValueView) -> bool {
    if crate::path::resolve_wildcard_spec(semantic_target(s), m).len() == 0 {
        &&& r.result == IndicatorResult::NotMatched
        &&& r.evidence is None
    } else {
        ||| r.result == IndicatorResult::Error
        ||| exists|scores: Seq<i64>|
            #[trigger] semantic_scored_verdict(r, semantic_threshold(s), scores)
    }
}

/// Evaluates a semantic indicator against a protocol message.
///
/// The target is resolved with wildcard fan-out; each resolved value is
/// rendered to text and scored by the caller-supplied evaluator; the verdict
/// is matched exactly when the highest score reaches the threshold, and an
/// evaluator error aborts with an error verdict carrying its message.
#[verifier::loop_isolation(false)]
pub fn evaluate_semantic<S: SemanticEvaluator>(
    semantic: &SemanticMatch,
    message: &Value,
    evaluator: &S,
    indicator_id: &String,
) -> (r: IndicatorVerdict)
    ensures
        r.indicator_id@ == indicator_id@,
        semantic_verdict_ok(r, *semantic, message@),
        r.timestamp is None,
        r.source is None,
{
    let resolved = match &semantic.target {
        Some(t) => resolve_wildcard_path(t.as_str(), message),
        None => {
            proof {
                reveal_strlit("");
                assert(""@ =~= Seq::<char>::empty());
            }
            resolve_wildcard_path("", message)
        },
    };
    proof {
        assert(arr_elems_view(resolved@) == resolve_wildcard_spec(
            semantic_target(*semantic),
            message@,
        ));
    }
    if resolved.len() == 0 {
        return IndicatorVerdict {
            indicator_id: indicator_id.clone(),
            result: IndicatorResult::NotMatched,
            timestamp: None,
            evidence: None,
            source: None,
        };
    }
    let threshold: i64 = match semantic.threshold {
        Some(t) => t,
        None => 700000,
    };
    let mut scores: Vec<i64> = Vec::new();
    let n: usize = resolved.len();
    let mut i: usize = 0;
    while i < n
        invariant
            0 <= i <= n,
            n == resolved@.len(),
        decreases n - i,
    {
        let text = crate::render::value_to_string(&resolved[i]);
        let outcome = evaluator.evaluate(
            text.as_str(),
            semantic.intent.as_str(),
            semantic.intent_class.as_ref(),
            semantic.threshold,
            semantic.examples.as_ref(),
        );
        match outcome {
            Ok(score) => {
                scores.push(score);
            },
            Err(e) => {
                return IndicatorVerdict {
                    indicator_id: indicator_id.clone(),
                    result: IndicatorResult::Error,
                    timestamp: None,
                    evidence: Some(e.message),
                    source: None,
                };
            },
        }
        i = i + 1;
    }
    let verdict = semantic_verdict_from_scores(&scores, threshold, indicator_id);
    proof {
        assert(semantic_scored_verdict(verdict, semantic_threshold(*semantic), scores@));
    }
    verdict
}

/// The reported identifier of an indicator: its id, or empty when absent.
pub open spec fn indicator_id_of(i: Indicator) -> Seq<char> {
    match i.id {
        Some(s) => s@,
        None => Seq::empty(),
    }
}

/// Whether `r` is the verdict that an expression evaluator outcome `cr`
/// explains: a boolean result is matched or not matched, any other value or
/// an evaluator error is an error verdict carrying the message.
pub open spec fn expression_indicator_verdict(r: IndicatorVerdict, cr: Result<
    Value,
    EvaluationError,
>) -> bool {
    match cr {
        Ok(v) => match v@ {
            ValueView::Bool(true) => r.result == IndicatorResult::Matched && r.evidence is None,
            ValueView::Bool(false) => r.result == IndicatorResult::NotMatched && r.evidence
                is None,
            _ => {
                &&& r.result == IndicatorResult::Error
                &&& r.evidence matches Some(e) && e@ == "CEL expression returned non-boolean result: "@
                    + json_text(v@)
            },
        },
        Err(err) => {
            &&& r.result == IndicatorResult::Error
            &&& r.evidence matches Some(e) && e@ == err.message@
        },
    }
}

/// What `evaluate_indicator` promises of its verdict, for each detection
/// form: the first present key among pattern, expression and semantic wins;
/// a missing evaluator skips; no key at all is an error.
pub open spec fn indicator_verdict_ok(
    r: IndicatorVerdict,
    ind: Indicator,
    m: ValueView,
    has_cel: bool,
    has_semantic: bool,
) -> bool {
    &&& r.indicator_id@ == indicator_id_of(ind)
    &&& r.timestamp is None
    &&& r.source is None
    &&& match ind.pattern {
        Some(p) => {
            &&& r.result == if pattern_matches(p, m) {
                IndicatorResult::Matched
            } else {
                IndicatorResult::NotMatched
            }
            &&& r.evidence is None
        },
        None => match ind.expression {
            Some(_) => {
                if has_cel {
                    exists|cr: Result<Value, EvaluationError>|
                        #[trigger] expression_indicator_verdict(r, cr)
                } else {
                    &&& r.result == IndicatorResult::Skipped
                    &&& r.evidence matches Some(e) && e@ == "CEL evaluator not available"@
                }
            },
            None => match ind.semantic {
                Some(s) => {
                    if has_semantic {
                        semantic_verdict_ok(r, s, m)
                    } else {
                        &&& r.result == IndicatorResult::Skipped
                        &&& r.evidence matches Some(e) && e@ == "Semantic evaluator not available"@
                    }
                },
                None => {
                    &&& r.result == IndicatorResult::Error
                    &&& r.evidence matches Some(e) && e@
                        == "No detection key (pattern/expression/semantic) present"@
                },
            },
        },
    }
}

/// Evaluates a detection indicator against a protocol message, dispatching
/// to pattern, expression or semantic matching and wrapping the outcome in a
/// verdict. One indicator's failure is captured in its own verdict and never
/// escapes.
pub fn evaluate_indicator<C: CelEvaluator, S: SemanticEvaluator>(
    indicator: &Indicator,
    message: &Value,
    cel_evaluator: Option<&C>,
    semantic_evaluator: Option<&S>,
) -> (r: IndicatorVerdict)
    ensures
        indicator_verdict_ok(
            r,
            *indicator,
            message@,
            cel_evaluator is Some,
            semantic_evaluator is Some,
        ),
{
    let indicator_id: String = match &indicator.id {
        Some(s) => s.clone(),
        None => String::new(),
    };
    match &indicator.pattern {
        Some(pattern) => {
            match evaluate_pattern(pattern, message) {
                Ok(true) => IndicatorVerdict {
                    indicator_id,
                    result: IndicatorResult::Matched,
                    timestamp: None,
                    evidence: None,
                    source: None,
                },
                Ok(false) => IndicatorVerdict {
                    indicator_id,
                    result: IndicatorResult::NotMatched,
                    timestamp: None,
                    evidence: None,
                    source: None,
                },
                Err(e) => IndicatorVerdict {
                    indicator_id,
                    result: IndicatorResult::Error,
                    timestamp: None,
                    evidence: Some(e.message),
                    source: None,
                },
            }
        },
        None => match &indicator.expression {
            Some(expr) => {
                match cel_evaluator {
                    None => IndicatorVerdict {
                        indicator_id,
                        result: IndicatorResult::Skipped,
                        timestamp: None,
                        evidence: Some(String::from_str("CEL evaluator not available")),
                        source: None,
                    },
                    Some(cel_eval) => {
                        let ghost pre = *message;
                        let context = build_expression_context(expr, message);
                        let outcome = cel_eval.evaluate(expr.cel.as_str(), &context);
                        let ghost cr = outcome;
                        let verdict = match outcome {
                            Ok(v) => {
                                match &v {
                                    Value::Bool(true) => IndicatorVerdict {
                                        indicator_id,
                                        result: IndicatorResult::Matched,
                                        timestamp: None,
                                        evidence: None,
                                        source: None,
                                    },
                                    Value::Bool(false) => IndicatorVerdict {
                                        indicator_id,
                                        result: IndicatorResult::NotMatched,
                                        timestamp: None,
                                        evidence: None,
                                        source: None,
                                    },
                                    _ => {
                                        let mut message_text = String::from_str(
                                            "CEL expression returned non-boolean result: ",
                                        );
                                        let rendered = crate::render::to_json_string(&v);
                                        message_text.append(rendered.as_str());
                                        IndicatorVerdict {
                                            indicator_id,
                                            result: IndicatorResult::Error,
                                            timestamp: None,
                                            evidence: Some(message_text),
                                            source: None,
                                        }
                                    },
                                }
                            },
                            Err(e) => IndicatorVerdict {
                                indicator_id,
                                result: IndicatorResult::Error,
                                timestamp: None,
                                evidence: Some(e.message),
                                source: None,
                            },
                        };
                        proof {
                            assert(expression_indicator_verdict(verdict, cr));
                        }
                        verdict
                    },
                }
            },
            None => match &indicator.semantic {
                Some(semantic) => {
                    match semantic_evaluator {
                        None => IndicatorVerdict {
                            indicator_id,
                            result: IndicatorResult::Skipped,
                            timestamp: None,
                            evidence: Some(String::from_str("Semantic evaluator not available")),
                            source: None,
                        },
                        Some(sem_eval) => evaluate_semantic(semantic, message, sem_eval,
                            &indicator_id),
                    }
                },
                None => IndicatorVerdict {
                    indicator_id,
                    result: IndicatorResult::Error,
                    timestamp: None,
                    evidence: Some(
                        String::from_str("No detection key (pattern/expression/semantic) present"),
                    ),
                    source: None,
                },
            },
        },
    }
}

} // verus!
