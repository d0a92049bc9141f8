//! Attack-level verdict correlation: combining per-indicator verdicts into
//! one attack verdict under `Any`/`All` logic, with summary counts.

use vstd::prelude::*;

use crate::document::Attack;
use crate::enums::AttackResult;
use crate::enums::CorrelationLogic;
use crate::enums::IndicatorResult;
use crate::indicator::indicator_id_of;
use crate::indicator::Indicator;
use crate::indicator::IndicatorVerdict;

verus! {

/// Summary counts of indicator evaluation results.
#[derive(Clone, Copy, Debug, PartialEq, Eq, Structural)]
pub struct EvaluationSummary {
    /// Number of indicators that matched.
    pub matched: i64,
    /// Number of indicators that did not match.
    pub not_matched: i64,
    /// Number of indicators that errored.
    pub error: i64,
    /// Number of indicators that were skipped.
    pub skipped: i64,
}

/// Attack-level verdict computed from indicator verdicts.
pub struct AttackVerdict {
    /// Identifier of the evaluated attack.
    pub attack_id: Option<String>,
    /// Overall attack result.
    pub result: AttackResult,
    /// One collected verdict per declared indicator, in order.
    pub indicator_verdicts: Vec<IndicatorVerdict>,
    /// Summary counts of the collected verdicts.
    pub evaluation_summary: EvaluationSummary,
    /// Timestamp of the verdict, when the caller records one.
    pub timestamp: Option<String>,
    /// Source that produced this verdict.
    pub source: Option<String>,
}

/// The view of an optional string.
pub open spec fn opt_str_view(o: Option<String>) -> Option<Seq<char>> {
    match o {
        Some(s) => Some(s@),
        None => None,
    }
}

/// Whether two verdicts agree field by field, at the view level.
pub open spec fn verdict_view_eq(a: IndicatorVerdict, b: IndicatorVerdict) -> bool {
    &&& a.indicator_id@ == b.indicator_id@
    &&& a.result == b.result
    &&& opt_str_view(a.timestamp) == opt_str_view(b.timestamp)
    &&& opt_str_view(a.evidence) == opt_str_view(b.evidence)
    &&& opt_str_view(a.source) == opt_str_view(b.source)
}

/// First verdict carrying the given indicator identifier, if any.
pub open spec fn lookup_verdict(vs: Seq<IndicatorVerdict>, id: Seq<char>) -> Option<
    IndicatorVerdict,
>
    decreases vs.len(),
{
    if vs.len() == 0 {
        None
    } else if vs[0].indicator_id@ == id {
        Some(vs[0])
    } else {
        lookup_verdict(vs.drop_first(), id)
    }
}

/// `lookup_verdict` restated on a suffix: stepping one entry forward.
proof fn lemma_lookup_step(vs: Seq<IndicatorVerdict>, id: Seq<char>, i: int)
    requires
        0 <= i < vs.len(),
        vs[i].indicator_id@ != id,
    ensures
        lookup_verdict(vs.skip(i), id) == lookup_verdict(vs.skip(i + 1), id),
{
    assert(vs.skip(i)[0] == vs[i]);
    assert(vs.skip(i).drop_first() =~= vs.skip(i + 1));
}

/// Whether `c` is the collected verdict for a declared indicator: the
/// supplied verdict with that indicator's id when there is one, else a
/// synthetic skipped verdict saying no result was provided.
pub open spec fn collected_ok(
    c: IndicatorVerdict,
    ind: Indicator,
    supplied: Seq<IndicatorVerdict>,
) -> bool {
    match lookup_verdict(supplied, indicator_id_of(ind)) {
        Some(v) => verdict_view_eq(c, v),
        None => {
            &&& c.indicator_id@ == indicator_id_of(ind)
            &&& c.result == IndicatorResult::Skipped
            &&& opt_str_view(c.evidence) == Some("No evaluation result provided"@)
            &&& c.timestamp is None
            &&& c.source is None
        },
    }
}

/// How many verdicts in the list carry the given result.
pub open spec fn tally(vs: Seq<IndicatorVerdict>, k: IndicatorResult) -> int
    decreases vs.len(),
{
    if vs.len() == 0 {
        0
    } else {
        tally(vs.drop_last(), k) + if vs.last().result == k {
            1int
        } else {
            0int
        }
    }
}

/// The attack result the counts dictate under the given correlation logic.
/// Under `Any`, any error makes the attack error, else any match makes it
/// exploited, else it is not exploited. Under `All`, any error makes it
/// error; all-matched (nothing unmatched or skipped, at least one match)
/// makes it exploited; a partial match is partial; no match at all is not
/// exploited.
pub open spec fn correlate(
    logic: CorrelationLogic,
    matched: int,
    not_matched: int,
    error: int,
    skipped: int,
) -> AttackResult {
    match logic {
        CorrelationLogic::Any => {
            if error > 0 {
                AttackResult::Error
            } else if matched > 0 {
                AttackResult::Exploited
            } else {
                AttackResult::NotExploited
            }
        },
        CorrelationLogic::All => {
            if error > 0 {
                AttackResult::Error
            } else if matched > 0 && not_matched == 0 && skipped == 0 {
                AttackResult::Exploited
            } else if matched > 0 {
                AttackResult::Partial
            } else {
                AttackResult::NotExploited
            }
        },
    }
}

/// The correlation logic an attack declares, defaulting to `Any`.
pub open spec fn attack_logic(a: Attack) -> CorrelationLogic {
    match a.correlation {
        Some(c) => match c.logic {
            Some(l) => l,
            None => CorrelationLogic::Any,
        },
        None => CorrelationLogic::Any,
    }
}

/// With no declared indicators, both correlation logics yield
/// `NotExploited`, never `Error` or `Exploited`.
pub proof fn lemma_zero_indicators_not_exploited(logic: CorrelationLogic)
    ensures
        correlate(logic, 0, 0, 0, 0) == AttackResult::NotExploited,
{
}

/// Any indicator error makes the attack result `Error` under both logics,
/// whatever else matched.
pub proof fn lemma_error_dominates(
    logic: CorrelationLogic,
    matched: int,
    not_matched: int,
    error: int,
    skipped: int,
)
    requires
        error > 0,
    ensures
        correlate(logic, matched, not_matched, error, skipped) == AttackResult::Error,
{
}

/// A field-identical copy of a verdict.
fn duplicate_verdict(v: &IndicatorVerdict) -> (r: IndicatorVerdict)
    ensures
        verdict_view_eq(r, *v),
{
    IndicatorVerdict {
        indicator_id: v.indicator_id.clone(),
        result: v.result,
        timestamp: match &v.timestamp {
            Some(s) => Some(s.clone()),
            None => None,
        },
        evidence: match &v.evidence {
            Some(s) => Some(s.clone()),
            None => None,
        },
        source: match &v.source {
            Some(s) => Some(s.clone()),
            None => None,
        },
    }
}

/// First supplied verdict with the given identifier (executable form).
#[verifier::loop_isolation(false)]
fn find_verdict<'a>(supplied: &'a Vec<IndicatorVerdict>, id: &String) -> (r: Option<
    &'a IndicatorVerdict,
>)
    ensures
        match r {
            Some(v) => lookup_verdict(supplied@, id@) == Some(*v),
            None => lookup_verdict(supplied@, id@) is None,
        },
{
    let n: usize = supplied.len();
    let mut i: usize = 0;
    proof {
        assert(supplied@.skip(0) =~= supplied@);
    }
    while i < n
        invariant
            0 <= i <= n,
            lookup_verdict(supplied@, id@) == lookup_verdict(supplied@.skip(i as int), id@),
        decreases n - i,
    {
        proof {
            assert(supplied@.skip(i as int)[0] == supplied@[i as int]);
        }
        if supplied[i].indicator_id.eq(id) {
            return Some(&supplied[i]);
        }
        proof {
            lemma_lookup_step(supplied@, id@, i as int);
        }
        i = i + 1;
    }
    proof {
        assert(supplied@.skip(n as int) =~= Seq::<IndicatorVerdict>::empty());
    }
    None
}

/// Computes the attack-level verdict from per-indicator verdicts.
///
/// Each declared indicator's verdict is looked up by id; a missing one
/// counts as skipped with synthetic evidence. The counts are tallied and
/// correlated under the attack's declared logic (default `Any`). A missing
/// indicator list is an error verdict with a zeroed summary. Zero declared
/// indicators yield `NotExploited` under either logic, and any indicator
/// error makes the attack result `Error`.
#[verifier::loop_isolation(false)]
#[verifier::rlimit(60)]
pub fn compute_verdict(attack: &Attack, indicator_verdicts: &Vec<IndicatorVerdict>) -> (r:
    AttackVerdict)
    requires
        match attack.indicators {
            Some(inds) => inds@.len() <= i64::MAX,
            None => true,
        },
    ensures
        opt_str_view(r.attack_id) == opt_str_view(attack.id),
        r.timestamp is None,
        r.source is None,
        match attack.indicators {
            Some(inds) => {
                &&& r.indicator_verdicts@.len() == inds@.len()
                &&& forall|i: int|
                    0 <= i < inds@.len() ==> collected_ok(
                        #[trigger] r.indicator_verdicts@[i],
                        inds@[i],
                        indicator_verdicts@,
                    )
                &&& r.evaluation_summary.matched == tally(
                    r.indicator_verdicts@,
                    IndicatorResult::Matched,
                )
                &&& r.evaluation_summary.not_matched == tally(
                    r.indicator_verdicts@,
                    IndicatorResult::NotMatched,
                )
                &&& r.evaluation_summary.error == tally(
                    r.indicator_verdicts@,
                    IndicatorResult::Error,
                )
                &&& r.evaluation_summary.skipped == tally(
                    r.indicator_verdicts@,
                    IndicatorResult::Skipped,
                )
                &&& r.result == correlate(
                    attack_logic(*attack),
                    r.evaluation_summary.matched as int,
                    r.evaluation_summary.not_matched as int,
                    r.evaluation_summary.error as int,
                    r.evaluation_summary.skipped as int,
                )
            },
            None => {
                &&& r.result == AttackResult::Error
                &&& r.indicator_verdicts@.len() == 0
                &&& r.evaluation_summary == (EvaluationSummary {
                    matched: 0,
                    not_matched: 0,
                    error: 0,
                    skipped: 0,
                })
            },
        },
{
    let attack_id: Option<String> = match &attack.id {
        Some(s) => Some(s.clone()),
        None => None,
    };
    let indicators = match &attack.indicators {
        Some(inds) => inds,
        None => {
            return AttackVerdict {
                attack_id,
                result: AttackResult::Error,
                indicator_verdicts: Vec::new(),
                evaluation_summary: EvaluationSummary {
                    matched: 0,
                    not_matched: 0,
                    error: 0,
                    skipped: 0,
                },
                timestamp: None,
                source: None,
            };
        },
    };
    let logic = match &attack.correlation {
        Some(c) => match c.logic {
            Some(l) => l,
            None => CorrelationLogic::Any,
        },
        None => CorrelationLogic::Any,
    };
    let n: usize = indicators.len();
    let mut collected: Vec<IndicatorVerdict> = Vec::new();
    let mut matched: i64 = 0;
    let mut not_matched: i64 = 0;
    let mut error: i64 = 0;
    let mut skipped: i64 = 0;
    let mut i: usize = 0;
    while i < n
        invariant
            0 <= i <= n,
            n == indicators@.len(),
            n <= i64::MAX,
            collected@.len() == i,
            forall|j: int|
                0 <= j < i ==> collected_ok(
                    #[trigger] collected@[j],
                    indicators@[j],
                    indicator_verdicts@,
                ),
            matched == tally(collected@, IndicatorResult::Matched),
            not_matched == tally(collected@, IndicatorResult::NotMatched),
            error == tally(collected@, IndicatorResult::Error),
            skipped == tally(collected@, IndicatorResult::Skipped),
            0 <= matched <= i,
            0 <= not_matched <= i,
            0 <= error <= i,
            0 <= skipped <= i,
        decreases n - i,
    {
        let ind_id: String = match &indicators[i].id {
            Some(s) => s.clone(),
            None => String::new(),
        };
        let entry: IndicatorVerdict = match find_verdict(indicator_verdicts, &ind_id) {
            Some(v) => duplicate_verdict(v),
            None => IndicatorVerdict {
                indicator_id: ind_id,
                result: IndicatorResult::Skipped,
                timestamp: None,
                evidence: Some(String::from_str("No evaluation result provided")),
                source: None,
            },
        };
        match entry.result {
            IndicatorResult::Matched => {
                matched = matched + 1;
            },
            IndicatorResult::NotMatched => {
                not_matched = not_matched + 1;
            },
            IndicatorResult::Error => {
                error = error + 1;
            },
            IndicatorResult::Skipped => {
                skipped = skipped + 1;
            },
        }
        let ghost c0 = collected@;
        collected.push(entry);
        proof {
            assert(collected@.drop_last() =~= c0);
        }
        i = i + 1;
    }
    let result = match logic {
        CorrelationLogic::Any => {
            if error > 0 {
                AttackResult::Error
            } else if matched > 0 {
                AttackResult::Exploited
            } else {
                AttackResult::NotExploited
            }
        },
        CorrelationLogic::All => {
            if error > 0 {
                AttackResult::Error
            } else if matched > 0 && not_matched == 0 && skipped == 0 {
                AttackResult::Exploited
            } else if matched > 0 {
                AttackResult::Partial
            } else {
                AttackResult::NotExploited
            }
        },
    };
    AttackVerdict {
        attack_id,
        result,
        indicator_verdicts: collected,
        evaluation_summary: EvaluationSummary { matched, not_matched, error, skipped },
        timestamp: None,
        source: None,
    }
}

} // verus!
