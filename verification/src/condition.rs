//! Condition evaluation: deep structural equality against a literal, or an
//! AND-combined set of match operators.

use vstd::prelude::*;

use crate::text::chars_contain;
use crate::text::chars_end_with;
use crate::text::chars_of;
use crate::text::chars_start_with;
use crate::text::contains_seq;
use crate::text::ends_with_seq;
use crate::text::starts_with_seq;
use crate::value::deep_eq;
use crate::value::values_deep_equal;
use crate::value::Value;
use crate::value::ValueView;

verus! {

/// A set of independent optional match operators; every present operator must
/// pass. The `exists` operator is meaningful only inside a predicate and is
/// ignored here.
pub struct MatchCondition {
    /// String containment check.
    pub contains: Option<String>,
    /// String prefix check.
    pub starts_with: Option<String>,
    /// String suffix check.
    pub ends_with: Option<String>,
    /// Regular expression match.
    pub regex: Option<String>,
    /// The value must deep-equal one of these.
    pub any_of: Option<Vec<Value>>,
    /// Strictly-greater numeric threshold, in micro-units.
    pub gt: Option<i64>,
    /// Strictly-less numeric threshold, in micro-units.
    pub lt: Option<i64>,
    /// Greater-or-equal numeric threshold, in micro-units.
    pub gte: Option<i64>,
    /// Less-or-equal numeric threshold, in micro-units.
    pub lte: Option<i64>,
    /// Field existence check, interpreted by predicate evaluation only.
    pub exists: Option<bool>,
}

/// A condition: either deep equality against a literal value, or a set of
/// match operators.
pub enum Condition {
    /// Deep structural equality against this value.
    Equality(Value),
    /// Operator-based condition.
    Operators(MatchCondition),
}

/// What `regex::Regex::new` followed by `regex::Regex::is_match` yields for a
/// pattern and a text: nothing when the pattern does not compile, else
/// whether the text matches. A function of the two strings alone.
pub uninterp spec fn regex_match_result(pattern: Seq<char>, text: Seq<char>) -> Option<bool>;

/// Relies on `regex::Regex::new` and `regex::Regex::is_match`: whether the
/// pattern compiles and whether the text matches depend on the pattern and
/// the text alone.
#[verifier::external_body]
fn regex_is_match(pattern: &str, text: &str) -> (r: Option<bool>)
    ensures
        r == regex_match_result(pattern@, text@),
{
    match regex::Regex::new(pattern) {
        Ok(re) => Some(re.is_match(text)),
        Err(_) => None,
    }
}

/// Whether every operator present in `c` passes against `v`: string
/// operators need a string subject, numeric operators a numeric one, an
/// invalid regex never passes, and an absent operator is no constraint.
pub open spec fn match_condition_holds(c: MatchCondition, v: ValueView) -> bool {
    &&& match c.contains {
        Some(s) => v matches ValueView::Str(t) && contains_seq(t, s@),
        None => true,
    }
    &&& match c.starts_with {
        Some(s) => v matches ValueView::Str(t) && starts_with_seq(t, s@),
        None => true,
    }
    &&& match c.ends_with {
        Some(s) => v matches ValueView::Str(t) && ends_with_seq(t, s@),
        None => true,
    }
    &&& match c.regex {
        Some(p) => v matches ValueView::Str(t) && regex_match_result(p@, t) == Some(true),
        None => true,
    }
    &&& match c.any_of {
        Some(items) => exists|i: int|
            0 <= i < items@.len() && deep_eq(v, (#[trigger] items@[i])@),
        None => true,
    }
    &&& match c.gt {
        Some(b) => v matches ValueView::Number(m) && m > b,
        None => true,
    }
    &&& match c.lt {
        Some(b) => v matches ValueView::Number(m) && m < b,
        None => true,
    }
    &&& match c.gte {
        Some(b) => v matches ValueView::Number(m) && m >= b,
        None => true,
    }
    &&& match c.lte {
        Some(b) => v matches ValueView::Number(m) && m <= b,
        None => true,
    }
}

/// What `evaluate_condition` returns: equality is deep structural equality,
/// operators combine with AND.
pub open spec fn condition_holds(c: Condition, v: ValueView) -> bool {
    match c {
        Condition::Equality(expected) => deep_eq(v, expected@),
        Condition::Operators(mc) => match_condition_holds(mc, v),
    }
}

/// Evaluates a set of match operators against a value with AND logic.
pub fn evaluate_match_condition(cond: &MatchCondition, value: &Value) -> (r: bool)
    ensures
        r == match_condition_holds(*cond, value@),
{
    match &cond.contains {
        Some(s) => {
            match value.as_str() {
                Some(t) => {
                    let hay = chars_of(t.as_str());
                    let needle = chars_of(s.as_str());
                    if !chars_contain(&hay, &needle) {
                        return false;
                    }
                },
                None => {
                    return false;
                },
            }
        },
        None => {},
    }
    match &cond.starts_with {
        Some(s) => {
            match value.as_str() {
                Some(t) => {
                    let hay = chars_of(t.as_str());
                    let needle = chars_of(s.as_str());
                    if !chars_start_with(&hay, &needle) {
                        return false;
                    }
                },
                None => {
                    return false;
                },
            }
        },
        None => {},
    }
    match &cond.ends_with {
        Some(s) => {
            match value.as_str() {
                Some(t) => {
                    let hay = chars_of(t.as_str());
                    let needle = chars_of(s.as_str());
                    if !chars_end_with(&hay, &needle) {
                        return false;
                    }
                },
                None => {
                    return false;
                },
            }
        },
        None => {},
    }
    match &cond.regex {
        Some(p) => {
            match value.as_str() {
                Some(t) => {
                    match regex_is_match(p.as_str(), t.as_str()) {
                        Some(true) => {},
                        _ => {
                            return false;
                        },
                    }
                },
                None => {
                    return false;
                },
            }
        },
        None => {},
    }
    match &cond.any_of {
        Some(items) => {
            let n: usize = items.len();
            let mut i: usize = 0;
            let mut found = false;
            while i < n
                invariant
                    n == items@.len(),
                    0 <= i <= n,
                    found ==> exists|j: int|
                        0 <= j < n && deep_eq(value@, (#[trigger] items@[j])@),
                    !found ==> forall|j: int|
                        0 <= j < i ==> !deep_eq(value@, (#[trigger] items@[j])@),
                decreases n - i,
            {
                if values_deep_equal(value, &items[i]) {
                    found = true;
                }
                i = i + 1;
            }
            if !found {
                return false;
            }
        },
        None => {},
    }
    match &cond.gt {
        Some(b) => {
            match value.as_number() {
                Some(m) => {
                    if !(m > *b) {
                        return false;
                    }
                },
                None => {
                    return false;
                },
            }
        },
        None => {},
    }
    match &cond.lt {
        Some(b) => {
            match value.as_number() {
                Some(m) => {
                    if !(m < *b) {
                        return false;
                    }
                },
                None => {
                    return false;
                },
            }
        },
        None => {},
    }
    match &cond.gte {
        Some(b) => {
            match value.as_number() {
                Some(m) => {
                    if !(m >= *b) {
                        return false;
                    }
                },
                None => {
                    return false;
                },
            }
        },
        None => {},
    }
    match &cond.lte {
        Some(b) => {
            match value.as_number() {
                Some(m) => {
                    if !(m <= *b) {
                        return false;
                    }
                },
                None => {
                    return false;
                },
            }
        },
        None => {},
    }
    true
}

/// Evaluates a condition against a value: deep equality for the literal
/// form, AND-combined operators otherwise.
pub fn evaluate_condition(condition: &Condition, value: &Value) -> (r: bool)
    ensures
        r == condition_holds(*condition, value@),
{
    match condition {
        Condition::Equality(expected) => values_deep_equal(value, expected),
        Condition::Operators(cond) => evaluate_match_condition(cond, value),
    }
}

/// For numeric subjects, `gt` and `lte` with the same threshold are strict
/// complements, as are `lt` and `gte`: exactly one of each pair passes.
pub proof fn lemma_numeric_complements(gt_cond: MatchCondition, lte_cond: MatchCondition, a: int)
    requires
        gt_cond.gt is Some,
        gt_cond.contains is None,
        gt_cond.starts_with is None,
        gt_cond.ends_with is None,
        gt_cond.regex is None,
        gt_cond.any_of is None,
        gt_cond.lt is None,
        gt_cond.gte is None,
        gt_cond.lte is None,
        lte_cond.lte == Some(gt_cond.gt->Some_0),
        lte_cond.contains is None,
        lte_cond.starts_with is None,
        lte_cond.ends_with is None,
        lte_cond.regex is None,
        lte_cond.any_of is None,
        lte_cond.gt is None,
        lte_cond.lt is None,
        lte_cond.gte is None,
    ensures
        match_condition_holds(gt_cond, ValueView::Number(a)) != match_condition_holds(
            lte_cond,
            ValueView::Number(a),
        ),
{
}

/// For numeric subjects, `lt` and `gte` with the same threshold are strict
/// complements.
pub proof fn lemma_numeric_complements_lt_gte(
    lt_cond: MatchCondition,
    gte_cond: MatchCondition,
    a: int,
)
    requires
        lt_cond.lt is Some,
        lt_cond.contains is None,
        lt_cond.starts_with is None,
        lt_cond.ends_with is None,
        lt_cond.regex is None,
        lt_cond.any_of is None,
        lt_cond.gt is None,
        lt_cond.gte is None,
        lt_cond.lte is None,
        gte_cond.gte == Some(lt_cond.lt->Some_0),
        gte_cond.contains is None,
        gte_cond.starts_with is None,
        gte_cond.ends_with is None,
        gte_cond.regex is None,
        gte_cond.any_of is None,
        gte_cond.gt is None,
        gte_cond.lt is None,
        gte_cond.lte is None,
    ensures
        match_condition_holds(lt_cond, ValueView::Number(a)) != match_condition_holds(
            gte_cond,
            ValueView::Number(a),
        ),
{
}

/// A one-element `any_of` behaves exactly as a bare equality condition
/// against that element.
pub proof fn lemma_any_of_singleton(c: MatchCondition, x: Value, v: ValueView)
    requires
        c.any_of matches Some(items) && items@.len() == 1 && items@[0] == x,
        c.contains is None,
        c.starts_with is None,
        c.ends_with is None,
        c.regex is None,
        c.gt is None,
        c.lt is None,
        c.gte is None,
        c.lte is None,
    ensures
        match_condition_holds(c, v) == condition_holds(Condition::Equality(x), v),
{
    let items = c.any_of->Some_0;
    if deep_eq(v, x@) {
        assert(0 <= 0 < items@.len() && deep_eq(v, items@[0]@));
    }
}

} // verus!
