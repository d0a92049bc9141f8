//! Predicate evaluation: a mapping from simple dot-paths to match entries,
//! combined with AND over all entries.

use vstd::prelude::*;

use crate::condition::evaluate_match_condition;
use crate::condition::match_condition_holds;
use crate::condition::MatchCondition;
use crate::path::resolve_simple_path;
use crate::path::resolve_simple_spec;
use crate::value::deep_eq;
use crate::value::values_deep_equal;
use crate::value::Value;
use crate::value::ValueView;

verus! {

/// One predicate entry: a literal value to deep-equal, or an operator set.
pub enum MatchEntry {
    /// Direct value equality comparison.
    Scalar(Value),
    /// Operator-based condition, possibly with an `exists` operator.
    Condition(MatchCondition),
}

/// A predicate: entries mapping a simple dot-path to what must hold there.
/// Entry order never affects the outcome.
pub type MatchPredicate = Vec<(String, MatchEntry)>;

/// Whether a match condition carries any operator other than `exists`.
pub open spec fn has_other_ops(c: MatchCondition) -> bool {
    ||| c.contains is Some
    ||| c.starts_with is Some
    ||| c.ends_with is Some
    ||| c.regex is Some
    ||| c.any_of is Some
    ||| c.gt is Some
    ||| c.lt is Some
    ||| c.gte is Some
    ||| c.lte is Some
}

/// Whether one predicate entry holds against the root value: the path is
/// resolved, then `exists: false` demands an unresolved path with no other
/// operators, and every other form demands a resolved path passing the
/// entry's check.
pub open spec fn entry_holds(path: Seq<char>, entry: MatchEntry, root: ValueView) -> bool {
    let resolved = resolve_simple_spec(path, root);
    match entry {
        MatchEntry::Scalar(expected) => resolved matches Some(val) && deep_eq(val, expected@),
        MatchEntry::Condition(c) => {
            if c.exists == Some(false) {
                resolved is None && !has_other_ops(c)
            } else {
                resolved matches Some(val) && match_condition_holds(c, val)
            }
        },
    }
}

/// Whether a whole predicate holds: every entry holds (AND), and the empty
/// predicate holds vacuously.
pub open spec fn predicate_holds(entries: Seq<(String, MatchEntry)>, root: ValueView) -> bool {
    forall|i: int|
        0 <= i < entries.len() ==> entry_holds(
            (#[trigger] entries[i]).0@,
            entries[i].1,
            root,
        )
}

/// Whether a match condition carries any operator other than `exists`
/// (executable form).
pub fn condition_has_other_ops(c: &MatchCondition) -> (r: bool)
    ensures
        r == has_other_ops(*c),
{
    c.contains.is_some() || c.starts_with.is_some() || c.ends_with.is_some() || c.regex.is_some()
        || c.any_of.is_some() || c.gt.is_some() || c.lt.is_some() || c.gte.is_some()
        || c.lte.is_some()
}

/// Evaluates a predicate against a value tree. All entries are combined with
/// AND; an empty predicate is true.
#[verifier::loop_isolation(false)]
pub fn evaluate_predicate(predicate: &MatchPredicate, value: &Value) -> (r: bool)
    ensures
        r == predicate_holds(predicate@, value@),
{
    let n: usize = predicate.len();
    let mut i: usize = 0;
    while i < n
        invariant
            0 <= i <= n,
            forall|j: int|
                0 <= j < i ==> entry_holds((#[trigger] predicate@[j]).0@, predicate@[j].1, value@),
        decreases n - i,
    {
        let resolved = resolve_simple_path(predicate[i].0.as_str(), value);
        match &predicate[i].1 {
            MatchEntry::Scalar(expected) => {
                match &resolved {
                    Some(val) => {
                        if !values_deep_equal(val, expected) {
                            return false;
                        }
                    },
                    None => {
                        return false;
                    },
                }
            },
            MatchEntry::Condition(c) => {
                let exists_false = match c.exists {
                    Some(b) => !b,
                    None => false,
                };
                if exists_false {
                    if resolved.is_some() {
                        return false;
                    }
                    if condition_has_other_ops(c) {
                        return false;
                    }
                } else {
                    match &resolved {
                        Some(val) => {
                            if !evaluate_match_condition(c, val) {
                                return false;
                            }
                        },
                        None => {
                            return false;
                        },
                    }
                }
            },
        }
        i = i + 1;
    }
    true
}

/// An `exists: false` entry alone holds exactly when its path does not
/// resolve.
pub proof fn lemma_exists_false_semantics(
    entries: Seq<(String, MatchEntry)>,
    root: ValueView,
)
    requires
        entries.len() == 1,
        entries[0].1 matches MatchEntry::Condition(c) && c.exists == Some(false) && !has_other_ops(
            c,
        ),
    ensures
        predicate_holds(entries, root) == (resolve_simple_spec(entries[0].0@, root) is None),
{
}

/// An `exists: true` entry alone holds exactly when its path resolves.
pub proof fn lemma_exists_true_semantics(entries: Seq<(String, MatchEntry)>, root: ValueView)
    requires
        entries.len() == 1,
        entries[0].1 matches MatchEntry::Condition(c) && c.exists == Some(true) && !has_other_ops(
            c,
        ),
    ensures
        predicate_holds(entries, root) == (resolve_simple_spec(entries[0].0@, root) is Some),
{
    let c = entries[0].1->Condition_0;
    match resolve_simple_spec(entries[0].0@, root) {
        Some(val) => {
            assert(match_condition_holds(c, val));
            assert(entry_holds(entries[0].0@, entries[0].1, root));
        },
        None => {},
    }
}

} // verus!
