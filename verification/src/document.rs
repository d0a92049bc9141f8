//! The normalized document structure: the attack envelope, its execution
//! plan of actors and phases, and the helpers that read it at evaluation
//! time.

use vstd::prelude::*;

use crate::enums::Category;
use crate::enums::CorrelationLogic;
use crate::enums::ElicitationMode;
use crate::enums::Impact;
use crate::enums::LogLevel;
use crate::enums::Relationship;
use crate::enums::SeverityLevel;
use crate::enums::Status;
use crate::extractor::Extractor;
use crate::indicator::Indicator;
use crate::predicate::evaluate_predicate;
use crate::predicate::predicate_holds;
use crate::predicate::MatchPredicate;
use crate::trigger::Trigger;
use crate::value::Value;
use crate::value::ValueView;

verus! {

/// Configuration for how indicator verdicts combine into an attack-level
/// result.
pub struct Correlation {
    /// Correlation logic; absent means `Any` at evaluation time.
    pub logic: Option<CorrelationLogic>,
}

/// Severity, either in shorthand scalar form or in full object form.
pub enum Severity {
    /// Shorthand scalar form.
    Scalar(SeverityLevel),
    /// Full object form with level and optional confidence.
    Object {
        /// Severity level classification.
        level: SeverityLevel,
        /// Confidence percentage, 0 to 100, if specified.
        confidence: Option<i64>,
    },
}

/// Taxonomy classification with optional framework mappings.
pub struct Classification {
    /// Taxonomy category.
    pub category: Option<Category>,
    /// Mappings to external security frameworks.
    pub mappings: Option<Vec<FrameworkMapping>>,
    /// Free-form tags.
    pub tags: Option<Vec<String>>,
}

/// An external reference.
pub struct Reference {
    /// Reference URL.
    pub url: String,
    /// Human-readable title.
    pub title: Option<String>,
    /// Human-readable description.
    pub description: Option<String>,
}

/// A mapping to an external security framework.
pub struct FrameworkMapping {
    /// Framework name.
    pub framework: String,
    /// Framework-specific identifier.
    pub id: String,
    /// Human-readable entry name.
    pub name: Option<String>,
    /// URL of the framework entry.
    pub url: Option<String>,
    /// Relationship type.
    pub relationship: Option<Relationship>,
}

/// An entry action executed when a phase begins.
pub enum Action {
    /// Send a protocol notification message.
    SendNotification {
        /// Notification method name.
        method: String,
        /// Optional notification parameters.
        params: Option<Value>,
        /// Extension fields.
        extensions: Vec<(String, Value)>,
        /// Number of non-extension keys in the original object.
        non_ext_key_count: usize,
    },
    /// Emit a log message.
    Log {
        /// Log message text.
        message: String,
        /// Log level; absent means informational.
        level: Option<LogLevel>,
        /// Extension fields.
        extensions: Vec<(String, Value)>,
        /// Number of non-extension keys in the original object.
        non_ext_key_count: usize,
    },
    /// Send a user elicitation request.
    SendElicitation {
        /// Elicitation message text.
        message: String,
        /// Elicitation mode.
        mode: Option<ElicitationMode>,
        /// Schema for form-mode elicitation.
        requested_schema: Option<Value>,
        /// URL for url-mode elicitation.
        url: Option<String>,
        /// Extension fields.
        extensions: Vec<(String, Value)>,
        /// Number of non-extension keys in the original object.
        non_ext_key_count: usize,
    },
    /// Binding-specific action with a single unknown key.
    BindingSpecific {
        /// The action key name.
        key: String,
        /// The action value.
        value: Value,
        /// Extension fields.
        extensions: Vec<(String, Value)>,
        /// Number of non-extension keys in the original object.
        non_ext_key_count: usize,
    },
}

/// A block prompting generation of adversarial content.
pub struct SynthesizeBlock {
    /// Prompt template for the generation provider.
    pub prompt: String,
}

/// Extension point for content generation, supplied by the caller; no
/// default implementation ships with this crate.
pub trait GenerationProvider {
    /// Generates content from a prompt for the given protocol.
    fn generate(&self, prompt: &str, protocol: &str, response_context: &Value) -> (r: Result<
        Value,
        crate::error::GenerationError,
    >);
}

/// A conditional response entry in a phase's state.
pub struct ResponseEntry {
    /// Predicate that selects this response, matched against the request.
    pub when: Option<MatchPredicate>,
    /// Generation block for dynamic content.
    pub synthesize: Option<SynthesizeBlock>,
    /// Protocol-specific static content fields.
    pub extra: Vec<(String, Value)>,
}

/// An execution phase within an actor's plan.
pub struct Phase {
    /// Phase name identifier.
    pub name: Option<String>,
    /// Human-readable phase description.
    pub description: Option<String>,
    /// Protocol mode override for this phase.
    pub mode: Option<String>,
    /// Phase execution state.
    pub state: Option<Value>,
    /// Data extractors applied during this phase.
    pub extractors: Option<Vec<Extractor>>,
    /// Actions executed when this phase begins.
    pub on_enter: Option<Vec<Action>>,
    /// Trigger condition that advances to the next phase.
    pub trigger: Option<Trigger>,
    /// Extension fields.
    pub extensions: Vec<(String, Value)>,
}

/// An actor in the multi-actor execution form.
pub struct Actor {
    /// Actor name identifier.
    pub name: String,
    /// Protocol mode.
    pub mode: String,
    /// Ordered execution phases for this actor.
    pub phases: Vec<Phase>,
    /// Extension fields.
    pub extensions: Vec<(String, Value)>,
}

/// Execution plan: exactly one of `state`, `phases` and `actors` is present
/// in a well-formed document; after normalization, only `actors`.
pub struct Execution {
    /// Protocol mode for the single-phase form.
    pub mode: Option<String>,
    /// Single-phase execution state.
    pub state: Option<Value>,
    /// Multi-phase execution form.
    pub phases: Option<Vec<Phase>>,
    /// Multi-actor execution form (canonical).
    pub actors: Option<Vec<Actor>>,
    /// Extension fields.
    pub extensions: Vec<(String, Value)>,
}

/// The attack envelope containing metadata, execution and indicators.
pub struct Attack {
    /// Unique attack identifier.
    pub id: Option<String>,
    /// Human-readable attack name.
    pub name: Option<String>,
    /// Document version number.
    pub version: Option<i64>,
    /// Document lifecycle status.
    pub status: Option<Status>,
    /// Creation date text.
    pub created: Option<String>,
    /// Last-modified date text.
    pub modified: Option<String>,
    /// Author name or identifier.
    pub author: Option<String>,
    /// Human-readable attack description.
    pub description: Option<String>,
    /// Grace period duration string for responsible disclosure.
    pub grace_period: Option<String>,
    /// Attack severity.
    pub severity: Option<Severity>,
    /// Categories of harm.
    pub impact: Option<Vec<Impact>>,
    /// Taxonomy classification.
    pub classification: Option<Classification>,
    /// External references.
    pub references: Option<Vec<Reference>>,
    /// Execution plan.
    pub execution: Execution,
    /// Detection indicators.
    pub indicators: Option<Vec<Indicator>>,
    /// Verdict correlation configuration.
    pub correlation: Option<Correlation>,
    /// Extension fields.
    pub extensions: Vec<(String, Value)>,
}

/// The top-level container for a parsed document.
pub struct Document {
    /// Format version string.
    pub oatf: String,
    /// Optional schema URI for editor validation.
    pub schema: Option<String>,
    /// The attack description and all contained structures.
    pub attack: Attack,
    /// Whether the format version was the first key of the source text.
    pub oatf_is_first_key: bool,
}

/// The state a phase prefix leaves in effect: the last `state` any phase in
/// the prefix defines, or null when none does.
pub open spec fn last_state(phases: Seq<Phase>) -> ValueView
    decreases phases.len(),
{
    if phases.len() == 0 {
        ValueView::Null
    } else {
        match phases.last().state {
            Some(v) => v@,
            None => last_state(phases.drop_last()),
        }
    }
}

/// What `compute_effective_state` returns: the last defined state among
/// phases 0 through `idx` (all phases when `idx` runs past the end).
pub open spec fn effective_state_spec(phases: Seq<Phase>, idx: int) -> ValueView {
    if idx + 1 < phases.len() {
        last_state(phases.take(idx + 1))
    } else {
        last_state(phases)
    }
}

/// Computes the effective state at a phase by state inheritance: a phase
/// that defines `state` replaces the current state, one that omits it
/// carries the previous state forward.
#[verifier::loop_isolation(false)]
pub fn compute_effective_state(phases: &Vec<Phase>, phase_index: usize) -> (r: Value)
    ensures
        r@ == effective_state_spec(phases@, phase_index as int),
{
    let n: usize = phases.len();
    let mut effective: Option<&Value> = None;
    let mut i: usize = 0;
    proof {
        assert(phases@.take(0) =~= Seq::<Phase>::empty());
    }
    while i < n && i <= phase_index
        invariant
            0 <= i <= n,
            i <= phase_index + 1,
            match effective {
                Some(v) => v@ == last_state(phases@.take(i as int)),
                None => last_state(phases@.take(i as int)) == ValueView::Null,
            },
        decreases n - i,
    {
        proof {
            assert(phases@.take(i as int + 1).drop_last() =~= phases@.take(i as int));
            assert(phases@.take(i as int + 1).last() == phases@[i as int]);
        }
        match &phases[i].state {
            Some(state) => {
                effective = Some(state);
            },
            None => {},
        }
        i = i + 1;
    }
    proof {
        if i == n {
            assert(phases@.take(n as int) =~= phases@);
        }
    }
    match effective {
        Some(v) => v.deep_copy(),
        None => Value::Null,
    }
}

/// The index of the first entry with a passing `when` predicate, if any.
pub open spec fn first_when_match(entries: Seq<ResponseEntry>, req: ValueView) -> Option<int>
    decreases entries.len(),
{
    if entries.len() == 0 {
        None
    } else if entries[0].when matches Some(p) && predicate_holds(p@, req) {
        Some(0int)
    } else {
        match first_when_match(entries.drop_first(), req) {
            Some(i) => Some(i + 1),
            None => None,
        }
    }
}

/// The index of the first entry without a `when` predicate, if any.
pub open spec fn first_default(entries: Seq<ResponseEntry>) -> Option<int>
    decreases entries.len(),
{
    if entries.len() == 0 {
        None
    } else if entries[0].when is None {
        Some(0int)
    } else {
        match first_default(entries.drop_first()) {
            Some(i) => Some(i + 1),
            None => None,
        }
    }
}

/// What `select_response` picks: the first entry whose `when` predicate
/// passes against the request, else the first entry without a predicate.
pub open spec fn select_response_spec(entries: Seq<ResponseEntry>, req: ValueView) -> Option<int> {
    match first_when_match(entries, req) {
        Some(i) => Some(i),
        None => first_default(entries),
    }
}

/// Stepping past a non-matching, non-default entry.
proof fn lemma_select_step(entries: Seq<ResponseEntry>, req: ValueView, i: int)
    requires
        0 <= i < entries.len(),
    ensures
        ({
            let tail = entries.skip(i);
            let tail1 = entries.skip(i + 1);
            &&& (tail[0].when matches Some(p) && predicate_holds(p@, req) ==> first_when_match(
                tail,
                req,
            ) == Some(0int))
            &&& (!(tail[0].when matches Some(p) && predicate_holds(p@, req))
                ==> first_when_match(tail, req) == match first_when_match(tail1, req) {
                Some(k) => Some(k + 1),
                None => None::<int>,
            })
            &&& (tail[0].when is None ==> first_default(tail) == Some(0int))
            &&& (tail[0].when is Some ==> first_default(tail) == match first_default(tail1) {
                Some(k) => Some(k + 1),
                None => None::<int>,
            })
        }),
{
    assert(entries.skip(i).drop_first() =~= entries.skip(i + 1));
}

/// Selects the first matching response entry from an ordered list:
/// first-match-wins among entries with `when` predicates, falling back to
/// the first entry without one.
#[verifier::loop_isolation(false)]
pub fn select_response<'a>(entries: &'a Vec<ResponseEntry>, request: &Value) -> (r: Option<
    &'a ResponseEntry,
>)
    ensures
        match r {
            Some(e) => {
                &&& select_response_spec(entries@, request@) matches Some(i)
                &&& 0 <= i < entries@.len()
                &&& *e == entries@[select_response_spec(entries@, request@)->Some_0]
            },
            None => select_response_spec(entries@, request@) is None,
        },
{
    let n: usize = entries.len();
    let mut default_entry: Option<usize> = None;
    let mut i: usize = 0;
    proof {
        assert(entries@.skip(0) =~= entries@);
    }
    while i < n
        invariant
            0 <= i <= n,
            first_when_match(entries@, request@) == match first_when_match(
                entries@.skip(i as int),
                request@,
            ) {
                Some(k) => Some(k + i),
                None => None::<int>,
            },
            match default_entry {
                Some(d) => {
                    &&& 0 <= d < i
                    &&& first_default(entries@) == Some(d as int)
                },
                None => first_default(entries@) == match first_default(entries@.skip(i as int)) {
                    Some(k) => Some(k + i),
                    None => None::<int>,
                },
            },
        decreases n - i,
    {
        proof {
            assert(entries@.skip(i as int)[0] == entries@[i as int]);
            lemma_select_step(entries@, request@, i as int);
        }
        match &entries[i].when {
            Some(predicate) => {
                if evaluate_predicate(predicate, request) {
                    return Some(&entries[i]);
                }
            },
            None => {
                if default_entry.is_none() {
                    default_entry = Some(i);
                }
            },
        }
        i = i + 1;
    }
    proof {
        assert(entries@.skip(n as int) =~= Seq::<ResponseEntry>::empty());
    }
    match default_entry {
        Some(d) => Some(&entries[d]),
        None => None,
    }
}

} // verus!
