//! The phase-trigger state machine: whether an observed protocol event, or
//! elapsed time, satisfies a phase-advancement trigger, counting qualifying
//! events across calls in caller-owned state.

use vstd::prelude::*;

use crate::duration::duration_secs;
use crate::duration::Duration;
use crate::enums::AdvanceReason;
use crate::predicate::evaluate_predicate;
use crate::predicate::predicate_holds;
use crate::predicate::MatchPredicate;
use crate::value::Value;

verus! {

/// Condition that advances execution to the next phase.
pub struct Trigger {
    /// Protocol event name, possibly qualified (`base:qualifier`).
    pub event: Option<String>,
    /// Number of matching events required before advancing; 1 when absent.
    pub count: Option<i64>,
    /// Predicate the event payload must satisfy.
    pub match_predicate: Option<MatchPredicate>,
    /// Duration string after which the trigger times out.
    pub after: Option<String>,
}

/// A protocol event observed during execution.
pub struct ProtocolEvent {
    /// Qualified event type (`base` or `base:qualifier`).
    pub event_type: String,
    /// Explicit event qualifier, when the event carries one.
    pub qualifier: Option<String>,
    /// Event payload content.
    pub content: Value,
}

/// Per-trigger state threaded by the caller across repeated calls.
#[derive(Clone, Copy, Debug, PartialEq, Eq, Structural)]
pub struct TriggerState {
    /// How many fully matching events this trigger has seen.
    pub event_count: u64,
}

/// Result of evaluating a trigger against an event.
#[derive(Clone, Copy, Debug, PartialEq, Eq, Structural)]
pub enum TriggerResult {
    /// The trigger condition was met and execution should advance.
    Advanced {
        /// Why the trigger advanced.
        reason: AdvanceReason,
    },
    /// The trigger condition was not met.
    NotAdvanced,
}

/// A protocol-specific qualifier lookup, consulted only when an event lacks
/// an explicit qualifier: what qualifier the event's content implies under
/// the given protocol and base event, if any.
pub trait QualifierResolver {
    /// Resolves a qualifier for a base event from the event content.
    fn resolve(&self, protocol: &str, base_event: &str, content: &Value) -> (r: Option<String>);
}

/// The part of an event name before the first `:`.
pub open spec fn event_base(s: Seq<char>) -> Seq<char> {
    let i = crate::duration::find_char(s, ':');
    if i >= 0 {
        s.take(i)
    } else {
        s
    }
}

/// The part of an event name after the first `:`, if there is one.
pub open spec fn event_qualifier(s: Seq<char>) -> Option<Seq<char>> {
    let i = crate::duration::find_char(s, ':');
    if i >= 0 {
        Some(s.skip(i + 1))
    } else {
        None
    }
}

/// Whether the trigger's timeout fires: `after` is present, parses, and is
/// at most the elapsed time. Timeout is checked before event matching.
pub open spec fn timeout_fires(t: Trigger, elapsed: Duration) -> bool {
    match t.after {
        Some(a) => match duration_secs(a@) {
            Some(v) => v <= u64::MAX && elapsed.secs >= v,
            None => false,
        },
        None => false,
    }
}

/// Whether an event fully matches the trigger, given the qualifier that
/// content-based resolution would supply as a fallback: the base event names
/// agree, a qualifier demanded by the trigger is matched by the event's own
/// qualifier or by the fallback, and the trigger's predicate holds of the
/// event content.
pub open spec fn event_matches(t: Trigger, ev: ProtocolEvent, fallback: Option<Seq<char>>) -> bool {
    &&& t.event is Some
    &&& {
        let te = t.event->Some_0@;
        &&& event_base(te) == event_base(ev.event_type@)
        &&& match event_qualifier(te) {
            Some(q) => {
                let resolved = match ev.qualifier {
                    Some(eq) => Some(eq@),
                    None => fallback,
                };
                resolved == Some(q)
            },
            None => true,
        }
        &&& match t.match_predicate {
            Some(p) => predicate_holds(p@, ev.content@),
            None => true,
        }
    }
}

/// How many fully matching events the trigger demands: `count` when set and
/// non-negative, 1 when absent, unreachable when negative.
pub open spec fn required_count(t: Trigger) -> int {
    match t.count {
        Some(c) => if c >= 0 {
            c as int
        } else {
            u64::MAX as int + 1
        },
        None => 1,
    }
}

/// The full outcome of one evaluation round, given the fallback qualifier:
/// on a timeout the state is untouched; on a full event match the counter
/// steps and the trigger advances exactly when it reaches the threshold; in
/// every other case nothing changes.
pub open spec fn trigger_outcome(
    t: Trigger,
    ev: Option<ProtocolEvent>,
    elapsed: Duration,
    fallback: Option<Seq<char>>,
    old_state: TriggerState,
    new_state: TriggerState,
    r: TriggerResult,
) -> bool {
    if timeout_fires(t, elapsed) {
        &&& r == TriggerResult::Advanced { reason: AdvanceReason::Timeout }
        &&& new_state == old_state
    } else {
        match ev {
            Some(e) => {
                if event_matches(t, e, fallback) {
                    &&& new_state.event_count == old_state.event_count + 1
                    &&& r == if new_state.event_count >= required_count(t) {
                        TriggerResult::Advanced { reason: AdvanceReason::EventMatched }
                    } else {
                        TriggerResult::NotAdvanced
                    }
                } else {
                    &&& new_state == old_state
                    &&& r == TriggerResult::NotAdvanced
                }
            },
            None => {
                &&& new_state == old_state
                &&& r == TriggerResult::NotAdvanced
            },
        }
    }
}

/// The dereferenced copy of an optional borrowed event.
pub open spec fn opt_event(e: Option<&ProtocolEvent>) -> Option<ProtocolEvent> {
    match e {
        Some(x) => Some(*x),
        None => None,
    }
}

/// Splits an event name on its first `:` into a base and an optional
/// qualifier.
pub fn parse_event_qualifier(event_string: &str) -> (r: (String, Option<String>))
    ensures
        r.0@ == event_base(event_string@),
        match r.1 {
            Some(q) => event_qualifier(event_string@) == Some(q@),
            None => event_qualifier(event_string@) is None,
        },
{
    let cs = crate::text::chars_of(event_string);
    let n: usize = cs.len();
    proof {
        assert(cs@.subrange(0, n as int) =~= cs@);
    }
    match crate::duration::find_char_in(&cs, ':', 0, n) {
        Some(i) => {
            let base = crate::text::slice_chars(&cs, 0, i);
            let qual = crate::text::slice_chars(&cs, i + 1, n);
            proof {
                assert(cs@.subrange(0, i as int) =~= cs@.take(i as int));
                assert(cs@.subrange(i as int + 1, n as int) =~= cs@.skip(i as int + 1));
            }
            (crate::text::chars_to_string(&base), Some(crate::text::chars_to_string(&qual)))
        },
        None => (event_string.to_owned(), None),
    }
}

/// Evaluates a trigger against an already-resolved fallback qualifier.
///
/// `resolved_fallback` stands for what content-based qualifier resolution
/// supplied (or `None` when it supplied nothing); it is consulted only when
/// the trigger demands a qualifier the event does not carry. The timeout is
/// checked first and leaves the state untouched; a fully matching event
/// steps the counter and advances exactly when the counter reaches the
/// required threshold; anything else changes nothing.
pub fn evaluate_trigger_resolved(
    trigger: &Trigger,
    event: Option<&ProtocolEvent>,
    elapsed: Duration,
    state: &mut TriggerState,
    resolved_fallback: Option<&String>,
) -> (r: TriggerResult)
    requires
        old(state).event_count < u64::MAX,
    ensures
        trigger_outcome(
            *trigger,
            opt_event(event),
            elapsed,
            match resolved_fallback {
                Some(q) => Some(q@),
                None => None,
            },
            *old(state),
            *final(state),
            r,
        ),
{
    // 1. Timeout, checked before event matching.
    match &trigger.after {
        Some(a) => {
            match crate::duration::parse_duration(a.as_str()) {
                Ok(timeout) => {
                    if elapsed.secs >= timeout.secs {
                        return TriggerResult::Advanced { reason: AdvanceReason::Timeout };
                    }
                },
                Err(_) => {},
            }
        },
        None => {},
    }
    proof {
        assert(!timeout_fires(*trigger, elapsed));
    }

    // 2. Event match.
    let (trigger_event, ev) = match (&trigger.event, event) {
        (Some(te), Some(e)) => (te, e),
        _ => {
            return TriggerResult::NotAdvanced;
        },
    };
    let (trigger_base, trigger_qualifier) = parse_event_qualifier(trigger_event.as_str());
    let (event_base_str, _) = parse_event_qualifier(ev.event_type.as_str());
    if !trigger_base.eq(&event_base_str) {
        return TriggerResult::NotAdvanced;
    }

    // 3. Qualifier comparison, when the trigger demands one: the event's own
    // qualifier first, then the resolved fallback.
    match &trigger_qualifier {
        Some(tq) => {
            let resolved: Option<&String> = match &ev.qualifier {
                Some(eq) => Some(eq),
                None => resolved_fallback,
            };
            match resolved {
                Some(q) => {
                    if !q.eq(tq) {
                        return TriggerResult::NotAdvanced;
                    }
                },
                None => {
                    return TriggerResult::NotAdvanced;
                },
            }
        },
        None => {},
    }

    // 4. Match predicate against the event content.
    match &trigger.match_predicate {
        Some(p) => {
            if !evaluate_predicate(p, &ev.content) {
                return TriggerResult::NotAdvanced;
            }
        },
        None => {},
    }

    // 5. Full match: step the counter, advance at the threshold.
    state.event_count = state.event_count + 1;
    let advanced = match trigger.count {
        Some(c) => {
            if c >= 0 {
                state.event_count >= c as u64
            } else {
                false
            }
        },
        None => state.event_count >= 1,
    };
    if advanced {
        TriggerResult::Advanced { reason: AdvanceReason::EventMatched }
    } else {
        TriggerResult::NotAdvanced
    }
}

/// Evaluates whether a trigger is satisfied for phase advancement.
///
/// The timeout is checked first; an event is then matched on base name,
/// qualifier and predicate, counting fully matching events in `state`. When
/// the trigger demands a qualifier the event does not carry, the resolver is
/// consulted with the protocol, the event's base name and its content; the
/// outcome holds for whatever qualifier the resolver supplied.
pub fn evaluate_trigger<R: QualifierResolver>(
    trigger: &Trigger,
    event: Option<&ProtocolEvent>,
    elapsed: Duration,
    state: &mut TriggerState,
    protocol: &str,
    resolver: Option<&R>,
) -> (r: TriggerResult)
    requires
        old(state).event_count < u64::MAX,
    ensures
        exists|fallback: Option<Seq<char>>|
            #[trigger] trigger_outcome(
                *trigger,
                opt_event(event),
                elapsed,
                fallback,
                *old(state),
                *final(state),
                r,
            ),
{
    let fallback: Option<String> = match (event, resolver) {
        (Some(e), Some(res)) => {
            let (base, _) = parse_event_qualifier(e.event_type.as_str());
            res.resolve(protocol, base.as_str(), &e.content)
        },
        _ => None,
    };
    let r = evaluate_trigger_resolved(trigger, event, elapsed, state, fallback.as_ref());
    proof {
        let fb: Option<Seq<char>> = match fallback {
            Some(q) => Some(q@),
            None => None,
        };
        assert(trigger_outcome(
            *trigger,
            opt_event(event),
            elapsed,
            fb,
            *old(state),
            *final(state),
            r,
        ));
    }
    r
}

} // verus!
