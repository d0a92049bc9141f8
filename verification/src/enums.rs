//! Closed enumerations of the format's vocabulary. Only the listed variants
//! are valid; open vocabularies (mode, protocol) stay strings.

use vstd::prelude::*;

verus! {

/// Severity classification.
#[derive(Clone, Copy, Debug, PartialEq, Eq, Structural)]
pub enum SeverityLevel {
    Informational,
    Low,
    Medium,
    High,
    Critical,
}

/// Categories of harm.
#[derive(Clone, Copy, Debug, PartialEq, Eq, Structural)]
pub enum Impact {
    BehaviorManipulation,
    DataExfiltration,
    DataTampering,
    UnauthorizedActions,
    InformationDisclosure,
    CredentialTheft,
    ServiceDisruption,
    PrivilegeEscalation,
}

/// Taxonomy category of an attack.
#[derive(Clone, Copy, Debug, PartialEq, Eq, Structural)]
pub enum Category {
    CapabilityPoisoning,
    ResponseFabrication,
    ContextManipulation,
    OversightBypass,
    TemporalManipulation,
    AvailabilityDisruption,
    CrossProtocolChain,
}

/// Document lifecycle status.
#[derive(Clone, Copy, Debug, PartialEq, Eq, Structural)]
pub enum Status {
    Draft,
    Experimental,
    Stable,
    Deprecated,
}

/// How indicator verdicts combine into an attack-level result.
#[derive(Clone, Copy, Debug, PartialEq, Eq, Structural)]
pub enum CorrelationLogic {
    /// Any matched indicator produces an `Exploited` verdict.
    Any,
    /// All indicators must match for an `Exploited` verdict.
    All,
}

/// Individual indicator evaluation result.
#[derive(Clone, Copy, Debug, PartialEq, Eq, Structural)]
pub enum IndicatorResult {
    Matched,
    NotMatched,
    Error,
    Skipped,
}

/// Attack-level verdict result.
#[derive(Clone, Copy, Debug, PartialEq, Eq, Structural)]
pub enum AttackResult {
    Exploited,
    NotExploited,
    /// Some but not all indicators matched (`All` correlation only).
    Partial,
    Error,
}

/// Extractor source direction.
#[derive(Clone, Copy, Debug, PartialEq, Eq, Structural)]
pub enum ExtractorSource {
    Request,
    Response,
}

/// Extractor selection method.
#[derive(Clone, Copy, Debug, PartialEq, Eq, Structural)]
pub enum ExtractorType {
    JsonPath,
    Regex,
}

/// Semantic intent classification hint.
#[derive(Clone, Copy, Debug, PartialEq, Eq, Structural)]
pub enum SemanticIntentClass {
    PromptInjection,
    DataExfiltration,
    PrivilegeEscalation,
    SocialEngineering,
    InstructionOverride,
}

/// Framework mapping relationship type.
#[derive(Clone, Copy, Debug, PartialEq, Eq, Structural)]
pub enum Relationship {
    Primary,
    Related,
}

/// Log level for log actions.
#[derive(Clone, Copy, Debug, PartialEq, Eq, Structural)]
pub enum LogLevel {
    Info,
    Warn,
    Error,
}

/// Elicitation mode for user interaction.
#[derive(Clone, Copy, Debug, PartialEq, Eq, Structural)]
pub enum ElicitationMode {
    Form,
    Url,
}

/// Reason a trigger advanced to the next phase.
#[derive(Clone, Copy, Debug, PartialEq, Eq, Structural)]
pub enum AdvanceReason {
    EventMatched,
    Timeout,
}

} // verus!
