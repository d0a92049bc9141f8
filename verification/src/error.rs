//! Error and diagnostic types for parse, validation, evaluation, generation
//! and serialization stages.

use vstd::prelude::*;

verus! {

/// Diagnostic severity level.
#[derive(Clone, Copy, Debug, PartialEq, Eq, Structural)]
pub enum DiagnosticSeverity {
    /// A conformance error that must be fixed.
    Error,
    /// A non-fatal warning.
    Warning,
}

/// A structured diagnostic produced during validation, normalization, or
/// evaluation.
#[derive(Clone, Debug, PartialEq, Eq)]
pub struct Diagnostic {
    /// Whether this is an error or a warning.
    pub severity: DiagnosticSeverity,
    /// Rule identifier.
    pub code: String,
    /// Path to the offending element, if applicable.
    pub path: Option<String>,
    /// Human-readable description of the issue.
    pub message: String,
}

/// Error kind for parse failures.
#[derive(Clone, Copy, Debug, PartialEq, Eq, Structural)]
pub enum ParseErrorKind {
    /// Syntax error or structural issue in the source text.
    Syntax,
    /// Value has the wrong type for the expected field.
    TypeMismatch,
    /// An unrecognized variant or key was encountered.
    UnknownVariant,
}

/// Produced when parsing a document or one of its fields fails.
#[derive(Clone, Debug, PartialEq, Eq)]
pub struct ParseError {
    /// Classification of the parse failure.
    pub kind: ParseErrorKind,
    /// Human-readable error description.
    pub message: String,
    /// Path to the element that caused the error, if known.
    pub path: Option<String>,
    /// 1-based line number in the source, if available.
    pub line: Option<usize>,
    /// 1-based column number in the source, if available.
    pub column: Option<usize>,
}

/// Produced when a document violates a conformance rule.
#[derive(Clone, Debug, PartialEq, Eq)]
pub struct ValidationError {
    /// Conformance rule identifier.
    pub rule: String,
    /// Specification section reference.
    pub spec_ref: String,
    /// Path to the offending element.
    pub path: String,
    /// Human-readable description of the violation.
    pub message: String,
}

/// Result of validation: errors and warnings.
#[derive(Clone, Debug)]
pub struct ValidationResult {
    /// Conformance rule violations.
    pub errors: Vec<ValidationError>,
    /// Non-fatal warnings.
    pub warnings: Vec<Diagnostic>,
}

impl ValidationResult {
    /// A document is valid exactly when validation produced no errors.
    pub fn is_valid(&self) -> (r: bool)
        ensures
            r == (self.errors@.len() == 0),
    {
        self.errors.len() == 0
    }
}

impl Default for ValidationResult {
    /// An empty result: no errors, no warnings.
    fn default() -> (r: Self)
        ensures
            r.errors@.len() == 0,
            r.warnings@.len() == 0,
    {
        ValidationResult { errors: Vec::new(), warnings: Vec::new() }
    }
}

/// Error kind for evaluation failures.
#[derive(Clone, Copy, Debug, PartialEq, Eq, Structural)]
pub enum EvaluationErrorKind {
    /// A target path could not be resolved.
    PathResolution,
    /// A regex evaluation timed out (reserved for timing-bounded engines).
    RegexTimeout,
    /// Expression compilation or execution error.
    CelError,
    /// Result was not the expected type (e.g. a non-boolean expression result).
    TypeError,
    /// The semantic evaluator returned an error.
    SemanticError,
    /// The expression used an unsupported method.
    UnsupportedMethod,
}

/// Produced during indicator evaluation when a runtime fault occurs.
#[derive(Clone, Debug, PartialEq, Eq)]
pub struct EvaluationError {
    /// Classification of the evaluation failure.
    pub kind: EvaluationErrorKind,
    /// Human-readable error description.
    pub message: String,
    /// Indicator that caused the error, if applicable.
    pub indicator_id: Option<String>,
}

/// Error kind for generation failures.
#[derive(Clone, Copy, Debug, PartialEq, Eq, Structural)]
pub enum GenerationErrorKind {
    /// The generation provider is not available.
    ProviderUnavailable,
    /// The underlying model returned an error.
    ModelError,
    /// The generated content failed validation.
    ValidationFailure,
    /// The generation request timed out.
    Timeout,
    /// The request was rejected by a content policy.
    ContentPolicy,
}

/// Produced by a generation provider when content synthesis fails.
#[derive(Clone, Debug, PartialEq, Eq)]
pub struct GenerationError {
    /// Classification of the generation failure.
    pub kind: GenerationErrorKind,
    /// Human-readable error description.
    pub message: String,
    /// Phase name where generation was attempted, if applicable.
    pub phase_name: Option<String>,
    /// Truncated prompt used for the generation attempt.
    pub prompt_preview: Option<String>,
}

/// Serialization error.
#[derive(Clone, Debug, PartialEq, Eq)]
pub struct SerializeError {
    /// Human-readable error description.
    pub message: String,
}

/// Combined error type for a parse-then-validate entry point.
#[derive(Clone, Debug)]
pub enum OATFError {
    /// A parse-stage error.
    Parse(ParseError),
    /// A validation-stage error.
    Validation(ValidationError),
}

} // verus!
