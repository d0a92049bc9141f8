//! Evaluation engine for declarative attack descriptions against AI-agent
//! communication protocols.
//!
//! The engine consumes a normalized document and live protocol value trees,
//! and offers the pure primitives that give the format its runtime meaning:
//!
//! - [`path`]: dot-path resolution, simple and with `[*]` wildcard fan-out;
//! - [`duration`]: shorthand and restricted ISO-8601 duration parsing;
//! - [`condition`] and [`predicate`]: deep equality, match operators, and
//!   path-keyed predicates with AND semantics;
//! - [`template`]: `{{expr}}` interpolation over strings and value trees;
//! - [`extractor`]: JSONPath and regex extraction with a direction filter;
//! - [`trigger`]: the phase-advancement state machine;
//! - [`indicator`] and [`verdict`]: detection dispatch and attack-level
//!   verdict correlation;
//! - [`document`] and [`registry`]: the document structure and the event and
//!   surface registries;
//! - [`value`], [`render`] and [`text`]: the value tree, its textual
//!   renderings, and character-level helpers.
//!
//! Parsing the textual format, validating documents and serializing them
//! back are external collaborators: the engine never re-validates and never
//! mutates its inputs. Numbers are held in fixed-point micro-units (one
//! million stands for 1.0), so evaluation is exact integer arithmetic; the
//! conversion from floating-point happens at the embedding boundary.

pub mod condition;
pub mod document;
pub mod duration;
pub mod enums;
pub mod error;
pub mod extractor;
pub mod indicator;
pub mod path;
pub mod predicate;
pub mod registry;
pub mod render;
pub mod template;
pub mod text;
pub mod trigger;
pub mod value;
pub mod verdict;

pub use value::Value;
pub use value::ValueView;
