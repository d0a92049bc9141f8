//! Extractor evaluation: a structured JSONPath query or a regular-expression
//! capture applied to a protocol message, honoring a request/response
//! direction filter.

use vstd::prelude::*;

use crate::enums::ExtractorSource;
use crate::enums::ExtractorType;
use crate::render::json_text;
use crate::render::to_json_string;
use crate::render::value_text;
use crate::render::value_to_string;
use crate::value::Value;
use crate::value::ValueView;

verus! {

/// A data extractor that captures one value from a protocol message.
pub struct Extractor {
    /// Variable name the extracted value is bound to.
    pub name: String,
    /// Whether to extract from the request or the response message.
    pub source: ExtractorSource,
    /// Extraction method.
    pub extractor_type: ExtractorType,
    /// JSONPath expression or regex pattern.
    pub selector: String,
}

/// What a JSONPath query selects first in a JSON document, rendered as text:
/// a string node verbatim, any other node as compact JSON. Nothing when the
/// selector does not parse or nothing matches. A function of the selector
/// and the document text alone.
pub uninterp spec fn jsonpath_first_text(selector: Seq<char>, json: Seq<char>) -> Option<Seq<char>>;

/// Relies on `serde_json_path::JsonPath::parse` and `JsonPath::query`, and on
/// `serde_json::from_str` / `serde_json::to_string`: the first selected node
/// of a parsed document, rendered verbatim for strings and as compact JSON
/// otherwise, depends on the selector and the document text alone.
#[verifier::external_body]
fn jsonpath_query_first(selector: &str, json: &str) -> (r: Option<String>)
    ensures
        match r {
            Some(t) => jsonpath_first_text(selector@, json@) == Some(t@),
            None => jsonpath_first_text(selector@, json@) is None,
        },
{
    let value: serde_json::Value = serde_json::from_str(json).ok()?;
    let path = serde_json_path::JsonPath::parse(selector).ok()?;
    let nodes = path.query(&value);
    let first = nodes.first()?;
    match first {
        serde_json::Value::String(s) => Some(s.clone()),
        other => serde_json::to_string(other).ok(),
    }
}

/// What `regex::Regex::new`, `Regex::captures` and `Captures::get(1)` yield
/// for a pattern and a text: the text of the first capture group of the
/// first match, or nothing when the pattern does not compile, does not
/// match, or has no participating first group. A function of the pattern and
/// the text alone.
pub uninterp spec fn regex_capture_one(pattern: Seq<char>, text: Seq<char>) -> Option<Seq<char>>;

/// Relies on `regex::Regex::new`, `regex::Regex::captures` and
/// `regex::Captures::get`: the first capture group of the first match
/// depends on the pattern and the text alone.
#[verifier::external_body]
fn regex_first_capture(pattern: &str, text: &str) -> (r: Option<String>)
    ensures
        match r {
            Some(t) => regex_capture_one(pattern@, text@) == Some(t@),
            None => regex_capture_one(pattern@, text@) is None,
        },
{
    let re = regex::Regex::new(pattern).ok()?;
    let caps = re.captures(text)?;
    caps.get(1).map(|m| m.as_str().to_string())
}

/// What `evaluate_extractor` returns: nothing when the extractor's source
/// direction differs from the message's; else the first JSONPath hit or the
/// first regex capture against the rendered message.
pub open spec fn extractor_result(
    e: Extractor,
    message: ValueView,
    direction: ExtractorSource,
) -> Option<Seq<char>> {
    if e.source != direction {
        None
    } else {
        match e.extractor_type {
            ExtractorType::JsonPath => jsonpath_first_text(e.selector@, json_text(message)),
            ExtractorType::Regex => regex_capture_one(e.selector@, value_text(message)),
        }
    }
}

/// Applies an extractor to a message, capturing a value.
///
/// When the extractor's `source` does not equal `direction` the extractor
/// does not apply and the result is `None`, whatever the message holds.
/// Otherwise a JSONPath extractor yields the first query hit and a regex
/// extractor the first capture group of the first match; `Some` of the empty
/// string is a valid result distinct from `None`.
pub fn evaluate_extractor(extractor: &Extractor, message: &Value, direction: ExtractorSource) -> (r:
    Option<String>)
    ensures
        match r {
            Some(t) => extractor_result(*extractor, message@, direction) == Some(t@),
            None => extractor_result(*extractor, message@, direction) is None,
        },
        extractor.source != direction ==> r is None,
{
    if !(extractor.source == direction) {
        return None;
    }
    match extractor.extractor_type {
        ExtractorType::JsonPath => {
            let rendered = to_json_string(message);
            jsonpath_query_first(extractor.selector.as_str(), rendered.as_str())
        },
        ExtractorType::Regex => {
            let rendered = value_to_string(message);
            regex_first_capture(extractor.selector.as_str(), rendered.as_str())
        },
    }
}

} // verus!
