//! Data model: search modes, model selectors, JSON values and the
//! normalized event record.

use vstd::prelude::*;

verus! {

/// The search mode chosen for a request; it selects which family of backend
/// model tokens is valid.
#[derive(Clone, Copy, Debug, PartialEq, Eq)]
pub enum SearchMode {
    Auto,
    Pro,
    Reasoning,
    DeepResearch,
}

/// A specific backend model. Absence (a `None` selector) means the mode's
/// default model.
#[derive(Clone, Copy, Debug, PartialEq, Eq)]
pub enum Model {
    Sonar,
    Gpt52,
    Claude45Sonnet,
    Grok41,
    Gpt52Thinking,
    Claude45SonnetThinking,
    Gemini30Pro,
    KimiK2Thinking,
    Grok41Reasoning,
}

/// A JSON value as the normalizer models it.
///
/// An object is an ordered list of key/value pairs; a number holds the
/// decimal text serde_json renders for it. The normalizer only moves such
/// values around, it never computes with them.
#[derive(Debug, PartialEq)]
pub enum JsonValue {
    Null,
    Bool(bool),
    Number(String),
    Text(String),
    Array(Vec<JsonValue>),
    Object(Vec<(String, JsonValue)>),
}

/// One normalized stream event.
#[derive(Debug)]
pub struct SearchEvent {
    /// The assembled answer content for this event, if any is present yet.
    pub answer: Option<String>,
    /// Citation/source records, in the order the backend emitted them.
    pub chunks: Vec<JsonValue>,
    /// A backend-assigned identifier echoed by some events.
    pub backend_uuid: Option<String>,
    /// URLs or identifiers of attached media, in emission order.
    pub attachments: Vec<String>,
    /// Every key of the original event except the four extracted ones.
    pub raw: Vec<(String, JsonValue)>,
}

/// The one hard failure of a normalization call.
#[derive(Clone, Copy, Debug, PartialEq, Eq)]
pub enum ParseError {
    /// The top-level event payload is not a JSON object.
    MalformedJson,
}

} // verus!
