//! Compatibility resolver: a pure, total map from a search mode and an
//! optional model selector to the backend's preference token.

use crate::types::{Model, SearchMode};
use vstd::prelude::*;

verus! {

pub const API_BASE_URL: &'static str = "https://www.perplexity.ai";

pub const API_VERSION: &'static str = "2.18";

pub const ENDPOINT_AUTH_SESSION: &'static str = "/api/auth/session";

pub const ENDPOINT_SSE_ASK: &'static str = "/rest/sse/perplexity_ask";

pub const ENDPOINT_UPLOAD_URL: &'static str = "/rest/uploads/create_upload_url";

/// The compatibility table itself: which preference token, if any, a
/// mode/model combination maps to.
pub open spec fn spec_model_preference(mode: SearchMode, model: Option<Model>) -> Option<Seq<char>> {
    match (mode, model) {
        (SearchMode::Auto, Option::None) => Some("turbo"@),
        (SearchMode::Auto, Option::Some(_)) => None,
        (SearchMode::Pro, Option::None) => Some("pplx_pro"@),
        (SearchMode::Pro, Option::Some(Model::Sonar)) => Some("experimental"@),
        (SearchMode::Pro, Option::Some(Model::Gpt52)) => Some("gpt52"@),
        (SearchMode::Pro, Option::Some(Model::Claude45Sonnet)) => Some("claude45sonnet"@),
        (SearchMode::Pro, Option::Some(Model::Grok41)) => Some("grok41nonreasoning"@),
        (SearchMode::Pro, Option::Some(_)) => None,
        (SearchMode::Reasoning, Option::None) => Some("pplx_reasoning"@),
        (SearchMode::Reasoning, Option::Some(Model::Gpt52Thinking)) => Some("gpt52_thinking"@),
        (SearchMode::Reasoning, Option::Some(Model::Claude45SonnetThinking)) => Some(
            "claude45sonnetthinking"@,
        ),
        (SearchMode::Reasoning, Option::Some(Model::Gemini30Pro)) => Some("gemini30pro"@),
        (SearchMode::Reasoning, Option::Some(Model::KimiK2Thinking)) => Some("kimik2thinking"@),
        (SearchMode::Reasoning, Option::Some(Model::Grok41Reasoning)) => Some("grok41reasoning"@),
        (SearchMode::Reasoning, Option::Some(_)) => None,
        (SearchMode::DeepResearch, Option::None) => Some("pplx_alpha"@),
        (SearchMode::DeepResearch, Option::Some(_)) => None,
    }
}

/// Returns the model preference string for the API payload.
///
/// Returns `Some(preference)` if the mode+model combination is valid,
/// or `None` if the model is incompatible with the given mode.
pub fn model_preference(mode: SearchMode, model: Option<Model>) -> (r: Option<&'static str>)
    ensures
        (r is Some) == (spec_model_preference(mode, model) is Some),
        r matches Some(tok) ==> tok@ == spec_model_preference(mode, model)->Some_0,
{
    match (mode, model) {
        (SearchMode::Auto, None) => Some("turbo"),
        (SearchMode::Auto, Some(_)) => None,
        (SearchMode::Pro, None) => Some("pplx_pro"),
        (SearchMode::Pro, Some(Model::Sonar)) => Some("experimental"),
        (SearchMode::Pro, Some(Model::Gpt52)) => Some("gpt52"),
        (SearchMode::Pro, Some(Model::Claude45Sonnet)) => Some("claude45sonnet"),
        (SearchMode::Pro, Some(Model::Grok41)) => Some("grok41nonreasoning"),
        (SearchMode::Pro, Some(_)) => None,
        (SearchMode::Reasoning, None) => Some("pplx_reasoning"),
        (SearchMode::Reasoning, Some(Model::Gpt52Thinking)) => Some("gpt52_thinking"),
        (SearchMode::Reasoning, Some(Model::Claude45SonnetThinking)) => Some(
            "claude45sonnetthinking",
        ),
        (SearchMode::Reasoning, Some(Model::Gemini30Pro)) => Some("gemini30pro"),
        (SearchMode::Reasoning, Some(Model::KimiK2Thinking)) => Some("kimik2thinking"),
        (SearchMode::Reasoning, Some(Model::Grok41Reasoning)) => Some("grok41reasoning"),
        (SearchMode::Reasoning, Some(_)) => None,
        (SearchMode::DeepResearch, None) => Some("pplx_alpha"),
        (SearchMode::DeepResearch, Some(_)) => None,
    }
}

/// Every mode has a default: with no model selector the table never rejects.
pub proof fn lemma_every_mode_has_default(mode: SearchMode)
    ensures
        spec_model_preference(mode, None) is Some,
{
}

/// Model families are exclusive: a selector that is valid under one mode is
/// rejected under every other mode.
pub proof fn lemma_families_exclusive(home: SearchMode, other: SearchMode, model: Model)
    requires
        spec_model_preference(home, Some(model)) is Some,
        other != home,
    ensures
        spec_model_preference(other, Some(model)) is None,
{
}

} // verus!
