use perplexity_web_api::config::model_preference;
use perplexity_web_api::types::{Model, SearchMode};

#[test]
fn test_auto_mode_defaults() {
    assert_eq!(model_preference(SearchMode::Auto, None), Some("turbo"));
}

#[test]
fn test_auto_mode_rejects_models() {
    assert_eq!(model_preference(SearchMode::Auto, Some(Model::Gpt52)), None);
    assert_eq!(model_preference(SearchMode::Auto, Some(Model::Sonar)), None);
}

#[test]
fn test_pro_mode_defaults() {
    assert_eq!(model_preference(SearchMode::Pro, None), Some("pplx_pro"));
}

#[test]
fn test_pro_mode_models() {
    assert_eq!(
        model_preference(SearchMode::Pro, Some(Model::Sonar)),
        Some("experimental")
    );
    assert_eq!(model_preference(SearchMode::Pro, Some(Model::Gpt52)), Some("gpt52"));
    assert_eq!(
        model_preference(SearchMode::Pro, Some(Model::Claude45Sonnet)),
        Some("claude45sonnet")
    );
    assert_eq!(
        model_preference(SearchMode::Pro, Some(Model::Grok41)),
        Some("grok41nonreasoning")
    );
}

#[test]
fn test_pro_mode_rejects_reasoning_models() {
    assert_eq!(model_preference(SearchMode::Pro, Some(Model::Gpt52Thinking)), None);
    assert_eq!(
        model_preference(SearchMode::Pro, Some(Model::Claude45SonnetThinking)),
        None
    );
}

#[test]
fn test_reasoning_mode_defaults() {
    assert_eq!(model_preference(SearchMode::Reasoning, None), Some("pplx_reasoning"));
}

#[test]
fn test_reasoning_mode_models() {
    assert_eq!(
        model_preference(SearchMode::Reasoning, Some(Model::Gpt52Thinking)),
        Some("gpt52_thinking")
    );
    assert_eq!(
        model_preference(SearchMode::Reasoning, Some(Model::Claude45SonnetThinking)),
        Some("claude45sonnetthinking")
    );
    assert_eq!(
        model_preference(SearchMode::Reasoning, Some(Model::Gemini30Pro)),
        Some("gemini30pro")
    );
    assert_eq!(
        model_preference(SearchMode::Reasoning, Some(Model::KimiK2Thinking)),
        Some("kimik2thinking")
    );
    assert_eq!(
        model_preference(SearchMode::Reasoning, Some(Model::Grok41Reasoning)),
        Some("grok41reasoning")
    );
}

#[test]
fn test_reasoning_mode_rejects_pro_models() {
    assert_eq!(model_preference(SearchMode::Reasoning, Some(Model::Gpt52)), None);
    assert_eq!(model_preference(SearchMode::Reasoning, Some(Model::Sonar)), None);
}

#[test]
fn test_deep_research_mode_defaults() {
    assert_eq!(model_preference(SearchMode::DeepResearch, None), Some("pplx_alpha"));
}

#[test]
fn test_deep_research_mode_rejects_models() {
    assert_eq!(model_preference(SearchMode::DeepResearch, Some(Model::Gpt52)), None);
    assert_eq!(
        model_preference(SearchMode::DeepResearch, Some(Model::Gpt52Thinking)),
        None
    );
}

#[test]
fn test_every_mode_has_default() {
    let modes = [
        SearchMode::Auto,
        SearchMode::Pro,
        SearchMode::Reasoning,
        SearchMode::DeepResearch,
    ];
    for mode in modes {
        assert!(model_preference(mode, None).is_some());
    }
}

#[test]
fn test_foreign_selectors_rejected_everywhere() {
    let modes = [
        SearchMode::Auto,
        SearchMode::Pro,
        SearchMode::Reasoning,
        SearchMode::DeepResearch,
    ];
    let models = [
        Model::Sonar,
        Model::Gpt52,
        Model::Claude45Sonnet,
        Model::Grok41,
        Model::Gpt52Thinking,
        Model::Claude45SonnetThinking,
        Model::Gemini30Pro,
        Model::KimiK2Thinking,
        Model::Grok41Reasoning,
    ];
    for home in modes {
        for model in models {
            if model_preference(home, Some(model)).is_some() {
                for other in modes {
                    if other != home {
                        assert_eq!(model_preference(other, Some(model)), None);
                    }
                }
            }
        }
    }
}
