use biubo_waf::llm::{
    after_deep_tier, after_quick_tier, chat_completions_url, check_api_key, extract_json_from_response,
    AfterQuickTier, LlmConfig, LlmResult, Tier1QuickEval, Tier2DeepAnalysis, Tier2Result, TwoTierLlmPipeline,
};
use biubo_waf::settings::Settings;

#[test]
fn test_tier2_result_is_hacker() {
    let result = Tier2Result {
        result_type: "hacker".to_string(),
        attack_types: vec!["zero_day_suspected".to_string()],
        analysis: "test".to_string(),
    };
    assert!(result.is_hacker());
    assert!(!result.is_normal());
}

#[test]
fn test_tier2_result_is_normal() {
    let result = Tier2Result {
        result_type: "normal".to_string(),
        attack_types: vec![],
        analysis: "test".to_string(),
    };
    assert!(!result.is_hacker());
    assert!(result.is_normal());
}

#[test]
fn test_llm_config_from_settings() {
    let mut settings = Settings::defaults(".", "pw".to_string(), "secret".to_string());
    settings.llm_quick_model = "quick-model".to_string();
    settings.llm_quick_base_url = "https://quick.example.com".to_string();
    settings.llm_quick_api_key = "quick-key".to_string();
    settings.llm_deep_model = "deep-model".to_string();
    settings.llm_deep_base_url = "https://deep.example.com".to_string();
    settings.llm_deep_api_key = "deep-key".to_string();

    let config = LlmConfig::from_settings(&settings);
    assert_eq!(config.quick_model, "quick-model");
    assert_eq!(config.quick_base_url, "https://quick.example.com");
    assert_eq!(config.quick_api_key, "quick-key");
    assert_eq!(config.deep_model, "deep-model");
    assert_eq!(config.deep_base_url, "https://deep.example.com");
    assert_eq!(config.deep_api_key, "deep-key");
}

fn config() -> LlmConfig {
    LlmConfig::new(
        "q".to_string(), "https://q/".to_string(), "kq".to_string(),
        "d".to_string(), "https://d".to_string(), "kd".to_string(),
    )
}

#[test]
fn llm_pipeline_tiers_share_config() {
    let p = TwoTierLlmPipeline::new(config());
    assert_eq!(p.quick_eval.config.quick_model, "q");
    assert_eq!(p.deep_analysis.config.deep_api_key, "kd");
    assert_eq!(Tier1QuickEval::new(config()).config.deep_model, "d");
    assert_eq!(Tier2DeepAnalysis::new(config()).config.quick_api_key, "kq");
}

#[test]
fn llm_quick_tier_outcomes() {
    assert!(matches!(after_quick_tier(Ok(true), false), AfterQuickTier::Finished(LlmResult::Safe)));
    assert!(matches!(after_quick_tier(Ok(false), true), AfterQuickTier::RunDeepTier));
    match after_quick_tier(Ok(false), false) {
        AfterQuickTier::Finished(LlmResult::Error(m)) => assert_eq!(m, "Full context required for Tier 2 analysis"),
        _ => panic!("expected an error"),
    }
    match after_quick_tier(Err("timeout".to_string()), true) {
        AfterQuickTier::Finished(LlmResult::Error(m)) => assert_eq!(m, "Tier 1 evaluation failed: timeout"),
        _ => panic!("expected an error"),
    }
}

#[test]
fn llm_deep_tier_outcomes() {
    match after_deep_tier(Err("bad json".to_string())) {
        LlmResult::Error(m) => assert_eq!(m, "Tier 2 analysis failed: bad json"),
        _ => panic!("expected an error"),
    }
    let r = Tier2Result { result_type: "hacker".to_string(), attack_types: vec![], analysis: String::new() };
    assert!(matches!(after_deep_tier(Ok(r)), LlmResult::Suspicious(_)));
}

#[test]
fn llm_endpoint_and_key() {
    assert_eq!(chat_completions_url("https://api.example.com/v1//"), "https://api.example.com/v1/chat/completions");
    assert_eq!(chat_completions_url("https://api.example.com/v1"), "https://api.example.com/v1/chat/completions");
    assert_eq!(check_api_key(""), Err("API key is empty".to_string()));
    assert_eq!(check_api_key("k"), Ok(()));
}

#[test]
fn llm_json_extraction() {
    assert_eq!(extract_json_from_response("  {\"verdict\": \"safe\"}  "), "{\"verdict\": \"safe\"}");
    assert_eq!(
        extract_json_from_response("Here:\n```json\n{\"type\": \"normal\"}\n```\nbye"),
        "{\"type\": \"normal\"}"
    );
    assert_eq!(extract_json_from_response("answer {\"a\": 1} trailing"), "{\"a\": 1}");
    assert_eq!(extract_json_from_response("  no json here "), "no json here");
}

fn deep_tier() -> Tier2DeepAnalysis {
    Tier2DeepAnalysis::new(LlmConfig::new(
        "test".to_string(),
        "http://test".to_string(),
        "".to_string(),
        "test".to_string(),
        "http://test".to_string(),
        "".to_string(),
    ))
}

#[test]
fn test_parse_tier2_response_hacker() {
    let analysis = deep_tier();
    let response = r#"{"type": "hacker", "attack_types": ["zero_day_suspected", "novel_sqli"], "analysis": "This is a test"}"#;
    let result = analysis.parse_tier2_response(response).unwrap();
    assert_eq!(result.result_type, "hacker");
    assert_eq!(result.attack_types.len(), 2);
    assert_eq!(result.attack_types[0], "zero_day_suspected");
    assert_eq!(result.analysis, "This is a test");
}

#[test]
fn test_parse_tier2_response_normal() {
    let analysis = deep_tier();
    let response = r#"{"type": "normal"}"#;
    let result = analysis.parse_tier2_response(response).unwrap();
    assert_eq!(result.result_type, "normal");
    assert!(result.attack_types.is_empty());
    assert_eq!(result.analysis, "");
}

#[test]
fn parse_tier2_response_errors_and_mixed_arrays() {
    let analysis = deep_tier();
    let missing = analysis.parse_tier2_response(r#"{"analysis": "x"}"#).unwrap_err();
    assert_eq!(missing, "Missing 'type' field in Tier 2 response");
    let bad = analysis.parse_tier2_response("no json here").unwrap_err();
    assert!(bad.starts_with("Failed to parse Tier 2 response JSON: "));
    assert!(bad.ends_with(". Response: no json here"));
    let fenced = "Sure:\n```json\n{\"type\": \"hacker\", \"attack_types\": [\"xss\", 3, \"rce\"]}\n```";
    let result = analysis.parse_tier2_response(fenced).unwrap();
    assert_eq!(result.attack_types, vec!["xss".to_string(), "rce".to_string()]);
}
