use flow_api::errors::ApiError;
use flow_api::gateway_settings::{
    apply_setting_row, i32_text, stored_rows, validate_llm_settings, value_kind, Decoded,
    EncodedSettings, LlmSettings, ProviderPreferences, SettingRow, ValueKind,
};
use flow_api::settings::AgentSoul;

fn row(key: &str, value: &str) -> SettingRow {
    SettingRow {
        key: key.to_string(),
        value: value.to_string(),
    }
}

fn defaults() -> LlmSettings {
    LlmSettings::defaults(vec!["read:traces".to_string()])
}

fn strings(v: &serde_json::Value) -> Option<Vec<String>> {
    v.as_array()
        .map(|a| a.iter().filter_map(|x| x.as_str().map(String::from)).collect())
}

/// Decode provider preferences as a caller of the library does: `None` for
/// a text that is not a JSON object.
fn decode_preferences(text: &str) -> Decoded {
    match serde_json::from_str::<serde_json::Value>(text) {
        Ok(serde_json::Value::Object(m)) => Decoded::Preferences(ProviderPreferences {
            order: m.get("order").and_then(strings),
            only: m.get("only").and_then(strings),
            ignore: m.get("ignore").and_then(strings),
            allow_fallbacks: m.get("allow_fallbacks").and_then(|v| v.as_bool()),
            sort: m.get("sort").and_then(|v| v.as_str().map(String::from)),
        }),
        _ => Decoded::Nothing,
    }
}

fn encoded_empty() -> EncodedSettings {
    EncodedSettings {
        monthly_budget_usd: String::new(),
        per_request_limit_usd: String::new(),
        session_budget_usd: String::new(),
        judge_sample_rate: String::new(),
        provider_preferences: "null".to_string(),
        session_profiles: "[]".to_string(),
        session_labels: "[]".to_string(),
        agent_soul: "{}".to_string(),
    }
}

#[test]
fn default_settings_has_empty_fallback_models() {
    let s = defaults();
    assert!(s.default_fallback_models.is_empty());
}

#[test]
fn default_settings_has_no_provider_preferences() {
    let s = defaults();
    assert!(s.provider_preferences.is_none());
}

#[test]
fn default_settings_fallback_enabled() {
    let s = defaults();
    assert!(s.fallback_enabled);
}

#[test]
fn apply_fallback_enabled_true() {
    let mut s = defaults();
    s.fallback_enabled = false;
    apply_setting_row(&mut s, &row("gateway_fallback_enabled", "true"), Decoded::Nothing);
    assert!(s.fallback_enabled);
}

#[test]
fn apply_fallback_enabled_false() {
    let mut s = defaults();
    apply_setting_row(&mut s, &row("gateway_fallback_enabled", "false"), Decoded::Nothing);
    assert!(!s.fallback_enabled);
}

#[test]
fn apply_default_fallback_models() {
    let mut s = defaults();
    apply_setting_row(
        &mut s,
        &row(
            "gateway_default_fallback_models",
            r#"["gpt-4o","sonnet-4-6"]"#,
        ),
        Decoded::Nothing,
    );
    assert_eq!(s.default_fallback_models.len(), 2);
    assert_eq!(s.default_fallback_models[0], "gpt-4o");
    assert_eq!(s.default_fallback_models[1], "sonnet-4-6");
}

#[test]
fn apply_default_fallback_models_empty_string_keeps_default() {
    let mut s = defaults();
    s.default_fallback_models = vec!["existing".into()];
    apply_setting_row(&mut s, &row("gateway_default_fallback_models", ""), Decoded::Nothing);
    assert_eq!(
        s.default_fallback_models,
        vec!["existing"],
        "Empty value should not overwrite"
    );
}

#[test]
fn apply_default_fallback_models_invalid_json_keeps_default() {
    let mut s = defaults();
    s.default_fallback_models = vec!["existing".into()];
    apply_setting_row(
        &mut s,
        &row("gateway_default_fallback_models", "not-json"),
        Decoded::Nothing,
    );
    assert_eq!(s.default_fallback_models, vec!["existing"]);
}

#[test]
fn apply_provider_preferences_full() {
    let mut s = defaults();
    let json = r#"{
            "order": ["bedrock", "anthropic"],
            "only": ["anthropic", "bedrock"],
            "ignore": ["openai"],
            "allow_fallbacks": false,
            "sort": "latency"
        }"#;
    apply_setting_row(
        &mut s,
        &row("gateway_provider_preferences", json),
        decode_preferences(json),
    );

    let prefs = s.provider_preferences.unwrap();
    assert_eq!(prefs.order.as_ref().unwrap().len(), 2);
    assert_eq!(prefs.only.as_ref().unwrap().len(), 2);
    assert_eq!(prefs.ignore.as_ref().unwrap(), &vec!["openai".to_string()]);
    assert_eq!(prefs.allow_fallbacks, Some(false));
    assert_eq!(prefs.sort.as_deref(), Some("latency"));
}

#[test]
fn apply_provider_preferences_empty_string_keeps_none() {
    let mut s = defaults();
    apply_setting_row(
        &mut s,
        &row("gateway_provider_preferences", ""),
        decode_preferences(""),
    );
    assert!(s.provider_preferences.is_none());
}

#[test]
fn apply_provider_preferences_null_string_keeps_none() {
    let mut s = defaults();
    apply_setting_row(
        &mut s,
        &row("gateway_provider_preferences", "null"),
        decode_preferences("null"),
    );
    assert!(
        s.provider_preferences.is_none(),
        "JSON 'null' should not deserialize into Some(ProviderPreferences)"
    );
}

#[test]
fn apply_provider_preferences_minimal() {
    let mut s = defaults();
    let json = r#"{"sort":"latency"}"#;
    apply_setting_row(
        &mut s,
        &row("gateway_provider_preferences", json),
        decode_preferences(json),
    );
    let prefs = s.provider_preferences.unwrap();
    assert_eq!(prefs.sort.as_deref(), Some("latency"));
    assert!(prefs.order.is_none());
    assert!(prefs.only.is_none());
}

#[test]
fn defaults_hold_the_documented_values() {
    let s = defaults();
    assert!(!s.introspection_enabled);
    assert_eq!(s.thinking_budget_tokens, 10000);
    assert_eq!(
        s.fallback_order,
        Some(vec!["anthropic".to_string(), "openai".to_string(), "google".to_string()])
    );
    assert_eq!(s.retry_max_attempts, 3);
    assert_eq!(s.rate_limit_rpm, 60);
    assert_eq!(s.guardrails, "{}");
    assert_eq!(s.agent_scopes, vec!["read:traces".to_string()]);
    assert!(s.agent_soul.is_empty());
}

#[test]
fn integers_fall_back_to_their_defaults() {
    let mut s = defaults();
    apply_setting_row(&mut s, &row("gateway_rate_limit_rpm", "120"), Decoded::Nothing);
    assert_eq!(s.rate_limit_rpm, 120);
    apply_setting_row(&mut s, &row("gateway_rate_limit_rpm", "lots"), Decoded::Nothing);
    assert_eq!(s.rate_limit_rpm, 60);
    apply_setting_row(&mut s, &row("gateway_retry_max_attempts", "-2"), Decoded::Nothing);
    assert_eq!(s.retry_max_attempts, -2);
    apply_setting_row(&mut s, &row("gateway_retry_max_attempts", ""), Decoded::Nothing);
    assert_eq!(s.retry_max_attempts, 3);
}

#[test]
fn amounts_come_from_the_decoded_number() {
    let mut s = defaults();
    let ten = 10.0f64.to_bits();
    apply_setting_row(&mut s, &row("gateway_monthly_budget_usd", "10"), Decoded::Number(ten));
    assert_eq!(s.monthly_budget_usd, Some(ten));
    apply_setting_row(&mut s, &row("gateway_monthly_budget_usd", "ten"), Decoded::Nothing);
    assert_eq!(s.monthly_budget_usd, None);
    apply_setting_row(
        &mut s,
        &row("gateway_judge_sample_rate", "0"),
        Decoded::Number(0.0f64.to_bits()),
    );
    assert_eq!(s.judge_sample_rate, None);
    apply_setting_row(
        &mut s,
        &row("gateway_judge_sample_rate", "0.25"),
        Decoded::Number(0.25f64.to_bits()),
    );
    assert_eq!(s.judge_sample_rate, Some(0.25f64.to_bits()));
}

#[test]
fn structured_settings_need_text_and_a_decoding() {
    let mut s = defaults();
    let mut soul = AgentSoul::empty();
    soul.tone = Some("terse".to_string());
    apply_setting_row(&mut s, &row("gateway_agent_soul", ""), Decoded::Soul(soul));
    assert!(s.agent_soul.is_empty());
    let mut soul = AgentSoul::empty();
    soul.tone = Some("terse".to_string());
    apply_setting_row(&mut s, &row("gateway_agent_soul", "{\"tone\":\"terse\"}"), Decoded::Soul(soul));
    assert_eq!(s.agent_soul.tone.as_deref(), Some("terse"));
    apply_setting_row(&mut s, &row("gateway_guardrails", "{\"pii\":true}"), Decoded::Nothing);
    assert_eq!(s.guardrails, "{}");
    apply_setting_row(
        &mut s,
        &row("gateway_guardrails", "{\"pii\":true}"),
        Decoded::GuardrailConfig,
    );
    assert_eq!(s.guardrails, "{\"pii\":true}");
}

#[test]
fn unknown_keys_change_nothing() {
    let mut s = defaults();
    apply_setting_row(&mut s, &row("gateway_nonsense", "true"), Decoded::Number(7));
    apply_setting_row(&mut s, &row("introspection_enabled", "true"), Decoded::Nothing);
    assert!(!s.introspection_enabled);
    assert_eq!(value_kind("gateway_nonsense"), ValueKind::Unknown);
}

#[test]
fn value_kinds_name_how_to_read_each_key() {
    assert_eq!(value_kind("gateway_budget_hard_stop"), ValueKind::Flag);
    assert_eq!(value_kind("gateway_thinking_budget_tokens"), ValueKind::Integer);
    assert_eq!(value_kind("gateway_session_budget_usd"), ValueKind::Number);
    assert_eq!(value_kind("gateway_agent_scopes"), ValueKind::StringList);
    assert_eq!(value_kind("gateway_guardrails"), ValueKind::GuardrailConfig);
    assert_eq!(value_kind("gateway_provider_preferences"), ValueKind::Preferences);
    assert_eq!(value_kind("gateway_session_profiles"), ValueKind::Profiles);
    assert_eq!(value_kind("gateway_session_labels"), ValueKind::Labels);
    assert_eq!(value_kind("gateway_agent_soul"), ValueKind::Soul);
}

#[test]
fn integers_are_written_in_decimal() {
    assert_eq!(i32_text(0), "0");
    assert_eq!(i32_text(200000), "200000");
    assert_eq!(i32_text(-17), "-17");
    assert_eq!(i32_text(i32::MIN), "-2147483648");
}

#[test]
fn an_update_is_stored_row_by_row() {
    let mut s = defaults();
    s.budget_hard_stop = true;
    s.thinking_budget_tokens = 2048;
    s.fallback_order = None;
    let mut e = encoded_empty();
    e.monthly_budget_usd = "12.5".to_string();
    let rows = stored_rows(&s, e);
    assert_eq!(rows.len(), 23);
    assert_eq!(rows[0].key, "gateway_introspection_enabled");
    assert_eq!(rows[0].value, "false");
    assert_eq!(rows[1].value, "2048");
    assert_eq!(rows[3].key, "gateway_fallback_order");
    assert_eq!(rows[3].value, "null");
    assert_eq!(rows[6].value, "12.5");
    assert_eq!(rows[8].key, "gateway_budget_hard_stop");
    assert_eq!(rows[8].value, "true");
    assert_eq!(rows[15].key, "gateway_agent_scopes");
    assert_eq!(rows[15].value, "[\"read:traces\"]");
    assert_eq!(rows[22].key, "gateway_agent_soul");
    assert_eq!(rows[22].value, "{}");
}

#[test]
fn stored_flags_and_numbers_read_back() {
    let mut s = defaults();
    s.introspection_enabled = true;
    s.retry_enabled = false;
    s.retry_max_attempts = 7;
    s.rate_limit_rpm = -5;
    s.auto_investigate = true;
    s.default_fallback_models = vec!["gpt-4o".to_string()];
    let rows = stored_rows(&s, encoded_empty());
    let mut back = LlmSettings::defaults(Vec::new());
    for r in &rows {
        apply_setting_row(&mut back, r, Decoded::Nothing);
    }
    assert!(back.introspection_enabled);
    assert!(!back.retry_enabled);
    assert_eq!(back.retry_max_attempts, 7);
    assert_eq!(back.rate_limit_rpm, -5);
    assert!(back.auto_investigate);
    assert_eq!(back.default_fallback_models, vec!["gpt-4o".to_string()]);
    assert_eq!(back.agent_scopes, vec!["read:traces".to_string()]);
    assert_eq!(back.fallback_order, s.fallback_order);
}

#[test]
fn validation_reads_amounts_by_their_bits() {
    let mut s = defaults();
    assert!(validate_llm_settings(&s, None, None).is_ok());
    s.monthly_budget_usd = Some((-1.0f64).to_bits());
    s.per_request_limit_usd = Some((-0.0f64).to_bits());
    s.judge_sample_rate = Some(1.5f64.to_bits());
    s.retry_max_attempts = 0;
    match validate_llm_settings(&s, None, None) {
        Err(ApiError::Validation(m)) => assert_eq!(
            m,
            "retry_max_attempts must be between 1 and 10; monthly_budget_usd cannot be negative; judge_sample_rate must be between 0.0 and 1.0"
        ),
        other => panic!("unexpected {:?}", other),
    }
    s.monthly_budget_usd = Some(f64::NAN.to_bits());
    s.judge_sample_rate = Some(1.0f64.to_bits());
    s.retry_max_attempts = 10;
    assert!(validate_llm_settings(&s, None, None).is_ok());
    s.judge_sample_rate = Some(f64::NAN.to_bits());
    assert!(validate_llm_settings(&s, None, None).is_err());
}
