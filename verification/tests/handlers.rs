use hmac::Mac;

use flow_api::a2a::{
    check_envelope, internal_error_status, message_text, outcome_status, verify_signature,
};
use flow_api::decimal::DecimalValue;
use flow_api::errors::ApiError;
use flow_api::executor::LoopOutcome;
use flow_api::gateway::{
    backoff_ms, classify_error, error_source_chain, exhausted_error, finish_lines, push_chunk,
    retry_delay, retry_policy_for, sse_data, take_line, GatewayCallError, MAX_SEND_ATTEMPTS,
};
use flow_api::integrations::{
    cloudflare_models_url, connection_test_for, plan_credentials, slot_id, test_base_url,
    validate_provider, ConnectionTest, Credentials, SlotField,
};
use flow_api::playground::{apply_introspection, gateway_call_err_to_app_err, provider_from_model, Introspection, ProviderFamily};
use flow_api::scores::{validate_score, ScoreType};
use flow_api::sessions::{
    sessions_count_sql, sessions_limit, sessions_list_sql, sessions_where, validate_feedback,
    SessionListFilters, SubmitFeedbackRequest,
};
use flow_api::slots::{check_deposit, deposit_outcome, DepositRequest};
use flow_api::sql::escape_clickhouse_string;
use flow_api::tasks::{
    admit_investigation, admit_task, catalog_summary, investigation_record, is_catalog_sync,
    model_slugs, task_prompt, task_record, task_user_message, RunRecord, TaskVariables,
};

#[test]
fn classify_error_by_status_and_body() {
    assert!(matches!(classify_error(429, "", Some(1500)), GatewayCallError::RateLimited { retry_after_ms: Some(1500) }));
    assert!(matches!(classify_error(400, "maximum context length exceeded", None), GatewayCallError::ContextTooLong));
    assert!(matches!(classify_error(503, "down", None), GatewayCallError::Transient { status: 503, .. }));
    assert!(matches!(classify_error(404, "nope", None), GatewayCallError::Fatal { status: 404, .. }));
}

#[test]
fn retries_are_bounded_and_back_off() {
    let err = GatewayCallError::RateLimited { retry_after_ms: None };
    let p = retry_policy_for(&err).unwrap();
    assert!(backoff_ms(&p, 1, None) >= backoff_ms(&p, 0, None));
    assert_eq!(backoff_ms(&p, 0, Some(1234)), 1234);
    assert!(retry_delay(0, &err).is_some());
    assert!(retry_delay(MAX_SEND_ATTEMPTS - 1, &err).is_none());
    assert!(retry_policy_for(&GatewayCallError::ContextTooLong).is_none());
    assert!(matches!(exhausted_error(None), GatewayCallError::Fatal { status: 0, .. }));
    assert_eq!(error_source_chain(&vec!["a".into(), "b".into()]), "a -> b");
}

#[test]
fn event_stream_lines_are_split_and_decoded() {
    let mut buf = String::new();
    push_chunk(&mut buf, "data: {\"a\":1}\r\n\ndata: [DO".as_bytes());
    assert_eq!(take_line(&mut buf).as_deref(), Some("data: {\"a\":1}"));
    assert_eq!(take_line(&mut buf), None);
    push_chunk(&mut buf, "NE]\n".as_bytes());
    let line = take_line(&mut buf).unwrap();
    assert_eq!(line, "data: [DONE]");
    assert_eq!(sse_data(&line), None);
    assert_eq!(sse_data("data: {}").as_deref(), Some("{}"));
    push_chunk(&mut buf, b"  tail \xff");
    assert_eq!(finish_lines(&mut buf).as_deref(), Some("tail \u{fffd}"));
    assert_eq!(buf, "");
}

#[test]
fn a2a_signature_and_envelope() {
    let secret = "s3cret";
    let body = b"{\"jsonrpc\":\"2.0\"}";
    let mut mac = hmac::Hmac::<sha2::Sha256>::new_from_slice(secret.as_bytes()).unwrap();
    mac.update(body);
    let good = hex::encode(mac.finalize().into_bytes());
    assert!(verify_signature(secret, body, Some(good.as_bytes())).is_ok());
    let e = verify_signature(secret, body, Some(b"deadbeef")).unwrap_err();
    assert_eq!((e.code, e.message.as_str()), (-32600, "Invalid signature"));
    let e = verify_signature(secret, body, None).unwrap_err();
    assert_eq!(e.message, "Missing X-Herd-Signature header");
    assert!(check_envelope("2.0", "SendMessage").is_ok());
    assert!(check_envelope("2.0", "message/send").is_ok());
    assert_eq!(check_envelope("1.0", "SendMessage").unwrap_err().code, -32600);
    assert!(check_envelope("2.0", "other").is_err());
}

#[test]
fn a2a_message_text_and_status() {
    assert_eq!(message_text(&vec![Some("a".into()), None, Some("b".into())]).unwrap(), "a\nb");
    assert_eq!(message_text(&vec![None]).unwrap_err().code, -32602);
    let (state, text) = outcome_status(&LoopOutcome::ModelError { error: "x".into(), turns_completed: 1 });
    assert_eq!((state, text.as_str()), ("failed", "Model error: x"));
    let (state, text) = outcome_status(&LoopOutcome::MaxTurns { assistant_text: "t".into(), turns_used: 3 });
    assert_eq!((state, text.as_str()), ("completed", "t"));
    assert_eq!(internal_error_status("e").1, "Internal error: e");
}

#[test]
fn integration_rules() {
    assert!(validate_provider("openai", true).is_ok());
    match validate_provider("acme", false) {
        Err(ApiError::BadRequest(m)) => assert_eq!(m, "Unsupported provider: acme"),
        _ => panic!("expected a refusal"),
    }
    match plan_credentials("bedrock", false, None, None, Some("AK".into()), None, None, Some("SK".into()), None) {
        Ok(Credentials::Bedrock { access_key_id, secret_access_key, region }) => {
            assert_eq!((access_key_id.as_str(), secret_access_key.as_str(), region.as_str()), ("AK", "SK", "us-east-1"));
        }
        other => panic!("unexpected {other:?}"),
    }
    assert!(plan_credentials("openai", false, None, None, None, None, None, None, None).is_err());
    match plan_credentials("openai", false, Some("slot".into()), Some("direct".into()), None, None, None, None, None) {
        Ok(Credentials::ApiKey(k)) => assert_eq!(k, "slot"),
        other => panic!("unexpected {other:?}"),
    }
    assert_eq!(cloudflare_models_url("https://x/acct//"), "https://x/acct/models");
    assert!(matches!(connection_test_for("anthropic"), ConnectionTest::Anthropic));
    let t = connection_test_for("theta-dedicated");
    match test_base_url(&t, None, None) {
        Err(ApiError::BadRequest(m)) => assert_eq!(m, "Base URL not configured for Theta Dedicated"),
        _ => panic!("expected a refusal"),
    }
    assert_eq!(test_base_url(&t, None, Some("u".into())).unwrap(), "u");
}

#[test]
fn playground_rules() {
    assert_eq!(provider_from_model("openai/gpt-4o", None), "openai");
    assert_eq!(provider_from_model("gpt-4o", Some("openai")), "openai");
    assert_eq!(apply_introspection("o3-mini", ProviderFamily::OpenAi), Introspection::ReasoningMedium);
    assert_eq!(apply_introspection("gpt-4o", ProviderFamily::OpenAi), Introspection::Nothing);
    assert_eq!(apply_introspection("sonnet-4", ProviderFamily::Anthropic), Introspection::Thinking { budget_tokens: 10_000 });
    match gateway_call_err_to_app_err(GatewayCallError::Fatal { status: 400, body: "bad".into() }) {
        ApiError::BadRequest(m) => assert_eq!(m, "bad"),
        _ => panic!("expected a bad request"),
    }
}

#[test]
fn small_validations() {
    assert!(validate_score(&ScoreType::Boolean, DecimalValue { mantissa: 10, scale: 1 }).is_ok());
    assert!(validate_score(&ScoreType::Boolean, DecimalValue { mantissa: 2, scale: 0 }).is_err());
    assert!(validate_score(&ScoreType::Number, DecimalValue { mantissa: 10001, scale: 2 }).is_err());
    assert!(validate_score(&ScoreType::Number, DecimalValue { mantissa: 10000, scale: 2 }).is_ok());
    assert!(validate_feedback(&SubmitFeedbackRequest { score: None, text: Some("  ".into()) }).is_err());
    assert!(validate_feedback(&SubmitFeedbackRequest { score: Some(6), text: None }).is_err());
    assert!(validate_feedback(&SubmitFeedbackRequest { score: Some(5), text: None }).is_ok());
    assert!(check_deposit(&DepositRequest { value: "".into() }).is_err());
    assert!(matches!(deposit_outcome(0), Err(ApiError::Gone(_))));
    assert!(deposit_outcome(1).is_ok());
    assert_eq!(escape_clickhouse_string("a'b\\c"), "a\\'b\\\\c");
}

#[test]
fn investigation_and_task_decisions() {
    assert_eq!(admit_investigation(&Some("true".into()), &None, false), Ok(()));
    assert_eq!(admit_investigation(&None, &None, false), Err(409));
    assert_eq!(admit_investigation(&Some("true".into()), &Some("false".into()), false), Err(409));
    assert_eq!(admit_investigation(&Some("true".into()), &Some("true".into()), true), Err(429));
    assert!(matches!(admit_task(true), Err(ApiError::Conflict(_))));
    match investigation_record(&LoopOutcome::ModelError { error: "boom".into(), turns_completed: 2 }) {
        RunRecord::Failed { text } => assert_eq!(text, "Investigation stopped (model_error): boom"),
        _ => panic!("expected a failure"),
    }
    match task_record(&LoopOutcome::MaxTurns { assistant_text: "partial".into(), turns_used: 15 }) {
        RunRecord::Failed { text } => assert_eq!(text, "Task stopped (max_turns): partial"),
        _ => panic!("expected a failure"),
    }
    match task_record(&LoopOutcome::MaxTurns { assistant_text: "".into(), turns_used: 15 }) {
        RunRecord::Failed { text } => assert_eq!(text, "Task stopped (max_turns)"),
        _ => panic!("expected a failure"),
    }
    match investigation_record(&LoopOutcome::Completed { assistant_text: "found it".into() }) {
        RunRecord::Completed { findings } => assert_eq!(findings, "found it"),
        _ => panic!("expected completion"),
    }
    assert_eq!(task_user_message("pricing_audit", ""), "Execute the pricing_audit task.");
    assert_eq!(task_user_message("x", "do this"), "do this");
    assert_eq!(task_prompt("prompt_compiler"), ("moodeng-prompt-compiler".to_string(), TaskVariables::ConfigId));
    assert_eq!(task_prompt("other"), ("moodeng-agent-task".to_string(), TaskVariables::WholeContext));
    assert!(is_catalog_sync("pricing_sync"));
    assert_eq!(model_slugs("openai/gpt-4o/mini"), Some(("openai".into(), "gpt-4o/mini".into())));
    assert_eq!(model_slugs("noslash"), None);
    assert_eq!(catalog_summary(10, 8, 2), "Model catalog sync complete: 10 fetched, 8 upserted, 2 errors");
}

#[test]
fn session_listing_numbers_its_parameters() {
    let f = SessionListFilters { name_pattern: true, start_date: false, end_date: true, profile_id: true };
    let (w, n) = sessions_where(f);
    assert_eq!(n, 4);
    assert!(w.starts_with("s.project_id = $1 AND s.session_name ILIKE '%' || $2 || '%'"));
    assert!(w.contains("s.last_request_time <= $3"));
    assert!(w.ends_with("spm.profile_id = $4)"));
    let q = sessions_list_sql(f);
    assert!(q.contains("LIMIT $5 OFFSET $6"));
    assert!(sessions_count_sql(f).starts_with("SELECT COUNT(*) FROM saved_sessions s WHERE s.project_id = $1"));
    let none = SessionListFilters { name_pattern: false, start_date: false, end_date: false, profile_id: false };
    assert_eq!(sessions_where(none), ("s.project_id = $1".to_string(), 1));
    assert_eq!(sessions_limit(5000), 1000);
}

#[test]
fn chunk_split_inside_a_character_is_decoded_lossily() {
    let mut buf = String::from("ab");
    push_chunk(&mut buf, &[0x63, 0xe2, 0x82]);
    assert_eq!(buf, "abc\u{fffd}");
    push_chunk(&mut buf, &[0xac, 0x0a]);
    assert_eq!(buf, "abc\u{fffd}\u{fffd}\n");
}

#[test]
fn slot_ids_must_be_uuids() {
    let id = "67e55044-10b1-426f-9247-bb680e5fe0c8";
    assert_eq!(slot_id(SlotField::SecretSlot, id).unwrap(), 0x67e5_5044_10b1_426f_9247_bb68_0e5f_e0c8);
    match slot_id(SlotField::SecretSlot, "slot-1") {
        Err(ApiError::BadRequest(m)) => assert_eq!(m, "Invalid secret_slot ID"),
        other => panic!("unexpected {:?}", other),
    }
    match slot_id(SlotField::AccessKeySlot, "") {
        Err(ApiError::BadRequest(m)) => assert_eq!(m, "Invalid access_key_slot ID"),
        other => panic!("unexpected {:?}", other),
    }
    match slot_id(SlotField::SecretKeySlot, "67e55044") {
        Err(ApiError::BadRequest(m)) => assert_eq!(m, "Invalid secret_key_slot ID"),
        other => panic!("unexpected {:?}", other),
    }
}
