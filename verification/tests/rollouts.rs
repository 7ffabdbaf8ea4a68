use flow_api::decimal::DecimalValue;
use flow_api::errors::ApiError;
use flow_api::rollouts::{
    check_config_deletable, duplicate_config_name, list_rollouts_sql, rollouts_limit,
    validate_config_name,
    default_stages, validate_rollout_stages, validate_version_request, CreateVersionRequest,
    RolloutMode, RolloutProgress, RolloutStatus, StageConfig, StageStatus,
};

fn dec(mantissa: i128, scale: u32) -> DecimalValue {
    DecimalValue { mantissa, scale }
}

fn make_version_request() -> CreateVersionRequest {
    CreateVersionRequest {
        project_id: uuid::Uuid::new_v4().as_u128(),
        system_prompt: Some("You are helpful.".to_string()),
        model: None,
        temperature: dec(5, 1),
        max_tokens: None,
        commit_message: "Initial version".to_string(),
        tools_size: None,
        response_format_size: None,
    }
}

fn validation_message(r: Result<(), ApiError>) -> String {
    match r {
        Err(ApiError::Validation(m)) => m,
        other => panic!("expected a validation error, got {other:?}"),
    }
}

#[test]
fn test_version_temperature_default_is_valid() {
    let req = make_version_request();
    assert!(validate_version_request(&req, Ok(())).is_ok());
}

#[test]
fn test_version_temperature_zero_is_valid() {
    let mut req = make_version_request();
    req.temperature = dec(0, 0);
    assert!(validate_version_request(&req, Ok(())).is_ok());
}

#[test]
fn test_version_temperature_mid_is_valid() {
    let mut req = make_version_request();
    req.temperature = dec(5, 1);
    assert!(validate_version_request(&req, Ok(())).is_ok());
}

#[test]
fn test_version_temperature_one_is_valid() {
    let mut req = make_version_request();
    req.temperature = dec(1, 0);
    assert!(validate_version_request(&req, Ok(())).is_ok());
}

#[test]
fn test_version_temperature_above_one_rejected() {
    let mut req = make_version_request();
    req.temperature = dec(11, 1);
    assert!(validation_message(validate_version_request(&req, Ok(()))).contains("Temperature"));
}

#[test]
fn test_version_temperature_1_9_rejected() {
    let mut req = make_version_request();
    req.temperature = dec(19, 1);
    assert!(validation_message(validate_version_request(&req, Ok(()))).contains("Temperature"));
}

#[test]
fn test_version_temperature_negative_rejected() {
    let mut req = make_version_request();
    req.temperature = dec(-1, 1);
    assert!(validation_message(validate_version_request(&req, Ok(()))).contains("Temperature"));
}

#[test]
fn test_version_commit_message_valid() {
    let req = make_version_request();
    assert!(validate_version_request(&req, Ok(())).is_ok());
}

#[test]
fn test_version_commit_message_empty_rejected() {
    let mut req = make_version_request();
    req.commit_message = "".to_string();
    assert!(validation_message(validate_version_request(&req, Ok(()))).contains("Commit message"));
}

#[test]
fn test_version_commit_message_blank_rejected() {
    let mut req = make_version_request();
    req.commit_message = "   ".to_string();
    assert!(validation_message(validate_version_request(&req, Ok(()))).contains("Commit message"));
}

#[test]
fn test_version_max_tokens_none_is_valid() {
    let req = make_version_request();
    assert!(validate_version_request(&req, Ok(())).is_ok());
}

#[test]
fn test_version_max_tokens_one_is_valid() {
    let mut req = make_version_request();
    req.max_tokens = Some(1);
    assert!(validate_version_request(&req, Ok(())).is_ok());
}

#[test]
fn test_version_max_tokens_million_is_valid() {
    let mut req = make_version_request();
    req.max_tokens = Some(1_000_000);
    assert!(validate_version_request(&req, Ok(())).is_ok());
}

#[test]
fn test_version_max_tokens_zero_rejected() {
    let mut req = make_version_request();
    req.max_tokens = Some(0);
    assert!(validation_message(validate_version_request(&req, Ok(()))).contains("max_tokens"));
}

#[test]
fn test_version_max_tokens_negative_rejected() {
    let mut req = make_version_request();
    req.max_tokens = Some(-1);
    assert!(validation_message(validate_version_request(&req, Ok(()))).contains("max_tokens"));
}

#[test]
fn test_version_max_tokens_above_million_rejected() {
    let mut req = make_version_request();
    req.max_tokens = Some(1_000_001);
    assert!(validation_message(validate_version_request(&req, Ok(()))).contains("max_tokens"));
}

#[test]
fn version_size_and_variable_errors() {
    let mut req = make_version_request();
    req.tools_size = Some(262_145);
    assert_eq!(
        validation_message(validate_version_request(&req, Ok(()))),
        "Tools definition exceeds 256KB limit"
    );
    let mut req = make_version_request();
    req.response_format_size = Some(65_537);
    assert_eq!(
        validation_message(validate_version_request(&req, Ok(()))),
        "Response format schema exceeds 64KB limit"
    );
    let req = make_version_request();
    assert_eq!(
        validation_message(validate_version_request(&req, Err("bad variable".into()))),
        "bad variable"
    );
    let mut req = make_version_request();
    req.system_prompt = Some("x".repeat(5_242_881));
    assert_eq!(
        validation_message(validate_version_request(&req, Ok(()))),
        "System prompt exceeds 5MB limit"
    );
}

fn stage(weight: i32) -> StageConfig {
    StageConfig {
        weight,
        min_duration_minutes: Some(10),
        min_requests: Some(100),
        max_error_rate_increase: None,
        max_latency_increase_pct: None,
        min_quality_score: None,
    }
}

#[test]
fn test_stages_valid_three_stage() {
    let stages = vec![stage(25), stage(50), stage(100)];
    assert!(validate_rollout_stages(&stages).is_ok());
}

#[test]
fn test_stages_single_stage_at_100() {
    let stages = vec![stage(100)];
    assert!(validate_rollout_stages(&stages).is_ok());
}

#[test]
fn test_stages_empty_rejected() {
    assert!(validation_message(validate_rollout_stages(&[])).contains("At least one stage"));
}

#[test]
fn test_stages_non_ascending_rejected() {
    let stages = vec![stage(50), stage(25), stage(100)];
    assert!(validation_message(validate_rollout_stages(&stages)).contains("ascending"));
}

#[test]
fn test_stages_duplicate_weights_rejected() {
    let stages = vec![stage(50), stage(50), stage(100)];
    assert!(validation_message(validate_rollout_stages(&stages)).contains("ascending"));
}

#[test]
fn test_stages_final_not_100_rejected() {
    let stages = vec![stage(25), stage(75)];
    assert!(validation_message(validate_rollout_stages(&stages)).contains("weight 100"));
}

#[test]
fn test_stages_zero_weight_rejected() {
    let stages = vec![stage(0), stage(50), stage(100)];
    assert!(validation_message(validate_rollout_stages(&stages)).contains("positive"));
}

#[test]
fn test_stages_negative_weight_rejected() {
    let stages = vec![stage(-5), stage(50), stage(100)];
    assert!(validation_message(validate_rollout_stages(&stages)).contains("positive"));
}

#[test]
fn default_plan_is_valid_and_ends_at_full_weight() {
    let stages = default_stages();
    assert_eq!(stages.len(), 7);
    assert_eq!(stages[0].weight, 1);
    assert_eq!(stages[6].weight, 100);
    assert!(validate_rollout_stages(&stages).is_ok());
    assert_eq!(RolloutMode::default_mode().as_str(), "auto");
}

fn pending(n: usize) -> RolloutProgress {
    RolloutProgress {
        status: RolloutStatus::Pending,
        current_stage: 0,
        current_weight: 0,
        stages: vec![StageStatus::Pending; n],
    }
}

#[test]
fn rollout_lifecycle_through_all_stages() {
    let weights = vec![25, 50, 100];
    let r = pending(3).start(&weights).unwrap();
    assert_eq!((r.status, r.current_stage, r.current_weight), (RolloutStatus::Running, 0, 25));
    assert_eq!(r.stages, vec![StageStatus::Active, StageStatus::Pending, StageStatus::Pending]);
    let r = r.promote(&weights).unwrap();
    assert_eq!((r.current_stage, r.current_weight), (1, 50));
    assert_eq!(r.stages, vec![StageStatus::Passed, StageStatus::Active, StageStatus::Pending]);
    let r = r.promote(&weights).unwrap().promote(&weights).unwrap();
    assert_eq!((r.status, r.current_weight), (RolloutStatus::Completed, 100));
    assert_eq!(r.stages, vec![StageStatus::Passed; 3]);
    match r.promote(&weights) {
        Err(ApiError::Validation(m)) => assert_eq!(m, "Rollout not found or not running"),
        _ => panic!("a completed rollout cannot be promoted"),
    }
}

#[test]
fn rollout_pause_rollback_and_complete() {
    let weights = vec![10, 100];
    let r = pending(2).start(&weights).unwrap().pause().unwrap();
    assert_eq!(r.status, RolloutStatus::Paused);
    assert!(r.pause().is_err());
    let back = r.rollback().unwrap();
    assert_eq!((back.status, back.current_weight), (RolloutStatus::RolledBack, 0));
    assert_eq!(back.stages, vec![StageStatus::Failed, StageStatus::Pending]);
    let done = r.complete().unwrap();
    assert_eq!((done.status, done.current_weight), (RolloutStatus::Completed, 100));
    assert_eq!(done.stages, vec![StageStatus::Passed, StageStatus::Passed]);
    assert!(pending(2).rollback().is_err());
    assert_eq!(pending(0).start(&vec![]).unwrap().current_weight, 1);
}

#[test]
fn config_names_are_checked() {
    assert!(validate_config_name("checkout-bot").is_ok());
    assert!(validate_config_name(&"x".repeat(255)).is_ok());
    match validate_config_name("   ") {
        Err(ApiError::Validation(m)) => assert_eq!(m, "Name cannot be empty"),
        other => panic!("unexpected {:?}", other),
    }
    // 128 two-byte characters are 256 bytes.
    match validate_config_name(&"\u{e9}".repeat(128)) {
        Err(ApiError::Validation(m)) => assert_eq!(m, "Name cannot exceed 255 characters"),
        other => panic!("unexpected {:?}", other),
    }
    match duplicate_config_name("bot") {
        ApiError::Validation(m) => assert_eq!(m, "A prompt config with name 'bot' already exists in this project"),
        other => panic!("unexpected {:?}", other),
    }
    assert!(check_config_deletable(false).is_ok());
    assert!(matches!(check_config_deletable(true), Err(ApiError::Validation(_))));
}

#[test]
fn rollout_listings_number_their_filters() {
    assert_eq!(rollouts_limit(20), 20);
    assert_eq!(rollouts_limit(500), 100);
    let q = list_rollouts_sql(false, false);
    assert!(q.contains("WHERE r.project_id = $1\n"));
    assert!(q.ends_with(" ORDER BY r.created_at DESC LIMIT $2 OFFSET $3"));
    assert!(!q.contains("$4"));
    let q = list_rollouts_sql(true, true);
    assert!(q.contains(" AND r.config_id = $4 AND r.status = $5 ORDER BY"));
    let q = list_rollouts_sql(false, true);
    assert!(q.contains(" AND r.status = $4 ORDER BY"));
}
