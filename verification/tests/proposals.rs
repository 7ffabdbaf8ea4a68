use flow_api::errors::ApiError;
use flow_api::proposals::{
    check_commit_not_running, check_new_rollout, commit_baseline, compiler_commit_message,
    compiler_rollout_name, default_temperature, is_summarizable, proposal_commit_message,
    proposer,
};

#[test]
fn proposals_default_to_the_agent_and_half_temperature() {
    assert_eq!(proposer(&None), "agent");
    assert_eq!(proposer(&Some("alice".to_string())), "alice");
    let t = default_temperature();
    assert_eq!((t.mantissa, t.scale), (5, 1));
}

#[test]
fn short_reasoning_is_quoted_whole() {
    assert_eq!(proposal_commit_message("tighter tone"), "Prompt Compiler: tighter tone");
    let exactly = "x".repeat(100);
    assert_eq!(proposal_commit_message(&exactly), format!("Prompt Compiler: {}", exactly));
}

#[test]
fn long_reasoning_is_cut_at_a_hundred_bytes() {
    let long = "a".repeat(150);
    assert_eq!(
        proposal_commit_message(&long),
        format!("Prompt Compiler: {}...", "a".repeat(100))
    );
    // 98 ASCII bytes, then a two-byte character ending at byte 100.
    let mixed = format!("{}\u{e9}tail", "b".repeat(98));
    assert!(is_summarizable(&mixed));
    assert_eq!(
        proposal_commit_message(&mixed),
        format!("Prompt Compiler: {}\u{e9}...", "b".repeat(98))
    );
    // 99 ASCII bytes, then a two-byte character across byte 100.
    let across = format!("{}\u{e9}tail", "c".repeat(99));
    assert!(!is_summarizable(&across));
}

#[test]
fn compiler_versions_and_rollouts_are_named() {
    assert_eq!(compiler_rollout_name(7), "Prompt Compiler rollout v7");
    assert_eq!(compiler_commit_message("fewer retries"), "[Compiler] fewer retries");
}

#[test]
fn a_commit_needs_an_active_version_and_no_running_rollout() {
    let v = 9u128;
    assert_eq!(commit_baseline(Some(v)).unwrap(), v);
    match commit_baseline(None) {
        Err(ApiError::Validation(m)) => assert_eq!(m, "Prompt config has no active version"),
        other => panic!("unexpected {:?}", other),
    }
    assert!(check_commit_not_running(false).is_ok());
    match check_commit_not_running(true) {
        Err(ApiError::Validation(m)) => assert_eq!(
            m,
            "This prompt already has a running rollout. Stop it before creating a new one."
        ),
        other => panic!("unexpected {:?}", other),
    }
}

#[test]
fn a_rollout_deploys_another_version_with_none_running() {
    let a = 1u128;
    let b = 2u128;
    assert!(check_new_rollout(&b, &Some(a), false).is_ok());
    assert!(check_new_rollout(&b, &None, false).is_ok());
    match check_new_rollout(&a, &Some(a), true) {
        Err(ApiError::Validation(m)) => assert_eq!(m, "Target version is already the active version"),
        other => panic!("unexpected {:?}", other),
    }
    match check_new_rollout(&b, &Some(a), true) {
        Err(ApiError::Validation(m)) => assert_eq!(m, "Config already has a running rollout. Stop it first."),
        other => panic!("unexpected {:?}", other),
    }
}
