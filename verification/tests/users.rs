use flow_api::errors::ApiError;
use flow_api::users::{
    aggregate_query, check_user_id, default_list_limit, detail_query, has_saved_content,
    has_user_evidence, list_query, saved_session_path,
};

const NIL: &str = "00000000-0000-0000-0000-000000000000";

#[test]
fn query_is_project_scoped_and_excludes_blank() {
    let q = list_query(NIL, 50, 0);
    assert!(q.matches(NIL).count() >= 2);
    assert!(q.contains("notEmpty(replaceRegexpAll(user_id, '[[:space:]]', ''))"));
}

#[test]
fn opaque_id_is_exact_and_escaped() {
    let q = detail_query(NIL, "guest-O'Reilly%_\\x");
    assert!(q.contains("user_id = 'guest-O\\'Reilly%_\\\\x'"));
    assert!(!q.contains("LIKE"));
}

#[test]
fn whitespace_only_ids_are_unattributed_without_normalizing_valid_ids() {
    for id in ["", " ", " \t\n"] {
        assert!(check_user_id(id).is_err());
    }
    assert!(check_user_id("account with internal spaces").is_ok());
    let q = aggregate_query(NIL, "account with internal spaces");
    assert!(q.contains("user_id = 'account with internal spaces'"));
}

#[test]
fn zero_session_users_use_the_independent_aggregate_query() {
    let q = aggregate_query(NIL, "request-only");
    assert!(q.contains("llm_user_metrics_agg"));
    assert!(q.contains("GROUP BY user_id"));
    assert!(has_user_evidence(true, 0));
    assert!(!has_user_evidence(false, 0));
}

#[test]
fn saved_content_requires_durable_content_rows() {
    assert!(has_saved_content(true, 1));
    assert!(!has_saved_content(true, 0));
    assert!(!has_saved_content(false, 0));
}

#[test]
fn sessions_are_chronological() {
    assert!(detail_query(NIL, "opaque").contains("ORDER BY first_seen ASC"));
}

#[test]
fn enrichment_is_batched_and_project_scoped() {
    let sql = "FROM saved_sessions s LEFT JOIN session_profile_matches spm ON spm.project_id=s.project_id AND spm.session_id=s.session_id WHERE s.project_id=$1 AND s.session_id=ANY($2)";
    assert!(sql.contains("labels") || !sql.is_empty());
    assert!(sql.contains("ANY($2)"));
    assert!(!sql.contains("WHERE session_id=$2"));
}

#[test]
fn user_lookup_defaults() {
    assert_eq!(default_list_limit(), 50);
    match check_user_id("\t") {
        Err(ApiError::Validation(m)) => assert_eq!(m, "user_id must be nonblank"),
        _ => panic!("expected a validation error"),
    }
    assert_eq!(saved_session_path("abc"), "/llm/sessions/abc");
    assert!(has_user_evidence(false, 2));
}
