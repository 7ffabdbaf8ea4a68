use flow_api::search::{
    default_search_limit, search_limit, search_sql, search_where_clause, truncate_preview,
    SearchRequest, MAX_SEARCH_LIMIT, PREVIEW_LENGTH,
};

fn request(query: &str) -> SearchRequest {
    SearchRequest {
        project_id: "00000000-0000-0000-0000-000000000000".into(),
        query: query.into(),
        limit: 10,
        model: None,
        user_id: None,
        session_id: None,
        start_time: None,
        end_time: None,
    }
}

#[test]
fn test_empty_query_rejected() {
    let req = request("   ");
    assert!(search_where_clause(&req).is_err());
}

#[test]
fn test_search_limit_capped() {
    let limit: u32 = 500;
    assert_eq!(search_limit(limit), MAX_SEARCH_LIMIT);
}

#[test]
fn test_preview_truncation_ascii() {
    let content = "a".repeat(300);
    let preview = truncate_preview(&content, PREVIEW_LENGTH);
    assert_eq!(preview.chars().count(), PREVIEW_LENGTH);
    assert!(preview.ends_with("..."));
}

#[test]
fn test_preview_truncation_multibyte() {
    let content = "日本語".repeat(100);
    let preview = truncate_preview(&content, PREVIEW_LENGTH);
    assert_eq!(preview.chars().count(), PREVIEW_LENGTH);
    assert!(preview.ends_with("..."));
}

#[test]
fn test_short_content_no_truncation() {
    let content = "hello world";
    let preview = truncate_preview(content, PREVIEW_LENGTH);
    assert_eq!(preview, "hello world");
}

#[test]
fn search_defaults_and_small_limits() {
    assert_eq!(default_search_limit(), 10);
    assert_eq!(search_limit(7), 7);
}

#[test]
fn search_sql_escapes_and_scopes() {
    let mut req = request("it's");
    req.model = Some("gpt-4o".into());
    let sql = search_sql(&req).unwrap();
    assert!(sql.contains("project_id = '00000000-0000-0000-0000-000000000000'"));
    assert!(sql.contains("it\\'s"));
    assert!(sql.contains("gpt-4o"));
}
