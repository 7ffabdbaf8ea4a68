use chrono::NaiveDate;

use flow_api::errors::ApiError;
use flow_api::metrics::{
    check_overview_range, cost_by_model_query, credits_cache_key, daily_cost_query,
    format_date_range, metrics_limit, model_metrics_query, overview_query, platform_fee_query,
    user_metrics_query, MAX_DATE, MIN_DATE,
};

/// Build the model-metrics query for a dummy project so we can inspect its
/// SQL text.
fn build_model_metrics_query() -> String {
    let project_id = uuid::Uuid::nil().to_string();
    model_metrics_query(&project_id, "2024-01-01", "2024-01-31", 100, 0)
}

fn day(y: i32, m: u32, d: u32) -> String {
    NaiveDate::from_ymd_opt(y, m, d).unwrap().format("%Y-%m-%d").to_string()
}

#[test]
fn test_model_metrics_query_uses_true_average() {
    let query = build_model_metrics_query();

    assert!(
        query.contains("total_duration_ms / request_count"),
        "avg_latency_ms must divide total duration by request count"
    );
}

#[test]
fn test_model_metrics_query_falls_back_to_p50_for_legacy_data() {
    let query = build_model_metrics_query();

    assert!(
        query.contains("if(total_duration_ms > 0"),
        "query must check whether total_duration_ms data exists before using it"
    );
    assert!(
        query.contains("p50_latency_ms) as avg_latency_ms"),
        "query must fall back to P50 when total_duration_ms is 0"
    );
}

#[test]
fn test_format_date_range_defaults() {
    let (start, end) = format_date_range(None, None, MIN_DATE, MAX_DATE);
    assert_eq!(start, MIN_DATE);
    assert_eq!(end, MAX_DATE);
}

#[test]
fn test_format_date_range_with_values() {
    let s = day(2024, 3, 1);
    let e = day(2024, 3, 31);
    let (start, end) = format_date_range(Some(s), Some(e), MIN_DATE, MAX_DATE);
    assert_eq!(start, "2024-03-01");
    assert_eq!(end, "2024-03-31");
}

#[test]
fn page_sizes_are_capped() {
    assert_eq!(metrics_limit(50), 50);
    assert_eq!(metrics_limit(1000), 1000);
    assert_eq!(metrics_limit(5000), 1000);
    let q = user_metrics_query("p", "2024-01-01", "2024-01-02", 5000, 20);
    assert!(q.contains("LIMIT 1000 OFFSET 20"));
    let q = cost_by_model_query("p", MIN_DATE, MAX_DATE, 7);
    assert!(q.contains("LIMIT 7\n"));
}

#[test]
fn queries_hold_their_project_and_dates() {
    let q = daily_cost_query("abc", "2024-02-01", "2024-02-29");
    assert!(q.contains("WHERE project_id = 'abc'"));
    assert!(q.contains("AND date >= toDate('2024-02-01')"));
    assert!(q.contains("AND date <= toDate('2024-02-29')"));
    assert!(q.contains("ORDER BY date ASC"));
    let q = overview_query("abc", "2024-02-01", "2024-02-02");
    assert!(q.contains("toDateTime64('2024-02-02 00:00:00', 9) + INTERVAL 1 DAY"));
    let q = platform_fee_query("abc");
    assert!(q.contains("AND is_platform_key = 0"));
    assert_eq!(credits_cache_key("org-1"), "billing:stripe_credits:org-1");
}

#[test]
fn the_overview_covers_at_most_thirty_days() {
    assert!(check_overview_range("2024-01-01", "2024-01-31").is_ok());
    assert!(check_overview_range("2024-02-01", "2024-01-01").is_ok());
    match check_overview_range("2024-01-01", "2024-02-01") {
        Err(ApiError::Validation(m)) => assert_eq!(
            m,
            "Date range exceeds maximum of 30 days for overview query. Use the daily cost endpoint for longer ranges."
        ),
        other => panic!("unexpected {:?}", other),
    }
    match check_overview_range("2024-13-01", "2024-01-31") {
        Err(ApiError::Validation(m)) => assert_eq!(m, "Invalid start date format"),
        other => panic!("unexpected {:?}", other),
    }
    match check_overview_range("2024-01-01", "yesterday") {
        Err(ApiError::Validation(m)) => assert_eq!(m, "Invalid end date format"),
        other => panic!("unexpected {:?}", other),
    }
}
