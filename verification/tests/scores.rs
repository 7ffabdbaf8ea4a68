use flow_api::decimal::DecimalValue;
use flow_api::errors::ApiError;
use flow_api::scores::{batch_insert_sql, list_scores_sql, validate_batch, ScoreFilters, ScoreType};

fn d(mantissa: i128, scale: u32) -> DecimalValue {
    DecimalValue { mantissa, scale }
}

#[test]
fn a_valid_batch_passes() {
    let scores = vec![(ScoreType::Number, d(995, 1)), (ScoreType::Boolean, d(1, 0)), (ScoreType::Category, d(-3, 0))];
    assert!(validate_batch(&scores).is_ok());
    assert!(validate_batch(&Vec::new()).is_ok());
}

#[test]
fn a_batch_reports_every_invalid_score_by_position() {
    let scores = vec![
        (ScoreType::Number, d(50, 0)),
        (ScoreType::Boolean, d(5, 1)),
        (ScoreType::Number, d(1001, 1)),
    ];
    match validate_batch(&scores) {
        Err(ApiError::Validation(m)) => assert_eq!(
            m,
            "Validation errors: Score 1: Boolean scores must be 0 or 1; Score 2: Numeric scores must be between 0 and 100"
        ),
        other => panic!("unexpected {:?}", other),
    }
}

#[test]
fn batch_inserts_number_ten_parameters_per_row() {
    let q = batch_insert_sql(2);
    assert!(q.contains("VALUES ($1, $2, $3, $4, $5, $6, $7, $8, $9, $10), ($11, $12, $13, $14, $15, $16, $17, $18, $19, $20)\n"));
    assert!(q.contains("(id, project_id, request_id, score_name, score_value, score_type, reason, evaluator_type, evaluator_id, created_at)"));
    let q = batch_insert_sql(100);
    assert!(q.contains("$991, $992, $993, $994, $995, $996, $997, $998, $999, $1000)\n"));
}

#[test]
fn listing_numbers_the_given_filters_in_order() {
    let none = ScoreFilters { score_name: false, evaluator_type: false, start_date: false, end_date: false };
    let q = list_scores_sql(&none, 50, 10);
    assert!(q.contains("WHERE project_id = $1\n"));
    assert!(q.contains("LIMIT 50 OFFSET 10"));
    let some = ScoreFilters { score_name: false, evaluator_type: true, start_date: false, end_date: true };
    let q = list_scores_sql(&some, 5000, 0);
    assert!(q.contains("WHERE project_id = $1 AND evaluator_type = $2 AND created_at <= $3\n"));
    assert!(q.contains("LIMIT 1000 OFFSET 0"));
    let all = ScoreFilters { score_name: true, evaluator_type: true, start_date: true, end_date: true };
    let q = list_scores_sql(&all, 1, 0);
    assert!(q.contains("project_id = $1 AND score_name = $2 AND evaluator_type = $3 AND created_at >= $4 AND created_at <= $5"));
}
