//! Queries of the usage metrics: their date ranges, page limits and SQL text.
//!
//! Every value placed in the SQL is safe by its form: project ids are UUIDs,
//! dates are `YYYY-MM-DD`, limits and offsets are numbers.

use vstd::prelude::*;
use vstd::string::*;

use crate::errors::ApiError;
use crate::text::{decimal, decimal_string, has_substring, lemma_substring_of_concat, owned};

verus! {

/// Start of a date range that names none.
pub const MIN_DATE: &'static str = "1970-01-01";

/// End of a date range that names none.
pub const MAX_DATE: &'static str = "2100-01-01";

/// Most rows a metrics page holds.
pub const MAX_LIMIT: u32 = 1000;

/// Days the overview covers when it is given no start.
pub const DEFAULT_OVERVIEW_DAYS: i64 = 7;

/// Most days the overview may cover.
pub const MAX_OVERVIEW_DAYS: i64 = 30;

/// A requested page size, capped at [`MAX_LIMIT`].
pub open spec fn capped(limit: nat) -> nat {
    if limit > MAX_LIMIT {
        MAX_LIMIT as nat
    } else {
        limit
    }
}

/// A requested page size, capped at [`MAX_LIMIT`].
pub fn metrics_limit(limit: u32) -> (r: u32)
    ensures
        r == capped(limit as nat),
{
    if limit > MAX_LIMIT {
        MAX_LIMIT
    } else {
        limit
    }
}

/// The dates of a query: the given ones (`YYYY-MM-DD`), else the defaults.
pub fn format_date_range(
    start: Option<String>,
    end: Option<String>,
    default_start: &str,
    default_end: &str,
) -> (r: (String, String))
    ensures
        r.0@ == match start {
            Some(s) => s@,
            None => default_start@,
        },
        r.1@ == match end {
            Some(e) => e@,
            None => default_end@,
        },
{
    let s = match start {
        Some(s) => s,
        None => owned(default_start),
    };
    let e = match end {
        Some(e) => e,
        None => owned(default_end),
    };
    (s, e)
}

/// The day number (days from the first of January of year 1, which is day 1)
/// of the date that `chrono` reads from `text` as `YYYY-MM-DD`; `None` when it
/// reads none.
pub uninterp spec fn date_days(text: Seq<char>) -> Option<int>;

/// Reads `text` with `chrono::NaiveDate::parse_from_str` in the format
/// `%Y-%m-%d` and gives the date's `Datelike::num_days_from_ce`. The result is
/// named, not described.
#[verifier::external_body]
fn day_number(text: &str) -> (r: Option<i64>)
    ensures
        match r {
            Some(d) => date_days(text@) == Some(d as int),
            None => date_days(text@) is None,
        },
{
    chrono::NaiveDate::parse_from_str(text, "%Y-%m-%d")
        .ok()
        .map(|d| chrono::Datelike::num_days_from_ce(&d) as i64)
}

/// Why an overview over `start` to `end` is refused, if it is: a date that
/// does not read, or a range of more than [`MAX_OVERVIEW_DAYS`] days.
pub open spec fn overview_range_error(start: Seq<char>, end: Seq<char>) -> Option<Seq<char>> {
    match (date_days(start), date_days(end)) {
        (None, _) => Some("Invalid start date format"@),
        (Some(_), None) => Some("Invalid end date format"@),
        (Some(s), Some(e)) => if e - s > MAX_OVERVIEW_DAYS {
            Some(
                "Date range exceeds maximum of 30 days for overview query. Use the daily cost endpoint for longer ranges."@,
            )
        } else {
            None
        },
    }
}

/// Check the date range of an overview.
pub fn check_overview_range(start: &str, end: &str) -> (r: Result<(), ApiError>)
    ensures
        match overview_range_error(start@, end@) {
            None => r is Ok,
            Some(m) => r matches Err(ApiError::Validation(e)) && e@ == m,
        },
{
    let s = match day_number(start) {
        Some(d) => d,
        None => {
            return Err(ApiError::Validation(owned("Invalid start date format")));
        },
    };
    let e = match day_number(end) {
        Some(d) => d,
        None => {
            return Err(ApiError::Validation(owned("Invalid end date format")));
        },
    };
    if (e as i128) - (s as i128) > MAX_OVERVIEW_DAYS as i128 {
        return Err(
            ApiError::Validation(
                owned(
                    "Date range exceeds maximum of 30 days for overview query. Use the daily cost endpoint for longer ranges.",
                ),
            ),
        );
    }
    Ok(())
}

/// The cache key telling whether an organisation has credits.
pub fn credits_cache_key(organization_id: &str) -> (r: String)
    ensures
        r@ == "billing:stripe_credits:"@ + organization_id@,
{
    let mut k = owned("billing:stripe_credits:");
    k.append(organization_id);
    k
}

/// Per-user usage over a date range, from the pre-aggregated user metrics,
/// costliest first, one page of at most [`MAX_LIMIT`] rows.
pub open spec fn user_metrics_sql(project_id: Seq<char>, start: Seq<char>, end: Seq<char>, limit: nat, offset: nat) -> Seq<char> {
    "\n        SELECT\n            user_id,\n            sum(request_count) as request_count,\n            uniqMerge(session_count) as session_count,\n            sum(total_input_tokens) as total_input_tokens,\n            sum(total_output_tokens) as total_output_tokens,\n            toFloat64(sum(total_cost_usd)) as total_cost_usd,\n            sum(error_count) as error_count,\n            groupUniqArrayMerge(models) as models\n        FROM reiver.llm_user_metrics_agg\n        WHERE project_id = '"@
        + project_id
        + "'\n            AND user_id != ''\n            AND date >= toDate('"@
        + start
        + "')\n            AND date <= toDate('"@
        + end
        + "')\n        GROUP BY user_id\n        ORDER BY total_cost_usd DESC\n        LIMIT "@
        + decimal(capped(limit))
        + " OFFSET "@
        + decimal(offset)
        + "\n        "@
}

/// The per-user statement lists users costliest first: it orders its rows
/// by `total_cost_usd` descending, and by nothing else, before the page
/// limit.
pub proof fn lemma_user_metrics_costliest_first(
    project_id: Seq<char>,
    start: Seq<char>,
    end: Seq<char>,
    limit: nat,
    offset: nat,
)
    ensures
        has_substring(
            user_metrics_sql(project_id, start, end, limit, offset),
            "GROUP BY user_id\n        ORDER BY total_cost_usd DESC\n        LIMIT "@,
        ),
{
    let head = "\n        SELECT\n            user_id,\n            sum(request_count) as request_count,\n            uniqMerge(session_count) as session_count,\n            sum(total_input_tokens) as total_input_tokens,\n            sum(total_output_tokens) as total_output_tokens,\n            toFloat64(sum(total_cost_usd)) as total_cost_usd,\n            sum(error_count) as error_count,\n            groupUniqArrayMerge(models) as models\n        FROM reiver.llm_user_metrics_agg\n        WHERE project_id = '"@
        + project_id
        + "'\n            AND user_id != ''\n            AND date >= toDate('"@
        + start
        + "')\n            AND date <= toDate('"@
        + end;
    let order = "GROUP BY user_id\n        ORDER BY total_cost_usd DESC\n        LIMIT "@;
    let tail = decimal(capped(limit)) + " OFFSET "@ + decimal(offset) + "\n        "@;
    reveal_strlit("')\n        GROUP BY user_id\n        ORDER BY total_cost_usd DESC\n        LIMIT ");
    reveal_strlit("')\n        ");
    reveal_strlit("GROUP BY user_id\n        ORDER BY total_cost_usd DESC\n        LIMIT ");
    assert("')\n        GROUP BY user_id\n        ORDER BY total_cost_usd DESC\n        LIMIT "@ =~= "')\n        "@
        + order);
    assert(user_metrics_sql(project_id, start, end, limit, offset) =~= (head + "')\n        "@) + order
        + tail);
    lemma_substring_of_concat(head + "')\n        "@, order, tail);
}

/// The per-model statement lists models costliest first: after grouping by
/// model it orders by `total_cost_usd` descending, and by nothing else,
/// before the page limit.
pub proof fn lemma_model_metrics_costliest_first(project_id: Seq<char>,
    start: Seq<char>,
    end: Seq<char>,
    limit: nat,
    offset: nat,
)
    ensures
        has_substring(model_metrics_sql(project_id, start, end, limit, offset), "GROUP BY gen_ai_system, gen_ai_request_model\n        )\n        ORDER BY total_cost_usd DESC\n        LIMIT "@),
{
    let head = "\n        SELECT\n            gen_ai_system,\n            gen_ai_request_model,\n            request_count,\n            total_input_tokens,\n            total_output_tokens,\n            total_cost_usd,\n            if(total_duration_ms > 0 AND request_count > 0,\n               total_duration_ms / request_count,\n               p50_latency_ms) as avg_latency_ms,\n            p50_latency_ms,\n            p95_latency_ms,\n            p99_latency_ms,\n            error_count,\n            if(request_count > 0, error_count / request_count * 100, 0) as error_rate\n        FROM (\n            SELECT\n                gen_ai_system,\n                gen_ai_request_model,\n                sum(request_count) as request_count,\n                sum(total_input_tokens) as total_input_tokens,\n                sum(total_output_tokens) as total_output_tokens,\n                toFloat64(sum(total_cost_usd)) as total_cost_usd,\n                sum(total_duration_ms) as total_duration_ms,\n                quantilesMerge(0.5)(duration_quantiles)[1] as p50_latency_ms,\n                quantilesMerge(0.95)(duration_quantiles)[1] as p95_latency_ms,\n                quantilesMerge(0.99)(duration_quantiles)[1] as p99_latency_ms,\n                sum(error_count) as error_count\n            FROM reiver.llm_model_metrics_agg\n            WHERE project_id = '"@
        + project_id
        + "'\n                AND hour >= toDateTime('"@
        + start
        + "')\n                AND hour < toDateTime('"@
        + end;
    reveal_strlit("') + INTERVAL 1 DAY\n            GROUP BY gen_ai_system, gen_ai_request_model\n        )\n        ORDER BY total_cost_usd DESC\n        LIMIT ");
    reveal_strlit("') + INTERVAL 1 DAY\n            ");
    reveal_strlit("GROUP BY gen_ai_system, gen_ai_request_model\n        )\n        ORDER BY total_cost_usd DESC\n        LIMIT ");
    reveal_strlit("");
    assert("') + INTERVAL 1 DAY\n            GROUP BY gen_ai_system, gen_ai_request_model\n        )\n        ORDER BY total_cost_usd DESC\n        LIMIT "@ =~= "') + INTERVAL 1 DAY\n            "@ + "GROUP BY gen_ai_system, gen_ai_request_model\n        )\n        ORDER BY total_cost_usd DESC\n        LIMIT "@ + ""@);
    let tail = ""@ + decimal(capped(limit))
        + " OFFSET "@
        + decimal(offset)
        + "\n        "@;
    assert(model_metrics_sql(project_id, start, end, limit, offset) =~= (head + "') + INTERVAL 1 DAY\n            "@) + "GROUP BY gen_ai_system, gen_ai_request_model\n        )\n        ORDER BY total_cost_usd DESC\n        LIMIT "@ + tail);
    lemma_substring_of_concat(head + "') + INTERVAL 1 DAY\n            "@, "GROUP BY gen_ai_system, gen_ai_request_model\n        )\n        ORDER BY total_cost_usd DESC\n        LIMIT "@, tail);
}

/// The daily statement lists one row per day, oldest first: it groups by
/// date and orders by date ascending, and by nothing else.
pub proof fn lemma_daily_cost_oldest_first(project_id: Seq<char>, start: Seq<char>, end: Seq<char>)
    ensures
        has_substring(daily_cost_sql(project_id, start, end), "GROUP BY date\n        ORDER BY date ASC\n        "@),
{
    let head = "\n        SELECT\n            toString(date) as date_str,\n            sum(request_count) as request_count,\n            sum(input_tokens) as input_tokens,\n            sum(output_tokens) as output_tokens,\n            toFloat64(sum(total_cost_usd)) as total_cost_usd\n        FROM reiver.llm_cost_daily\n        WHERE project_id = '"@
        + project_id
        + "'\n            AND date >= toDate('"@
        + start
        + "')\n            AND date <= toDate('"@
        + end;
    reveal_strlit("')\n        GROUP BY date\n        ORDER BY date ASC\n        ");
    reveal_strlit("')\n        ");
    reveal_strlit("GROUP BY date\n        ORDER BY date ASC\n        ");
    reveal_strlit("");
    assert("')\n        GROUP BY date\n        ORDER BY date ASC\n        "@ =~= "')\n        "@ + "GROUP BY date\n        ORDER BY date ASC\n        "@ + ""@);
    let tail = ""@;
    assert(daily_cost_sql(project_id, start, end) =~= (head + "')\n        "@) + "GROUP BY date\n        ORDER BY date ASC\n        "@ + tail);
    lemma_substring_of_concat(head + "')\n        "@, "GROUP BY date\n        ORDER BY date ASC\n        "@, tail);
}

/// The cost-by-model statement lists models costliest first: it orders by
/// `total_cost_usd` descending, and by nothing else, before the limit.
pub proof fn lemma_cost_by_model_costliest_first(project_id: Seq<char>, start: Seq<char>, end: Seq<char>, limit: nat)
    ensures
        has_substring(cost_by_model_sql(project_id, start, end, limit), "ORDER BY total_cost_usd DESC\n        LIMIT "@),
{
    let head = "\n        SELECT\n            gen_ai_system,\n            gen_ai_request_model,\n            request_count,\n            input_tokens,\n            output_tokens,\n            total_cost_usd,\n            if(total_sum > 0, total_cost_usd / total_sum * 100, 0) as percentage\n        FROM (\n            SELECT\n                *,\n                sum(total_cost_usd) OVER () as total_sum\n            FROM (\n                SELECT\n                    gen_ai_system,\n                    gen_ai_request_model,\n                    sum(request_count) as request_count,\n                    sum(input_tokens) as input_tokens,\n                    sum(output_tokens) as output_tokens,\n                    toFloat64(sum(total_cost_usd)) as total_cost_usd\n                FROM reiver.llm_cost_daily\n                WHERE project_id = '"@
        + project_id
        + "'\n                    AND date >= toDate('"@
        + start
        + "')\n                    AND date <= toDate('"@
        + end;
    reveal_strlit("')\n                GROUP BY gen_ai_system, gen_ai_request_model\n            )\n        )\n        ORDER BY total_cost_usd DESC\n        LIMIT ");
    reveal_strlit("')\n                GROUP BY gen_ai_system, gen_ai_request_model\n            )\n        )\n        ");
    reveal_strlit("ORDER BY total_cost_usd DESC\n        LIMIT ");
    reveal_strlit("");
    assert("')\n                GROUP BY gen_ai_system, gen_ai_request_model\n            )\n        )\n        ORDER BY total_cost_usd DESC\n        LIMIT "@ =~= "')\n                GROUP BY gen_ai_system, gen_ai_request_model\n            )\n        )\n        "@ + "ORDER BY total_cost_usd DESC\n        LIMIT "@ + ""@);
    let tail = ""@ + decimal(capped(limit))
        + "\n        "@;
    assert(cost_by_model_sql(project_id, start, end, limit) =~= (head + "')\n                GROUP BY gen_ai_system, gen_ai_request_model\n            )\n        )\n        "@) + "ORDER BY total_cost_usd DESC\n        LIMIT "@ + tail);
    lemma_substring_of_concat(head + "')\n                GROUP BY gen_ai_system, gen_ai_request_model\n            )\n        )\n        "@, "ORDER BY total_cost_usd DESC\n        LIMIT "@, tail);
}

/// Per-user usage over a date range, from the pre-aggregated user metrics,
/// costliest first, one page of at most [`MAX_LIMIT`] rows.
pub fn user_metrics_query(project_id: &str, start: &str, end: &str, limit: u32, offset: u32) -> (r: String)
    ensures
        r@ == user_metrics_sql(project_id@, start@, end@, limit as nat, offset as nat),
{
    let mut q = owned("\n        SELECT\n            user_id,\n            sum(request_count) as request_count,\n            uniqMerge(session_count) as session_count,\n            sum(total_input_tokens) as total_input_tokens,\n            sum(total_output_tokens) as total_output_tokens,\n            toFloat64(sum(total_cost_usd)) as total_cost_usd,\n            sum(error_count) as error_count,\n            groupUniqArrayMerge(models) as models\n        FROM reiver.llm_user_metrics_agg\n        WHERE project_id = '");
    q.append(project_id);
    q.append("'\n            AND user_id != ''\n            AND date >= toDate('");
    q.append(start);
    q.append("')\n            AND date <= toDate('");
    q.append(end);
    q.append("')\n        GROUP BY user_id\n        ORDER BY total_cost_usd DESC\n        LIMIT ");
    q.append(decimal_string(metrics_limit(limit) as u64).as_str());
    q.append(" OFFSET ");
    q.append(decimal_string(offset as u64).as_str());
    q.append("\n        ");
    q
}

/// Per-model usage over a date range, from the pre-aggregated model
/// metrics: the average latency is the total duration over the request count,
/// or the median for rows without durations; costliest first, one page of at
/// most [`MAX_LIMIT`] rows.
pub open spec fn model_metrics_sql(project_id: Seq<char>, start: Seq<char>, end: Seq<char>, limit: nat, offset: nat) -> Seq<char> {
    "\n        SELECT\n            gen_ai_system,\n            gen_ai_request_model,\n            request_count,\n            total_input_tokens,\n            total_output_tokens,\n            total_cost_usd,\n            if(total_duration_ms > 0 AND request_count > 0,\n               total_duration_ms / request_count,\n               p50_latency_ms) as avg_latency_ms,\n            p50_latency_ms,\n            p95_latency_ms,\n            p99_latency_ms,\n            error_count,\n            if(request_count > 0, error_count / request_count * 100, 0) as error_rate\n        FROM (\n            SELECT\n                gen_ai_system,\n                gen_ai_request_model,\n                sum(request_count) as request_count,\n                sum(total_input_tokens) as total_input_tokens,\n                sum(total_output_tokens) as total_output_tokens,\n                toFloat64(sum(total_cost_usd)) as total_cost_usd,\n                sum(total_duration_ms) as total_duration_ms,\n                quantilesMerge(0.5)(duration_quantiles)[1] as p50_latency_ms,\n                quantilesMerge(0.95)(duration_quantiles)[1] as p95_latency_ms,\n                quantilesMerge(0.99)(duration_quantiles)[1] as p99_latency_ms,\n                sum(error_count) as error_count\n            FROM reiver.llm_model_metrics_agg\n            WHERE project_id = '"@
        + project_id
        + "'\n                AND hour >= toDateTime('"@
        + start
        + "')\n                AND hour < toDateTime('"@
        + end
        + "') + INTERVAL 1 DAY\n            GROUP BY gen_ai_system, gen_ai_request_model\n        )\n        ORDER BY total_cost_usd DESC\n        LIMIT "@
        + decimal(capped(limit))
        + " OFFSET "@
        + decimal(offset)
        + "\n        "@
}

/// Per-model usage over a date range, from the pre-aggregated model
/// metrics: the average latency is the total duration over the request count,
/// or the median for rows without durations; costliest first, one page of at
/// most [`MAX_LIMIT`] rows.
pub fn model_metrics_query(project_id: &str, start: &str, end: &str, limit: u32, offset: u32) -> (r: String)
    ensures
        r@ == model_metrics_sql(project_id@, start@, end@, limit as nat, offset as nat),
{
    let mut q = owned("\n        SELECT\n            gen_ai_system,\n            gen_ai_request_model,\n            request_count,\n            total_input_tokens,\n            total_output_tokens,\n            total_cost_usd,\n            if(total_duration_ms > 0 AND request_count > 0,\n               total_duration_ms / request_count,\n               p50_latency_ms) as avg_latency_ms,\n            p50_latency_ms,\n            p95_latency_ms,\n            p99_latency_ms,\n            error_count,\n            if(request_count > 0, error_count / request_count * 100, 0) as error_rate\n        FROM (\n            SELECT\n                gen_ai_system,\n                gen_ai_request_model,\n                sum(request_count) as request_count,\n                sum(total_input_tokens) as total_input_tokens,\n                sum(total_output_tokens) as total_output_tokens,\n                toFloat64(sum(total_cost_usd)) as total_cost_usd,\n                sum(total_duration_ms) as total_duration_ms,\n                quantilesMerge(0.5)(duration_quantiles)[1] as p50_latency_ms,\n                quantilesMerge(0.95)(duration_quantiles)[1] as p95_latency_ms,\n                quantilesMerge(0.99)(duration_quantiles)[1] as p99_latency_ms,\n                sum(error_count) as error_count\n            FROM reiver.llm_model_metrics_agg\n            WHERE project_id = '");
    q.append(project_id);
    q.append("'\n                AND hour >= toDateTime('");
    q.append(start);
    q.append("')\n                AND hour < toDateTime('");
    q.append(end);
    q.append("') + INTERVAL 1 DAY\n            GROUP BY gen_ai_system, gen_ai_request_model\n        )\n        ORDER BY total_cost_usd DESC\n        LIMIT ");
    q.append(decimal_string(metrics_limit(limit) as u64).as_str());
    q.append(" OFFSET ");
    q.append(decimal_string(offset as u64).as_str());
    q.append("\n        ");
    q
}

/// Cost per day over a date range, oldest first.
pub open spec fn daily_cost_sql(project_id: Seq<char>, start: Seq<char>, end: Seq<char>) -> Seq<char> {
    "\n        SELECT\n            toString(date) as date_str,\n            sum(request_count) as request_count,\n            sum(input_tokens) as input_tokens,\n            sum(output_tokens) as output_tokens,\n            toFloat64(sum(total_cost_usd)) as total_cost_usd\n        FROM reiver.llm_cost_daily\n        WHERE project_id = '"@
        + project_id
        + "'\n            AND date >= toDate('"@
        + start
        + "')\n            AND date <= toDate('"@
        + end
        + "')\n        GROUP BY date\n        ORDER BY date ASC\n        "@
}

/// Cost per day over a date range, oldest first.
pub fn daily_cost_query(project_id: &str, start: &str, end: &str) -> (r: String)
    ensures
        r@ == daily_cost_sql(project_id@, start@, end@),
{
    let mut q = owned("\n        SELECT\n            toString(date) as date_str,\n            sum(request_count) as request_count,\n            sum(input_tokens) as input_tokens,\n            sum(output_tokens) as output_tokens,\n            toFloat64(sum(total_cost_usd)) as total_cost_usd\n        FROM reiver.llm_cost_daily\n        WHERE project_id = '");
    q.append(project_id);
    q.append("'\n            AND date >= toDate('");
    q.append(start);
    q.append("')\n            AND date <= toDate('");
    q.append(end);
    q.append("')\n        GROUP BY date\n        ORDER BY date ASC\n        ");
    q
}

/// Cost per model over a date range with each model's share of the total,
/// costliest first, at most [`MAX_LIMIT`] rows.
pub open spec fn cost_by_model_sql(project_id: Seq<char>, start: Seq<char>, end: Seq<char>, limit: nat) -> Seq<char> {
    "\n        SELECT\n            gen_ai_system,\n            gen_ai_request_model,\n            request_count,\n            input_tokens,\n            output_tokens,\n            total_cost_usd,\n            if(total_sum > 0, total_cost_usd / total_sum * 100, 0) as percentage\n        FROM (\n            SELECT\n                *,\n                sum(total_cost_usd) OVER () as total_sum\n            FROM (\n                SELECT\n                    gen_ai_system,\n                    gen_ai_request_model,\n                    sum(request_count) as request_count,\n                    sum(input_tokens) as input_tokens,\n                    sum(output_tokens) as output_tokens,\n                    toFloat64(sum(total_cost_usd)) as total_cost_usd\n                FROM reiver.llm_cost_daily\n                WHERE project_id = '"@
        + project_id
        + "'\n                    AND date >= toDate('"@
        + start
        + "')\n                    AND date <= toDate('"@
        + end
        + "')\n                GROUP BY gen_ai_system, gen_ai_request_model\n            )\n        )\n        ORDER BY total_cost_usd DESC\n        LIMIT "@
        + decimal(capped(limit))
        + "\n        "@
}

/// Cost per model over a date range with each model's share of the total,
/// costliest first, at most [`MAX_LIMIT`] rows.
pub fn cost_by_model_query(project_id: &str, start: &str, end: &str, limit: u32) -> (r: String)
    ensures
        r@ == cost_by_model_sql(project_id@, start@, end@, limit as nat),
{
    let mut q = owned("\n        SELECT\n            gen_ai_system,\n            gen_ai_request_model,\n            request_count,\n            input_tokens,\n            output_tokens,\n            total_cost_usd,\n            if(total_sum > 0, total_cost_usd / total_sum * 100, 0) as percentage\n        FROM (\n            SELECT\n                *,\n                sum(total_cost_usd) OVER () as total_sum\n            FROM (\n                SELECT\n                    gen_ai_system,\n                    gen_ai_request_model,\n                    sum(request_count) as request_count,\n                    sum(input_tokens) as input_tokens,\n                    sum(output_tokens) as output_tokens,\n                    toFloat64(sum(total_cost_usd)) as total_cost_usd\n                FROM reiver.llm_cost_daily\n                WHERE project_id = '");
    q.append(project_id);
    q.append("'\n                    AND date >= toDate('");
    q.append(start);
    q.append("')\n                    AND date <= toDate('");
    q.append(end);
    q.append("')\n                GROUP BY gen_ai_system, gen_ai_request_model\n            )\n        )\n        ORDER BY total_cost_usd DESC\n        LIMIT ");
    q.append(decimal_string(metrics_limit(limit) as u64).as_str());
    q.append("\n        ");
    q
}

/// Totals of the raw requests over a date range (both days included).
pub open spec fn overview_sql(project_id: Seq<char>, start: Seq<char>, end: Seq<char>) -> Seq<char> {
    "\n        SELECT\n            count() as total_requests,\n            uniq(session_id) as total_sessions,\n            uniq(user_id) as total_users,\n            sum(input_tokens) as total_input_tokens,\n            sum(output_tokens) as total_output_tokens,\n            toFloat64(sum(cost_usd)) as total_cost_usd,\n            countIf(status_code = 'error') as error_count,\n            if(count() > 0, countIf(status_code = 'error') / count() * 100, 0) as error_rate,\n            avg(duration_ms) as avg_latency_ms,\n            topK(5)(gen_ai_request_model) as top_models\n        FROM reiver.llm_requests\n        WHERE project_id = '"@
        + project_id
        + "'\n            AND timestamp >= toDateTime64('"@
        + start
        + " 00:00:00', 9)\n            AND timestamp < toDateTime64('"@
        + end
        + " 00:00:00', 9) + INTERVAL 1 DAY\n        "@
}

/// Totals of the raw requests over a date range (both days included).
pub fn overview_query(project_id: &str, start: &str, end: &str) -> (r: String)
    ensures
        r@ == overview_sql(project_id@, start@, end@),
{
    let mut q = owned("\n        SELECT\n            count() as total_requests,\n            uniq(session_id) as total_sessions,\n            uniq(user_id) as total_users,\n            sum(input_tokens) as total_input_tokens,\n            sum(output_tokens) as total_output_tokens,\n            toFloat64(sum(cost_usd)) as total_cost_usd,\n            countIf(status_code = 'error') as error_count,\n            if(count() > 0, countIf(status_code = 'error') / count() * 100, 0) as error_rate,\n            avg(duration_ms) as avg_latency_ms,\n            topK(5)(gen_ai_request_model) as top_models\n        FROM reiver.llm_requests\n        WHERE project_id = '");
    q.append(project_id);
    q.append("'\n            AND timestamp >= toDateTime64('");
    q.append(start);
    q.append(" 00:00:00', 9)\n            AND timestamp < toDateTime64('");
    q.append(end);
    q.append(" 00:00:00', 9) + INTERVAL 1 DAY\n        ");
    q
}

/// Cost of the current month's requests made with the project's own keys.
pub open spec fn platform_fee_sql(project_id: Seq<char>) -> Seq<char> {
    "\n                    SELECT toFloat64(sum(total_cost_usd)) as total_cost_usd\n                    FROM reiver.llm_cost_daily\n                    WHERE project_id = '"@
        + project_id
        + "'\n                      AND date >= toStartOfMonth(today())\n                      AND is_platform_key = 0\n                    "@
}

/// Cost of the current month's requests made with the project's own keys.
pub fn platform_fee_query(project_id: &str) -> (r: String)
    ensures
        r@ == platform_fee_sql(project_id@),
{
    let mut q = owned("\n                    SELECT toFloat64(sum(total_cost_usd)) as total_cost_usd\n                    FROM reiver.llm_cost_daily\n                    WHERE project_id = '");
    q.append(project_id);
    q.append("'\n                      AND date >= toStartOfMonth(today())\n                      AND is_platform_key = 0\n                    ");
    q
}

} // verus!
