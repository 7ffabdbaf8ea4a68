//! Project-scoped end-user intelligence: the statements that list users and
//! detail one user, and the rules for what counts as a user.

use vstd::prelude::*;
use vstd::string::*;

use crate::errors::ApiError;
use crate::sql::{escape_clickhouse_string, escaped};
use crate::text::{
    chars_of, char_is_space, decimal, decimal_string, has_substring, is_space,
    lemma_substring_of_concat, owned,
};

verus! {

/// Most users listed per page.
pub const MAX_LIMIT: u32 = 500;

/// Page size of a list that names none.
pub fn default_list_limit() -> (r: u32)
    ensures
        r == 50,
{
    50
}

/// Paging of the user list.
pub struct ListParams {
    pub limit: u32,
    pub offset: u32,
}

/// The user whose detail is asked for.
pub struct DetailParams {
    pub user_id: String,
}

/// The effective page size: the requested one, at most 500.
pub open spec fn capped_limit(limit: u32) -> u32 {
    if limit <= MAX_LIMIT {
        limit
    } else {
        MAX_LIMIT
    }
}

/// The listing statement.
pub open spec fn list_statement(project_id: Seq<char>, limit: u32, offset: u32) -> Seq<char> {
    "\nSELECT m.user_id, coalesce(s.first_seen, toDateTime(m.first_date)) first_seen,\n       coalesce(s.last_seen, toDateTime(m.last_date) + INTERVAL 1 DAY - INTERVAL 1 SECOND) last_seen,\n       coalesce(s.session_count, 0) session_count, m.request_count,\n       toFloat64(m.total_cost) AS total_cost, m.error_count, m.models\nFROM (\n SELECT user_id, min(date) first_date, max(date) last_date, sum(request_count) request_count,\n        sum(total_cost_usd) total_cost, sum(error_count) error_count, groupUniqArrayMerge(models) models\n FROM reiver.llm_user_metrics_agg WHERE project_id = '"@
        + project_id
        + "' AND notEmpty(replaceRegexpAll(user_id, '[[:space:]]', '')) GROUP BY user_id\n) m LEFT JOIN (\n SELECT user_id, min(first_request_time) first_seen, max(last_request_time) last_seen, count() session_count\n FROM reiver.llm_sessions_agg WHERE project_id = '"@
        + project_id
        + "' AND notEmpty(replaceRegexpAll(user_id, '[[:space:]]', '')) GROUP BY user_id\n) s USING user_id ORDER BY last_seen DESC LIMIT "@
        + decimal(capped_limit(limit) as nat) + " OFFSET "@ + decimal(offset as nat)
}

/// The user listing puts the most recently seen users first: it orders by
/// `last_seen` descending, and by nothing else, before the page limit.
pub proof fn lemma_users_recent_first(project_id: Seq<char>, limit: u32, offset: u32)
    ensures
        has_substring(list_statement(project_id, limit, offset), "ORDER BY last_seen DESC LIMIT "@),
{
    let head = "\nSELECT m.user_id, coalesce(s.first_seen, toDateTime(m.first_date)) first_seen,\n       coalesce(s.last_seen, toDateTime(m.last_date) + INTERVAL 1 DAY - INTERVAL 1 SECOND) last_seen,\n       coalesce(s.session_count, 0) session_count, m.request_count,\n       toFloat64(m.total_cost) AS total_cost, m.error_count, m.models\nFROM (\n SELECT user_id, min(date) first_date, max(date) last_date, sum(request_count) request_count,\n        sum(total_cost_usd) total_cost, sum(error_count) error_count, groupUniqArrayMerge(models) models\n FROM reiver.llm_user_metrics_agg WHERE project_id = '"@
        + project_id
        + "' AND notEmpty(replaceRegexpAll(user_id, '[[:space:]]', '')) GROUP BY user_id\n) m LEFT JOIN (\n SELECT user_id, min(first_request_time) first_seen, max(last_request_time) last_seen, count() session_count\n FROM reiver.llm_sessions_agg WHERE project_id = '"@
        + project_id;
    reveal_strlit("' AND notEmpty(replaceRegexpAll(user_id, '[[:space:]]', '')) GROUP BY user_id\n) s USING user_id ORDER BY last_seen DESC LIMIT ");
    reveal_strlit("' AND notEmpty(replaceRegexpAll(user_id, '[[:space:]]', '')) GROUP BY user_id\n) s USING user_id ");
    reveal_strlit("ORDER BY last_seen DESC LIMIT ");
    reveal_strlit("");
    assert("' AND notEmpty(replaceRegexpAll(user_id, '[[:space:]]', '')) GROUP BY user_id\n) s USING user_id ORDER BY last_seen DESC LIMIT "@ =~= "' AND notEmpty(replaceRegexpAll(user_id, '[[:space:]]', '')) GROUP BY user_id\n) s USING user_id "@ + "ORDER BY last_seen DESC LIMIT "@ + ""@);
    let tail = ""@ + decimal(capped_limit(limit) as nat) + " OFFSET "@ + decimal(offset as nat);
    assert(list_statement(project_id, limit, offset) =~= (head + "' AND notEmpty(replaceRegexpAll(user_id, '[[:space:]]', '')) GROUP BY user_id\n) s USING user_id "@) + "ORDER BY last_seen DESC LIMIT "@ + tail);
    lemma_substring_of_concat(head + "' AND notEmpty(replaceRegexpAll(user_id, '[[:space:]]', '')) GROUP BY user_id\n) s USING user_id "@, "ORDER BY last_seen DESC LIMIT "@, tail);
}

/// The statement that lists a project's users, most recently seen first,
/// without users whose id is blank.
pub fn list_query(project_id: &str, limit: u32, offset: u32) -> (r: String)
    ensures
        r@ == list_statement(project_id@, limit, offset),
{
    let capped = if limit <= MAX_LIMIT {
        limit
    } else {
        MAX_LIMIT
    };
    let mut q = owned(
        "\nSELECT m.user_id, coalesce(s.first_seen, toDateTime(m.first_date)) first_seen,\n       coalesce(s.last_seen, toDateTime(m.last_date) + INTERVAL 1 DAY - INTERVAL 1 SECOND) last_seen,\n       coalesce(s.session_count, 0) session_count, m.request_count,\n       toFloat64(m.total_cost) AS total_cost, m.error_count, m.models\nFROM (\n SELECT user_id, min(date) first_date, max(date) last_date, sum(request_count) request_count,\n        sum(total_cost_usd) total_cost, sum(error_count) error_count, groupUniqArrayMerge(models) models\n FROM reiver.llm_user_metrics_agg WHERE project_id = '",
    );
    q.append(project_id);
    q.append(
        "' AND notEmpty(replaceRegexpAll(user_id, '[[:space:]]', '')) GROUP BY user_id\n) m LEFT JOIN (\n SELECT user_id, min(first_request_time) first_seen, max(last_request_time) last_seen, count() session_count\n FROM reiver.llm_sessions_agg WHERE project_id = '",
    );
    q.append(project_id);
    q.append(
        "' AND notEmpty(replaceRegexpAll(user_id, '[[:space:]]', '')) GROUP BY user_id\n) s USING user_id ORDER BY last_seen DESC LIMIT ",
    );
    q.append(decimal_string(capped as u64).as_str());
    q.append(" OFFSET ");
    q.append(decimal_string(offset as u64).as_str());
    q
}

/// The statement that totals one user's metrics (independent of sessions).
pub open spec fn aggregate_statement(project_id: Seq<char>, user_id: Seq<char>) -> Seq<char> {
    "SELECT toDateTime(min(date)) first_seen,\n toDateTime(max(date)) + INTERVAL 1 DAY - INTERVAL 1 SECOND last_seen,\n sum(request_count) request_count, toFloat64(sum(total_cost_usd)) total_cost,\n sum(error_count) error_count, groupUniqArrayMerge(models) models\nFROM reiver.llm_user_metrics_agg WHERE project_id = '"@
        + project_id + "' AND user_id = '"@ + escaped(user_id) + "'\nGROUP BY user_id"@
}

/// The statement that totals one user's metrics.
pub fn aggregate_query(project_id: &str, user_id: &str) -> (r: String)
    ensures
        r@ == aggregate_statement(project_id@, user_id@),
{
    let mut q = owned(
        "SELECT toDateTime(min(date)) first_seen,\n toDateTime(max(date)) + INTERVAL 1 DAY - INTERVAL 1 SECOND last_seen,\n sum(request_count) request_count, toFloat64(sum(total_cost_usd)) total_cost,\n sum(error_count) error_count, groupUniqArrayMerge(models) models\nFROM reiver.llm_user_metrics_agg WHERE project_id = '",
    );
    q.append(project_id);
    q.append("' AND user_id = '");
    q.append(escape_clickhouse_string(user_id).as_str());
    q.append("'\nGROUP BY user_id");
    q
}

/// The statement that lists one user's sessions, oldest first.
pub open spec fn detail_statement(project_id: Seq<char>, user_id: Seq<char>) -> Seq<char> {
    "\nSELECT session_id, anyLast(session_name) session_name, min(first_request_time) first_seen,\n max(last_request_time) last_seen, sum(request_count) request_count, toFloat64(sum(total_cost_usd)) cost,\n sum(error_count) error_count, groupUniqArrayMerge(models) models\nFROM reiver.llm_sessions_agg WHERE project_id = '"@
        + project_id + "' AND user_id = '"@ + escaped(user_id)
        + "'\nGROUP BY session_id ORDER BY first_seen ASC"@
}

/// The statement that lists one user's sessions.
pub fn detail_query(project_id: &str, user_id: &str) -> (r: String)
    ensures
        r@ == detail_statement(project_id@, user_id@),
{
    let mut q = owned(
        "\nSELECT session_id, anyLast(session_name) session_name, min(first_request_time) first_seen,\n max(last_request_time) last_seen, sum(request_count) request_count, toFloat64(sum(total_cost_usd)) cost,\n sum(error_count) error_count, groupUniqArrayMerge(models) models\nFROM reiver.llm_sessions_agg WHERE project_id = '",
    );
    q.append(project_id);
    q.append("' AND user_id = '");
    q.append(escape_clickhouse_string(user_id).as_str());
    q.append("'\nGROUP BY session_id ORDER BY first_seen ASC");
    q
}

/// A user exists when the aggregate has a row or they have sessions.
pub fn has_user_evidence(aggregate_present: bool, session_count: usize) -> (r: bool)
    ensures
        r == (aggregate_present || session_count > 0),
{
    aggregate_present || session_count > 0
}

/// Whether every character is white space (true of the empty text).
pub open spec fn all_space(s: Seq<char>) -> bool {
    forall|i: int| 0 <= i < s.len() ==> is_space(#[trigger] s[i])
}

/// Check the user id of a detail request: it must not be blank.
pub fn check_user_id(user_id: &str) -> (r: Result<(), ApiError>)
    ensures
        all_space(user_id@) ==> (r matches Err(ApiError::Validation(m)) && m@
            == "user_id must be nonblank"@),
        !all_space(user_id@) ==> r is Ok,
{
    let cs = chars_of(user_id);
    let mut i: usize = 0;
    while i < cs.len()
        invariant
            i <= cs@.len(),
            cs@ == user_id@,
            forall|j: int| 0 <= j < i ==> is_space(#[trigger] cs@[j]),
        decreases cs.len() - i,
    {
        if !char_is_space(cs[i]) {
            return Ok(());
        }
        i = i + 1;
    }
    Err(ApiError::Validation(owned("user_id must be nonblank")))
}

/// Whether a session has saved content: its summary says so and content
/// rows exist.
pub fn has_saved_content(saved_summary: bool, content_rows: u64) -> (r: bool)
    ensures
        r == (saved_summary && content_rows > 0),
{
    saved_summary && content_rows > 0
}

/// Path of a saved session's page.
pub fn saved_session_path(session_id: &str) -> (r: String)
    ensures
        r@ == "/llm/sessions/"@ + session_id@,
{
    let mut p = owned("/llm/sessions/");
    p.append(session_id);
    p
}

} // verus!
