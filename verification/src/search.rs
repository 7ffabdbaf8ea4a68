//! Text search over stored LLM request and response content.

use vstd::prelude::*;
use vstd::string::*;

use crate::errors::ApiError;
use crate::sql::{escape_clickhouse_string, escaped};
use crate::text::{
    chars_of, decimal, decimal_string, has_substring, is_blank, lemma_substring_of_concat, owned,
    push_char, trim_spec,
};

verus! {

/// Most results a search returns.
pub const MAX_SEARCH_LIMIT: u32 = 100;

/// Characters of matched content shown per result.
pub const PREVIEW_LENGTH: usize = 200;

/// The result count of a search that names none.
pub fn default_search_limit() -> (r: u32)
    ensures
        r == 10,
{
    10
}

/// The limit a search runs with: the requested one, at most 100.
pub fn search_limit(limit: u32) -> (r: u32)
    ensures
        r == if limit <= MAX_SEARCH_LIMIT {
            limit
        } else {
            MAX_SEARCH_LIMIT
        },
{
    if limit <= MAX_SEARCH_LIMIT {
        limit
    } else {
        MAX_SEARCH_LIMIT
    }
}

/// A preview of at most `max_chars` characters: the content itself when it
/// fits, else its first `max_chars - 3` characters and `...`.
pub open spec fn preview(content: Seq<char>, max_chars: nat) -> Seq<char> {
    if content.len() <= max_chars {
        content
    } else {
        content.subrange(0, max_chars - 3) + "..."@
    }
}

/// Cut content to a preview of at most `max_chars` characters.
pub fn truncate_preview(content: &str, max_chars: usize) -> (r: String)
    requires
        content@.len() <= max_chars || max_chars >= 3,
    ensures
        r@ == preview(content@, max_chars as nat),
{
    let cs = chars_of(content);
    if cs.len() <= max_chars {
        return owned(content);
    }
    let keep = max_chars - 3;
    let mut out = String::new();
    let mut i: usize = 0;
    while i < keep
        invariant
            i <= keep < cs@.len(),
            cs@ == content@,
            out@ == content@.subrange(0, i as int),
        decreases keep - i,
    {
        push_char(&mut out, cs[i]);
        proof {
            assert(content@.subrange(0, i as int + 1) =~= content@.subrange(0, i as int).push(
                content@[i as int],
            ));
        }
        i = i + 1;
    }
    out.append("...");
    out
}

/// A search request. Times are given as `%Y-%m-%d %H:%M:%S` text.
pub struct SearchRequest {
    pub project_id: String,
    pub query: String,
    pub limit: u32,
    pub model: Option<String>,
    pub user_id: Option<String>,
    pub session_id: Option<String>,
    pub start_time: Option<String>,
    pub end_time: Option<String>,
}

/// The clause `AND <column> = '<escaped value>'` when a value is given.
pub open spec fn eq_clause(column: Seq<char>, v: Option<Seq<char>>) -> Seq<char> {
    match v {
        Some(x) => " AND "@ + column + " = '"@ + escaped(x) + "'"@,
        None => Seq::empty(),
    }
}

/// The time-window clauses: from the start time (or the last 30 days when
/// neither bound is given) up to the end time.
pub open spec fn time_clauses(start: Option<Seq<char>>, end: Option<Seq<char>>) -> Seq<char> {
    (match start {
        Some(t) => " AND timestamp >= toDateTime64('"@ + t + "', 9)"@,
        None => if end is None {
            " AND timestamp >= now() - INTERVAL 30 DAY"@
        } else {
            Seq::empty()
        },
    }) + (match end {
        Some(t) => " AND timestamp <= toDateTime64('"@ + t + "', 9)"@,
        None => Seq::empty(),
    })
}

/// The text-match clause of a search for `query`.
pub open spec fn match_clause(project_id: Seq<char>, query: Seq<char>) -> Seq<char> {
    "project_id = '"@ + project_id + "' AND (positionCaseInsensitive(request_messages, '"@
        + escaped(query) + "') > 0 OR positionCaseInsensitive(response_content, '"@ + escaped(query)
        + "') > 0)"@
}

/// The test that a row's text matches a search: the escaped query occurs,
/// ignoring case, in the request messages or in the response content.
pub open spec fn text_match_test(query: Seq<char>) -> Seq<char> {
    "(positionCaseInsensitive(request_messages, '"@ + escaped(query)
        + "') > 0 OR positionCaseInsensitive(response_content, '"@ + escaped(query) + "') > 0)"@
}

/// A search looks at both texts of a request: whatever filters follow, its
/// WHERE clause is conjoined with the test that the escaped query occurs,
/// case-insensitively, in `request_messages` or in `response_content`.
pub proof fn lemma_search_tests_both_columns(project_id: Seq<char>, query: Seq<char>, filters: Seq<char>)
    ensures
        has_substring(match_clause(project_id, query) + filters, " AND "@ + text_match_test(query)),
        has_substring(
            match_clause(project_id, query) + filters,
            "positionCaseInsensitive(request_messages, '"@ + escaped(query) + "') > 0"@,
        ),
        has_substring(
            match_clause(project_id, query) + filters,
            "positionCaseInsensitive(response_content, '"@ + escaped(query) + "') > 0"@,
        ),
{
    let e = escaped(query);
    reveal_strlit("' AND (positionCaseInsensitive(request_messages, '");
    reveal_strlit("' AND (");
    reveal_strlit("' AND ");
    reveal_strlit(" AND ");
    reveal_strlit("(positionCaseInsensitive(request_messages, '");
    reveal_strlit("positionCaseInsensitive(request_messages, '");
    reveal_strlit("') > 0 OR positionCaseInsensitive(response_content, '");
    reveal_strlit("') > 0");
    reveal_strlit(" OR ");
    reveal_strlit("positionCaseInsensitive(response_content, '");
    reveal_strlit("') > 0)");
    reveal_strlit(")");
    reveal_strlit("'");
    reveal_strlit("(");
    let w = match_clause(project_id, query) + filters;
    let pre = "project_id = '"@ + project_id;
    let both = " AND "@ + text_match_test(query);
    assert(w =~= pre + "'"@ + both + filters);
    lemma_substring_of_concat(pre + "'"@, both, filters);
    let req = "positionCaseInsensitive(request_messages, '"@ + e + "') > 0"@;
    let resp = "positionCaseInsensitive(response_content, '"@ + e + "') > 0"@;
    assert(w =~= (pre + "' AND ("@) + req + (" OR "@ + resp + ")"@ + filters));
    lemma_substring_of_concat(pre + "' AND ("@, req, " OR "@ + resp + ")"@ + filters);
    assert(w =~= (pre + "' AND ("@ + req + " OR "@) + resp + (")"@ + filters));
    lemma_substring_of_concat(pre + "' AND ("@ + req + " OR "@, resp, ")"@ + filters);
}

/// View of an optional string.
pub open spec fn ov(s: Option<String>) -> Option<Seq<char>> {
    match s {
        Some(t) => Some(t@),
        None => None,
    }
}

fn push_eq_clause(w: &mut String, column: &str, v: &Option<String>)
    ensures
        final(w)@ == old(w)@ + eq_clause(column@, ov(*v)),
{
    if let Some(x) = v {
        w.append(" AND ");
        w.append(column);
        w.append(" = '");
        w.append(escape_clickhouse_string(x.as_str()).as_str());
        w.append("'");
    }
}

fn push_time_clauses(w: &mut String, start: &Option<String>, end: &Option<String>)
    ensures
        final(w)@ == old(w)@ + time_clauses(ov(*start), ov(*end)),
{
    let ghost w0 = w@;
    if let Some(t) = start {
        w.append(" AND timestamp >= toDateTime64('");
        w.append(t.as_str());
        w.append("', 9)");
    } else if end.is_none() {
        w.append(" AND timestamp >= now() - INTERVAL 30 DAY");
    }
    let ghost w1 = w@;
    if let Some(t) = end {
        w.append(" AND timestamp <= toDateTime64('");
        w.append(t.as_str());
        w.append("', 9)");
    }
    proof {
        assert(w@ =~= w0 + time_clauses(ov(*start), ov(*end)));
    }
}

/// The WHERE clause of a search; an error when the query is blank.
pub fn search_where_clause(req: &SearchRequest) -> (r: Result<String, ApiError>)
    ensures
        trim_spec(req.query@).len() == 0 ==> (r matches Err(ApiError::Validation(m)) && m@
            == "Query cannot be empty"@),
        trim_spec(req.query@).len() != 0 ==> (r matches Ok(w) && w@ == match_clause(
            req.project_id@,
            req.query@,
        ) + eq_clause("gen_ai_request_model"@, ov(req.model)) + eq_clause("user_id"@, ov(req.user_id))
            + eq_clause("session_id"@, ov(req.session_id)) + time_clauses(
            ov(req.start_time),
            ov(req.end_time),
        )),
{
    if is_blank(req.query.as_str()) {
        return Err(ApiError::Validation(owned("Query cannot be empty")));
    }
    let q = escape_clickhouse_string(req.query.as_str());
    let mut w = owned("project_id = '");
    w.append(req.project_id.as_str());
    w.append("' AND (positionCaseInsensitive(request_messages, '");
    w.append(q.as_str());
    w.append("') > 0 OR positionCaseInsensitive(response_content, '");
    w.append(q.as_str());
    w.append("') > 0)");
    push_eq_clause(&mut w, "gen_ai_request_model", &req.model);
    push_eq_clause(&mut w, "user_id", &req.user_id);
    push_eq_clause(&mut w, "session_id", &req.session_id);
    push_time_clauses(&mut w, &req.start_time, &req.end_time);
    Ok(w)
}

/// The search statement around a WHERE clause.
pub open spec fn search_statement(q: Seq<char>, where_clause: Seq<char>, limit: u32) -> Seq<char> {
    "\n        SELECT\n            request_id,\n            if(\n                positionCaseInsensitive(response_content, '"@
        + escaped(q)
        + "') > 0,\n                response_content,\n                request_messages\n            ) as matched_content,\n            gen_ai_request_model as model,\n            user_id,\n            session_id,\n            timestamp,\n            status_code,\n            duration_ms\n        FROM reiver.llm_requests\n        WHERE "@
        + where_clause + "\n        ORDER BY timestamp DESC\n        LIMIT "@ + decimal(limit as nat)
        + "\n        "@
}

/// A search lists its matches newest first: after its WHERE clause the
/// statement orders by `timestamp` descending, and by nothing else, before
/// the limit.
pub proof fn lemma_search_newest_first(q: Seq<char>, where_clause: Seq<char>, limit: u32)
    ensures
        has_substring(search_statement(q, where_clause, limit), "ORDER BY timestamp DESC\n        LIMIT "@),
{
    let head = "\n        SELECT\n            request_id,\n            if(\n                positionCaseInsensitive(response_content, '"@
        + escaped(q)
        + "') > 0,\n                response_content,\n                request_messages\n            ) as matched_content,\n            gen_ai_request_model as model,\n            user_id,\n            session_id,\n            timestamp,\n            status_code,\n            duration_ms\n        FROM reiver.llm_requests\n        WHERE "@
        + where_clause;
    reveal_strlit("\n        ORDER BY timestamp DESC\n        LIMIT ");
    reveal_strlit("\n        ");
    reveal_strlit("ORDER BY timestamp DESC\n        LIMIT ");
    reveal_strlit("");
    assert("\n        ORDER BY timestamp DESC\n        LIMIT "@ =~= "\n        "@ + "ORDER BY timestamp DESC\n        LIMIT "@ + ""@);
    let tail = ""@ + decimal(limit as nat)
        + "\n        "@;
    assert(search_statement(q, where_clause, limit) =~= (head + "\n        "@) + "ORDER BY timestamp DESC\n        LIMIT "@ + tail);
    lemma_substring_of_concat(head + "\n        "@, "ORDER BY timestamp DESC\n        LIMIT "@, tail);
}

/// The whole search statement: newest matches first, at most the capped
/// limit; an error when the query is blank.
pub fn search_sql(req: &SearchRequest) -> (r: Result<String, ApiError>)
    ensures
        trim_spec(req.query@).len() == 0 ==> (r matches Err(ApiError::Validation(m)) && m@
            == "Query cannot be empty"@),
        trim_spec(req.query@).len() != 0 ==> (r matches Ok(sql) && sql@ == search_statement(
            req.query@,
            match_clause(req.project_id@, req.query@) + eq_clause(
                "gen_ai_request_model"@,
                ov(req.model),
            ) + eq_clause("user_id"@, ov(req.user_id)) + eq_clause("session_id"@, ov(req.session_id))
                + time_clauses(ov(req.start_time), ov(req.end_time)),
            if req.limit <= MAX_SEARCH_LIMIT {
                req.limit
            } else {
                MAX_SEARCH_LIMIT
            },
        )),
{
    let w = match search_where_clause(req) {
        Ok(w) => w,
        Err(e) => {
            return Err(e);
        },
    };
    let q = escape_clickhouse_string(req.query.as_str());
    let limit = search_limit(req.limit);
    let mut sql = owned(
        "\n        SELECT\n            request_id,\n            if(\n                positionCaseInsensitive(response_content, '",
    );
    sql.append(q.as_str());
    sql.append(
        "') > 0,\n                response_content,\n                request_messages\n            ) as matched_content,\n            gen_ai_request_model as model,\n            user_id,\n            session_id,\n            timestamp,\n            status_code,\n            duration_ms\n        FROM reiver.llm_requests\n        WHERE ",
    );
    sql.append(w.as_str());
    sql.append("\n        ORDER BY timestamp DESC\n        LIMIT ");
    sql.append(decimal_string(limit as u64).as_str());
    sql.append("\n        ");
    Ok(sql)
}

} // verus!
