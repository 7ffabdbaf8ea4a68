//! Session listings and feedback: paging and the feedback rules.

use vstd::prelude::*;
use vstd::string::*;

use crate::errors::ApiError;
use crate::text::{
    decimal, decimal_string, has_substring, is_blank, lemma_substring_of_concat, owned, trim_spec,
};

verus! {

/// Paging of a session's requests.
pub struct SessionRequestsParams {
    pub limit: u32,
    pub offset: u32,
}

/// Feedback on a session: a 1..=5 score and/or a text.
pub struct SubmitFeedbackRequest {
    pub score: Option<i32>,
    pub text: Option<String>,
}

/// The rule a feedback request breaks, if any.
pub open spec fn feedback_error(score: Option<i32>, text: Option<Seq<char>>) -> Option<Seq<char>> {
    let has_text = match text {
        Some(t) => trim_spec(t).len() != 0,
        None => false,
    };
    if score is None && !has_text {
        Some("At least one of 'score' or 'text' must be provided"@)
    } else if score is Some && (score->0 < 1 || score->0 > 5) {
        Some("Score must be between 1 and 5"@)
    } else {
        None
    }
}

/// Check a feedback request: it needs a score or a non-blank text, and a
/// score lies in 1..=5.
pub fn validate_feedback(req: &SubmitFeedbackRequest) -> (r: Result<(), ApiError>)
    ensures
        match feedback_error(
            req.score,
            match req.text {
                Some(t) => Some(t@),
                None => None,
            },
        ) {
            Some(m) => r matches Err(ApiError::Validation(e)) && e@ == m,
            None => r is Ok,
        },
{
    let has_text = match &req.text {
        Some(t) => !is_blank(t.as_str()),
        None => false,
    };
    if req.score.is_none() && !has_text {
        return Err(ApiError::Validation(owned("At least one of 'score' or 'text' must be provided")));
    }
    if let Some(score) = req.score {
        if score < 1 || score > 5 {
            return Err(ApiError::Validation(owned("Score must be between 1 and 5")));
        }
    }
    Ok(())
}

/// Paging of conversation and message lists.
pub struct PaginationParams {
    pub limit: Option<i64>,
    pub offset: Option<i64>,
}

/// A request to create an agent conversation.
pub struct CreateConversationRequest {
    pub title: Option<String>,
}

/// `v` clamped to `[lo, hi]` (with `lo <= hi`).
pub open spec fn clamp(v: i64, lo: i64, hi: i64) -> i64 {
    if v > hi {
        hi
    } else if v < lo {
        lo
    } else {
        v
    }
}

impl PaginationParams {
    /// The page of a list: limit defaulting to `default_limit` and clamped
    /// to `1..=max_limit`, offset defaulting to 0 and at least 0.
    pub fn page(&self, default_limit: i64, max_limit: i64) -> (r: (i64, i64))
        requires
            1 <= max_limit,
        ensures
            r.0 == clamp(
                match self.limit {
                    Some(l) => l,
                    None => default_limit,
                },
                1,
                max_limit,
            ),
            r.1 == match self.offset {
                Some(o) => if o < 0 {
                    0
                } else {
                    o
                },
                None => 0,
            },
    {
        let l = match self.limit {
            Some(l) => l,
            None => default_limit,
        };
        let limit = if l > max_limit {
            max_limit
        } else if l < 1 {
            1
        } else {
            l
        };
        let offset = match self.offset {
            Some(o) => if o < 0 {
                0
            } else {
                o
            },
            None => 0,
        };
        (limit, offset)
    }
}


/// Largest page of saved sessions.
pub const MAX_SESSIONS_LIMIT: u32 = 1000;

/// The page size of a session listing: the requested one, at most 1000.
pub fn sessions_limit(limit: u32) -> (r: u32)
    ensures
        r == if limit <= MAX_SESSIONS_LIMIT {
            limit
        } else {
            MAX_SESSIONS_LIMIT
        },
{
    if limit <= MAX_SESSIONS_LIMIT {
        limit
    } else {
        MAX_SESSIONS_LIMIT
    }
}

/// Which optional filters a session listing has; each binds one more
/// numbered parameter after the project id (`$1`), in this order.
#[derive(Debug, Clone, Copy)]
pub struct SessionListFilters {
    pub name_pattern: bool,
    pub start_date: bool,
    pub end_date: bool,
    pub profile_id: bool,
}

/// Number of parameters a listing's filters bind, the project id included.
pub open spec fn filter_params(f: SessionListFilters) -> nat {
    1 + (if f.name_pattern { 1nat } else { 0nat }) + (if f.start_date { 1nat } else { 0nat }) + (
    if f.end_date {
        1nat
    } else {
        0nat
    }) + (if f.profile_id {
        1nat
    } else {
        0nat
    })
}

/// The condition of a present filter bound to parameter `$n`.
pub open spec fn cond(present: bool, n: nat, before: Seq<char>, after: Seq<char>) -> Seq<char> {
    if present {
        " AND "@ + before + decimal(n) + after
    } else {
        Seq::empty()
    }
}

/// The WHERE clause of a session listing.
pub open spec fn sessions_where_text(f: SessionListFilters) -> Seq<char> {
    let n1 = 1 + (if f.name_pattern { 1nat } else { 0nat });
    let n2 = n1 + (if f.start_date { 1nat } else { 0nat });
    let n3 = n2 + (if f.end_date { 1nat } else { 0nat });
    let n4 = n3 + (if f.profile_id { 1nat } else { 0nat });
    "s.project_id = $1"@ + cond(f.name_pattern, n1, "s.session_name ILIKE '%' || $"@, " || '%'"@)
        + cond(f.start_date, n2, "s.last_request_time >= $"@, Seq::empty()) + cond(
        f.end_date,
        n3,
        "s.last_request_time <= $"@,
        Seq::empty(),
    ) + cond(
        f.profile_id,
        n4,
        "s.session_id IN (SELECT spm.session_id FROM session_profile_matches spm WHERE spm.project_id = $1 AND spm.profile_id = $"@,
        ")"@,
    )
}

fn push_cond(w: &mut String, present: bool, n: u32, before: &str, after: &str)
    ensures
        final(w)@ == old(w)@ + cond(present, n as nat, before@, after@),
{
    if present {
        w.append(" AND ");
        w.append(before);
        w.append(decimal_string(n as u64).as_str());
        w.append(after);
    }
}

/// The WHERE clause of a session listing and the number of parameters it
/// binds.
pub fn sessions_where(f: SessionListFilters) -> (r: (String, u32))
    ensures
        r.0@ == sessions_where_text(f),
        r.1 == filter_params(f),
{
    let mut w = owned("s.project_id = $1");
    let mut n: u32 = 1;
    if f.name_pattern {
        n = n + 1;
    }
    push_cond(&mut w, f.name_pattern, n, "s.session_name ILIKE '%' || $", " || '%'");
    if f.start_date {
        n = n + 1;
    }
    push_cond(&mut w, f.start_date, n, "s.last_request_time >= $", "");
    if f.end_date {
        n = n + 1;
    }
    push_cond(&mut w, f.end_date, n, "s.last_request_time <= $", "");
    if f.profile_id {
        n = n + 1;
    }
    push_cond(
        &mut w,
        f.profile_id,
        n,
        "s.session_id IN (SELECT spm.session_id FROM session_profile_matches spm WHERE spm.project_id = $1 AND spm.profile_id = $",
        ")",
    );
    proof {
        reveal_strlit("");
    }
    (w, n)
}

/// The listing statement: newest sessions first, the page size and offset
/// bound to the two parameters after the filters'.
pub open spec fn sessions_list_text(f: SessionListFilters) -> Seq<char> {
    "\n        SELECT session_id, user_id, session_name,\n               first_request_time, last_request_time,\n               request_count, total_input_tokens, total_output_tokens,\n               total_cost_usd, error_count,\n               COALESCE(labels, ARRAY[]::TEXT[]) as labels\n        FROM saved_sessions s\n        WHERE "@
        + sessions_where_text(f) + "\n        ORDER BY s.last_request_time DESC\n        LIMIT $"@
        + decimal(filter_params(f) + 1) + " OFFSET $"@ + decimal(filter_params(f) + 2) + "\n        "@
}

/// The session listing puts the newest sessions first: it orders by the
/// last request time descending, and by nothing else, before the page limit.
pub proof fn lemma_sessions_newest_first(f: SessionListFilters)
    ensures
        has_substring(sessions_list_text(f), "ORDER BY s.last_request_time DESC\n        LIMIT $"@),
{
    let head = "\n        SELECT session_id, user_id, session_name,\n               first_request_time, last_request_time,\n               request_count, total_input_tokens, total_output_tokens,\n               total_cost_usd, error_count,\n               COALESCE(labels, ARRAY[]::TEXT[]) as labels\n        FROM saved_sessions s\n        WHERE "@
        + sessions_where_text(f);
    reveal_strlit("\n        ORDER BY s.last_request_time DESC\n        LIMIT $");
    reveal_strlit("\n        ");
    reveal_strlit("ORDER BY s.last_request_time DESC\n        LIMIT $");
    reveal_strlit("");
    assert("\n        ORDER BY s.last_request_time DESC\n        LIMIT $"@ =~= "\n        "@ + "ORDER BY s.last_request_time DESC\n        LIMIT $"@ + ""@);
    let tail = ""@ + decimal(filter_params(f) + 1) + " OFFSET $"@ + decimal(filter_params(f) + 2) + "\n        "@;
    assert(sessions_list_text(f) =~= (head + "\n        "@) + "ORDER BY s.last_request_time DESC\n        LIMIT $"@ + tail);
    lemma_substring_of_concat(head + "\n        "@, "ORDER BY s.last_request_time DESC\n        LIMIT $"@, tail);
}

/// The listing statement of saved sessions.
pub fn sessions_list_sql(f: SessionListFilters) -> (r: String)
    ensures
        r@ == sessions_list_text(f),
{
    let (w, n) = sessions_where(f);
    let mut q = owned(
        "\n        SELECT session_id, user_id, session_name,\n               first_request_time, last_request_time,\n               request_count, total_input_tokens, total_output_tokens,\n               total_cost_usd, error_count,\n               COALESCE(labels, ARRAY[]::TEXT[]) as labels\n        FROM saved_sessions s\n        WHERE ",
    );
    q.append(w.as_str());
    q.append("\n        ORDER BY s.last_request_time DESC\n        LIMIT $");
    q.append(decimal_string(n as u64 + 1).as_str());
    q.append(" OFFSET $");
    q.append(decimal_string(n as u64 + 2).as_str());
    q.append("\n        ");
    q
}

/// The statement counting the sessions a listing selects.
pub fn sessions_count_sql(f: SessionListFilters) -> (r: String)
    ensures
        r@ == "SELECT COUNT(*) FROM saved_sessions s WHERE "@ + sessions_where_text(f),
{
    let (w, _) = sessions_where(f);
    let mut q = owned("SELECT COUNT(*) FROM saved_sessions s WHERE ");
    q.append(w.as_str());
    q
}
} // verus!
