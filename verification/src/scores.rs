//! Evaluation scores: their types, the values each type accepts, and the
//! SQL that stores batches of scores and lists them.

use vstd::prelude::*;
use vstd::string::*;

use crate::decimal::{dec_eq, dec_le, DecimalValue};
use crate::errors::ApiError;
use crate::text::{
    decimal, decimal_string, has_substring, join, join_spec, lemma_substring_of_concat, owned,
    strings_view,
};

verus! {

/// Kind of an evaluation score.
#[derive(Debug, Clone, Copy, PartialEq, Eq, Structural)]
pub enum ScoreType {
    Number,
    Boolean,
    Category,
}

impl ScoreType {
    /// The stored name of the type.
    pub fn as_str(&self) -> (r: &'static str)
        ensures
            r@ == (match self {
                ScoreType::Number => "number"@,
                ScoreType::Boolean => "boolean"@,
                ScoreType::Category => "category"@,
            }),
    {
        match self {
            ScoreType::Number => "number",
            ScoreType::Boolean => "boolean",
            ScoreType::Category => "category",
        }
    }

    /// The type of a score that names none.
    pub fn default_type() -> (r: ScoreType)
        ensures
            r == ScoreType::Number,
    {
        ScoreType::Number
    }
}

/// The rule a score breaks, if any: booleans are 0 or 1, numbers lie in
/// `[0, 100]`, categories are free.
pub open spec fn score_error(t: ScoreType, v: DecimalValue) -> Option<Seq<char>> {
    if t == ScoreType::Boolean && !(v.mantissa == 0 || dec_eq(v, 1)) {
        Some("Boolean scores must be 0 or 1"@)
    } else if t == ScoreType::Number && (v.mantissa < 0 || !dec_le(v, 100)) {
        Some("Numeric scores must be between 0 and 100"@)
    } else {
        None
    }
}

/// Check a score's value against its type.
pub fn validate_score(score_type: &ScoreType, score_value: DecimalValue) -> (r: Result<(), ApiError>)
    ensures
        match score_error(*score_type, score_value) {
            Some(m) => r matches Err(ApiError::Validation(e)) && e@ == m,
            None => r is Ok,
        },
{
    if *score_type == ScoreType::Boolean && !(score_value.is_zero() || score_value.equals(1)) {
        return Err(ApiError::Validation(owned("Boolean scores must be 0 or 1")));
    }
    if *score_type == ScoreType::Number && (score_value.is_negative() || !score_value.at_most(100)) {
        return Err(ApiError::Validation(owned("Numeric scores must be between 0 and 100")));
    }
    Ok(())
}

// ---------------------------------------------------------------------------
// Batches of scores
// ---------------------------------------------------------------------------

/// Scores stored by one insert statement at most.
pub const BATCH_CHUNK_SIZE: usize = 100;

/// The errors of the scores of a batch from `i` on, each prefixed by the
/// score's position.
pub open spec fn batch_errors(scores: Seq<(ScoreType, DecimalValue)>, i: nat) -> Seq<Seq<char>>
    decreases scores.len() - i,
{
    if i >= scores.len() {
        Seq::empty()
    } else {
        (match score_error(scores[i as int].0, scores[i as int].1) {
            Some(e) => seq!["Score "@ + decimal(i) + ": "@ + e],
            None => Seq::empty(),
        }) + batch_errors(scores, i + 1)
    }
}

/// Check every score of a batch: `Ok` when all are valid, otherwise every
/// score's error, joined by `; ` after `Validation errors: `.
pub fn validate_batch(scores: &Vec<(ScoreType, DecimalValue)>) -> (r: Result<(), ApiError>)
    ensures
        batch_errors(scores@, 0).len() == 0 ==> r is Ok,
        batch_errors(scores@, 0).len() > 0 ==> (r matches Err(ApiError::Validation(m)) && m@
            == "Validation errors: "@ + join_spec(batch_errors(scores@, 0), "; "@)),
{
    let mut errors: Vec<String> = Vec::new();
    let mut i: usize = 0;
    while i < scores.len()
        invariant
            i <= scores@.len(),
            strings_view(errors@) + batch_errors(scores@, i as nat) == batch_errors(scores@, 0),
        decreases scores.len() - i,
    {
        let ghost before = strings_view(errors@);
        let (t, v) = scores[i];
        match validate_score(&t, v) {
            Err(ApiError::Validation(e)) => {
                let mut m = owned("Score ");
                m.append(decimal_string(i as u64).as_str());
                m.append(": ");
                m.append(e.as_str());
                errors.push(m);
                proof {
                    assert(strings_view(errors@) =~= before.push(m@));
                    assert(before.push(m@) + batch_errors(scores@, i as nat + 1) =~= before
                        + batch_errors(scores@, i as nat));
                }
            },
            _ => {
                proof {
                    assert(strings_view(errors@) + batch_errors(scores@, i as nat + 1) =~= before
                        + batch_errors(scores@, i as nat));
                }
            },
        }
        i = i + 1;
    }
    proof {
        assert(batch_errors(scores@, i as nat) =~= Seq::<Seq<char>>::empty());
        assert(strings_view(errors@) =~= batch_errors(scores@, 0));
    }
    if errors.len() == 0 {
        Ok(())
    } else {
        let mut m = owned("Validation errors: ");
        m.append(join(&errors, "; ").as_str());
        Err(ApiError::Validation(m))
    }
}

/// The ten numbered parameters of row `i` of an insert: `($k+1, ..., $k+10)`
/// with `k` ten times `i`.
pub open spec fn row_placeholders(i: nat) -> Seq<char> {
    "($"@ + decimal(10 * i + 1) + ", $"@ + decimal(10 * i + 2) + ", $"@ + decimal(10 * i + 3)
        + ", $"@ + decimal(10 * i + 4) + ", $"@ + decimal(10 * i + 5) + ", $"@ + decimal(10 * i + 6)
        + ", $"@ + decimal(10 * i + 7) + ", $"@ + decimal(10 * i + 8) + ", $"@ + decimal(10 * i + 9)
        + ", $"@ + decimal(10 * i + 10) + ")"@
}

/// The placeholder groups of the first `n` rows.
pub open spec fn rows_placeholders(n: nat) -> Seq<Seq<char>>
    decreases n,
{
    if n == 0 {
        Seq::empty()
    } else {
        rows_placeholders((n - 1) as nat).push(row_placeholders((n - 1) as nat))
    }
}

/// The statement that inserts `rows` scores, ten columns each.
pub open spec fn batch_insert_sql_spec(rows: nat) -> Seq<char> {
    "\n            INSERT INTO llm_evaluation_scores \n            (id, project_id, request_id, score_name, score_value, score_type, reason, evaluator_type, evaluator_id, created_at)\n            VALUES "@
        + join_spec(rows_placeholders(rows), ", "@) + "\n            "@
}

fn row_placeholder_text(i: usize) -> (r: String)
    requires
        10 * i + 10 <= u64::MAX,
    ensures
        r@ == row_placeholders(i as nat),
{
    let base: u64 = 10 * (i as u64);
    let mut s = owned("($");
    s.append(decimal_string(base + 1).as_str());
    s.append(", $");
    s.append(decimal_string(base + 2).as_str());
    s.append(", $");
    s.append(decimal_string(base + 3).as_str());
    s.append(", $");
    s.append(decimal_string(base + 4).as_str());
    s.append(", $");
    s.append(decimal_string(base + 5).as_str());
    s.append(", $");
    s.append(decimal_string(base + 6).as_str());
    s.append(", $");
    s.append(decimal_string(base + 7).as_str());
    s.append(", $");
    s.append(decimal_string(base + 8).as_str());
    s.append(", $");
    s.append(decimal_string(base + 9).as_str());
    s.append(", $");
    s.append(decimal_string(base + 10).as_str());
    s.append(")");
    s
}

/// The statement that inserts `rows` scores with numbered parameters.
pub fn batch_insert_sql(rows: usize) -> (r: String)
    requires
        10 * rows + 10 <= u64::MAX,
    ensures
        r@ == batch_insert_sql_spec(rows as nat),
{
    let mut groups: Vec<String> = Vec::new();
    let mut i: usize = 0;
    while i < rows
        invariant
            i <= rows,
            10 * rows + 10 <= u64::MAX,
            strings_view(groups@) == rows_placeholders(i as nat),
        decreases rows - i,
    {
        let g = row_placeholder_text(i);
        let ghost before = groups@;
        groups.push(g);
        proof {
            assert(strings_view(groups@) =~= strings_view(before).push(g@));
        }
        i = i + 1;
    }
    let mut q = owned(
        "\n            INSERT INTO llm_evaluation_scores \n            (id, project_id, request_id, score_name, score_value, score_type, reason, evaluator_type, evaluator_id, created_at)\n            VALUES ",
    );
    q.append(join(&groups, ", ").as_str());
    q.append("\n            ");
    q
}

// ---------------------------------------------------------------------------
// Listing scores
// ---------------------------------------------------------------------------

/// Most scores a page holds.
pub const MAX_SCORES_LIMIT: u32 = 1000;

/// The optional filters a listing of scores was given.
pub struct ScoreFilters {
    pub score_name: bool,
    pub evaluator_type: bool,
    pub start_date: bool,
    pub end_date: bool,
}

/// The conditions of a listing: the project (`$1`), then each given filter
/// with the next parameter number.
pub open spec fn score_conditions(f: ScoreFilters) -> Seq<Seq<char>> {
    let c0 = seq!["project_id = $1"@];
    let k0: nat = 2;
    let c1 = if f.score_name {
        c0.push("score_name = $"@ + decimal(k0))
    } else {
        c0
    };
    let k1: nat = if f.score_name {
        k0 + 1
    } else {
        k0
    };
    let c2 = if f.evaluator_type {
        c1.push("evaluator_type = $"@ + decimal(k1))
    } else {
        c1
    };
    let k2: nat = if f.evaluator_type {
        k1 + 1
    } else {
        k1
    };
    let c3 = if f.start_date {
        c2.push("created_at >= $"@ + decimal(k2))
    } else {
        c2
    };
    let k3: nat = if f.start_date {
        k2 + 1
    } else {
        k2
    };
    if f.end_date {
        c3.push("created_at <= $"@ + decimal(k3))
    } else {
        c3
    }
}

/// A requested page size, capped at [`MAX_SCORES_LIMIT`].
pub open spec fn scores_limit(limit: u32) -> nat {
    if limit > MAX_SCORES_LIMIT {
        MAX_SCORES_LIMIT as nat
    } else {
        limit as nat
    }
}

/// The query listing a project's scores, newest first.
pub open spec fn list_scores_sql_spec(f: ScoreFilters, limit: u32, offset: u32) -> Seq<char> {
    "\n        SELECT id, project_id, request_id, score_name, score_value, score_type, \n               reason, evaluator_type, evaluator_id, created_at\n        FROM llm_evaluation_scores\n        WHERE "@
        + join_spec(score_conditions(f), " AND "@) + "\n        ORDER BY created_at DESC\n        LIMIT "@
        + decimal(scores_limit(limit)) + " OFFSET "@ + decimal(offset as nat) + "\n        "@
}

/// The score listing puts the newest scores first: it orders by
/// `created_at` descending, and by nothing else, before the page limit.
pub proof fn lemma_scores_newest_first(f: ScoreFilters, limit: u32, offset: u32)
    ensures
        has_substring(list_scores_sql_spec(f, limit, offset), "ORDER BY created_at DESC\n        LIMIT "@),
{
    let head = "\n        SELECT id, project_id, request_id, score_name, score_value, score_type, \n               reason, evaluator_type, evaluator_id, created_at\n        FROM llm_evaluation_scores\n        WHERE "@
        + join_spec(score_conditions(f), " AND "@);
    reveal_strlit("\n        ORDER BY created_at DESC\n        LIMIT ");
    reveal_strlit("\n        ");
    reveal_strlit("ORDER BY created_at DESC\n        LIMIT ");
    reveal_strlit("");
    assert("\n        ORDER BY created_at DESC\n        LIMIT "@ =~= "\n        "@ + "ORDER BY created_at DESC\n        LIMIT "@ + ""@);
    let tail = ""@ + decimal(scores_limit(limit)) + " OFFSET "@ + decimal(offset as nat) + "\n        "@;
    assert(list_scores_sql_spec(f, limit, offset) =~= (head + "\n        "@) + "ORDER BY created_at DESC\n        LIMIT "@ + tail);
    lemma_substring_of_concat(head + "\n        "@, "ORDER BY created_at DESC\n        LIMIT "@, tail);
}

fn push_condition(conds: &mut Vec<String>, column: &str, k: u64)
    ensures
        strings_view(final(conds)@) == strings_view(old(conds)@).push(column@ + decimal(k as nat)),
{
    let mut c = owned(column);
    c.append(decimal_string(k).as_str());
    let ghost before = conds@;
    conds.push(c);
    proof {
        assert(strings_view(conds@) =~= strings_view(before).push(c@));
    }
}

/// The query listing a project's scores with the given filters, newest
/// first, one page of at most [`MAX_SCORES_LIMIT`] rows; the filters' values
/// are bound as parameters in the order of the conditions.
pub fn list_scores_sql(f: &ScoreFilters, limit: u32, offset: u32) -> (r: String)
    ensures
        r@ == list_scores_sql_spec(*f, limit, offset),
{
    let mut conds: Vec<String> = Vec::new();
    conds.push(owned("project_id = $1"));
    let mut k: u64 = 2;
    proof {
        assert(strings_view(conds@) =~= seq!["project_id = $1"@]);
    }
    if f.score_name {
        push_condition(&mut conds, "score_name = $", k);
        k = k + 1;
    }
    if f.evaluator_type {
        push_condition(&mut conds, "evaluator_type = $", k);
        k = k + 1;
    }
    if f.start_date {
        push_condition(&mut conds, "created_at >= $", k);
        k = k + 1;
    }
    if f.end_date {
        push_condition(&mut conds, "created_at <= $", k);
    }
    let page: u32 = if limit > MAX_SCORES_LIMIT {
        MAX_SCORES_LIMIT
    } else {
        limit
    };
    let mut q = owned(
        "\n        SELECT id, project_id, request_id, score_name, score_value, score_type, \n               reason, evaluator_type, evaluator_id, created_at\n        FROM llm_evaluation_scores\n        WHERE ",
    );
    q.append(join(&conds, " AND ").as_str());
    q.append("\n        ORDER BY created_at DESC\n        LIMIT ");
    q.append(decimal_string(page as u64).as_str());
    q.append(" OFFSET ");
    q.append(decimal_string(offset as u64).as_str());
    q.append("\n        ");
    q
}

} // verus!
