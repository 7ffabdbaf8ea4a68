//! Headless agent runs: automatic investigations of incidents and scheduled
//! agent tasks. What is admitted, what the model is asked, and what is
//! recorded when the run ends.

use vstd::prelude::*;
use vstd::string::*;

use crate::errors::{ApiError, ApiErrorView};
use crate::executor::{outcome_error, outcome_status, outcome_text, LoopOutcome, ToolLoopResult};
use crate::text::{decimal, decimal_string, owned, str_eq};

verus! {

/// Turns an investigation may use.
pub const MAX_INVESTIGATION_TURNS: usize = 10;

/// Turns an agent task may use.
pub const MAX_TASK_TURNS: usize = 15;

/// HTTP status of a refused investigation when the feature is off.
pub const STATUS_CONFLICT: u16 = 409;

/// HTTP status of a refused investigation when one is already running.
pub const STATUS_TOO_MANY_REQUESTS: u16 = 429;

/// Whether an investigation is admitted: automatic investigation must be
/// switched on (the setting reads exactly `true`), the agent must not be
/// switched off (the setting reads `false`), and no investigation of the
/// same trigger may be running. The refusal is an HTTP status.
pub open spec fn investigation_admission(
    auto_investigate: Option<Seq<char>>,
    agent_enabled: Option<Seq<char>>,
    running: bool,
) -> Result<(), u16> {
    if auto_investigate != Some("true"@) {
        Err(STATUS_CONFLICT)
    } else if agent_enabled == Some("false"@) {
        Err(STATUS_CONFLICT)
    } else if running {
        Err(STATUS_TOO_MANY_REQUESTS)
    } else {
        Ok(())
    }
}

fn setting_is(value: &Option<String>, expected: &str) -> (r: bool)
    ensures
        r == (crate::messages::opt_view(*value) == Some(expected@)),
{
    match value {
        Some(v) => str_eq(v.as_str(), expected),
        None => false,
    }
}

/// Decide whether an investigation may start.
pub fn admit_investigation(
    auto_investigate: &Option<String>,
    agent_enabled: &Option<String>,
    running: bool,
) -> (r: Result<(), u16>)
    ensures
        r == investigation_admission(
            crate::messages::opt_view(*auto_investigate),
            crate::messages::opt_view(*agent_enabled),
            running,
        ),
{
    if !setting_is(auto_investigate, "true") {
        return Err(STATUS_CONFLICT);
    }
    if setting_is(agent_enabled, "false") {
        return Err(STATUS_CONFLICT);
    }
    if running {
        return Err(STATUS_TOO_MANY_REQUESTS);
    }
    Ok(())
}

/// Refuse an agent task while one of the same reference is running.
pub fn admit_task(running: bool) -> (r: Result<(), ApiError>)
    ensures
        r is Ok <==> !running,
        r matches Err(e) ==> e@ == ApiErrorView::Conflict("Agent task already running"@),
{
    if running {
        return Err(ApiError::Conflict(owned("Agent task already running")));
    }
    Ok(())
}

/// How a run that ended without a final answer is described: the prefix,
/// the outcome's status in parentheses, then its error detail or, when there
/// is none, its text, or nothing when it has neither.
pub open spec fn stop_text(prefix: Seq<char>, o: LoopOutcome) -> Seq<char> {
    let head = prefix + " stopped ("@ + outcome_status(o) + ")"@;
    if outcome_error(o).len() > 0 {
        head + ": "@ + outcome_error(o)
    } else if outcome_text(o).len() > 0 {
        head + ": "@ + outcome_text(o)
    } else {
        head
    }
}

fn stop_string(prefix: &str, o: &LoopOutcome) -> (r: String)
    ensures
        r@ == stop_text(prefix@, *o),
{
    let mut t = owned(prefix);
    t.append(" stopped (");
    t.append(o.status_str());
    t.append(")");
    let detail = o.error_detail();
    let text = o.assistant_text();
    if !detail.is_empty() {
        t.append(": ");
        t.append(detail);
    } else if !text.is_empty() {
        t.append(": ");
        t.append(text);
    }
    t
}

/// What is recorded when a run ends.
#[derive(Debug)]
pub enum RunRecord {
    /// The run completed: its findings are the final answer.
    Completed { findings: String },
    /// The run stopped early: the text says how.
    Failed { text: String },
}

/// The record of a run whose loop ended with `outcome`, its texts beginning
/// with `prefix`.
pub open spec fn run_record_ok(prefix: Seq<char>, outcome: LoopOutcome, r: RunRecord) -> bool {
    match r {
        RunRecord::Completed { findings } => outcome is Completed && findings@ == outcome_text(
            outcome,
        ),
        RunRecord::Failed { text } => !(outcome is Completed) && text@ == stop_text(
            prefix,
            outcome,
        ),
    }
}

fn run_record(prefix: &str, outcome: &LoopOutcome) -> (r: RunRecord)
    ensures
        run_record_ok(prefix@, *outcome, r),
{
    if outcome.is_success() {
        RunRecord::Completed { findings: owned(outcome.assistant_text()) }
    } else {
        RunRecord::Failed { text: stop_string(prefix, outcome) }
    }
}

/// The record of an investigation whose loop ended with `outcome`.
pub fn investigation_record(outcome: &LoopOutcome) -> (r: RunRecord)
    ensures
        run_record_ok("Investigation"@, *outcome, r),
{
    run_record("Investigation", outcome)
}

/// The record of an agent task whose loop ended with `outcome`.
pub fn task_record(outcome: &LoopOutcome) -> (r: RunRecord)
    ensures
        run_record_ok("Task"@, *outcome, r),
{
    run_record("Task", outcome)
}

/// The text recorded when the loop of an investigation failed with `error`.
pub fn investigation_error_text(error: &str) -> (r: String)
    ensures
        r@ == "Investigation failed: "@ + error@,
{
    let mut t = owned("Investigation failed: ");
    t.append(error);
    t
}

/// The text recorded when the loop of an agent task failed with `error`.
pub fn task_error_text(error: &str) -> (r: String)
    ensures
        r@ == "Task failed: "@ + error@,
{
    let mut t = owned("Task failed: ");
    t.append(error);
    t
}

/// Tokens used by a run, input and output together.
pub fn total_tokens(result: &ToolLoopResult) -> (r: u64)
    requires
        result.total_input_tokens + result.total_output_tokens <= u64::MAX,
    ensures
        r == result.total_input_tokens + result.total_output_tokens,
{
    result.total_input_tokens + result.total_output_tokens
}

/// The message an agent task gives the model: its prompt, or, when the
/// prompt is empty, an order to execute the task type.
pub open spec fn task_message_text(task_type: Seq<char>, prompt: Seq<char>) -> Seq<char> {
    if prompt.len() == 0 {
        "Execute the "@ + task_type + " task."@
    } else {
        prompt
    }
}

/// The message an agent task gives the model.
pub fn task_user_message(task_type: &str, prompt: &str) -> (r: String)
    ensures
        r@ == task_message_text(task_type@, prompt@),
{
    if prompt.is_empty() {
        let mut t = owned("Execute the ");
        t.append(task_type);
        t.append(" task.");
        t
    } else {
        owned(prompt)
    }
}

/// Which variables of the task context reach the prompt.
#[derive(Debug, PartialEq, Eq, Structural)]
pub enum TaskVariables {
    /// Only the context's `config_id` member, when it has one.
    ConfigId,
    /// The whole context, as variable `context`.
    WholeContext,
}

/// The prompt configuration of a task type and the variables it takes.
pub open spec fn task_prompt_spec(task_type: Seq<char>) -> (Seq<char>, TaskVariables) {
    if task_type == "prompt_compiler"@ {
        ("moodeng-prompt-compiler"@, TaskVariables::ConfigId)
    } else {
        ("moodeng-agent-task"@, TaskVariables::WholeContext)
    }
}

/// The prompt configuration of a task type and the variables it takes.
pub fn task_prompt(task_type: &str) -> (r: (String, TaskVariables))
    ensures
        (r.0@, r.1) == task_prompt_spec(task_type@),
{
    if str_eq(task_type, "prompt_compiler") {
        (owned("moodeng-prompt-compiler"), TaskVariables::ConfigId)
    } else {
        (owned("moodeng-agent-task"), TaskVariables::WholeContext)
    }
}

/// The prompt configuration of investigations.
pub open spec fn investigation_prompt_config() -> Seq<char> {
    "moodeng-investigation"@
}

/// The prompt configuration of investigations.
pub fn investigation_prompt() -> (r: String)
    ensures
        r@ == investigation_prompt_config(),
{
    owned("moodeng-investigation")
}

/// Whether a task is the model-catalog sync rather than an agent run.
pub fn is_catalog_sync(task_type: &str) -> (r: bool)
    ensures
        r == (task_type@ == "pricing_sync"@),
{
    str_eq(task_type, "pricing_sync")
}

/// The provider and model parts of a catalog model id `provider/model`,
/// split at the first slash.
pub open spec fn model_slugs_spec(id: Seq<char>) -> Option<(Seq<char>, Seq<char>)> {
    if exists|i: int| 0 <= i < id.len() && id[i] == '/' {
        let i = choose|i: int|
            0 <= i < id.len() && id[i] == '/' && forall|j: int| 0 <= j < i ==> id[j] != '/';
        Some((id.subrange(0, i), id.subrange(i + 1, id.len() as int)))
    } else {
        None
    }
}

/// Split a catalog model id at its first slash.
pub fn model_slugs(id: &str) -> (r: Option<(String, String)>)
    ensures
        match r {
            Some((p, m)) => model_slugs_spec(id@) == Some((p@, m@)),
            None => model_slugs_spec(id@) is None,
        },
{
    let cs = crate::text::chars_of(id);
    match crate::text::find_char(&cs, '/') {
        Some(i) => {
            proof {
                assert(0 <= i < id@.len() && id@[i as int] == '/' && forall|j: int|
                    0 <= j < i ==> id@[j] != '/');
                let k = choose|k: int|
                    0 <= k < id@.len() && id@[k] == '/' && forall|j: int| 0 <= j < k ==> id@[j]
                        != '/';
                if k < i {
                    assert(id@[k] != '/');
                }
                if i < k {
                    assert(id@[i as int] != '/');
                }
            }
            let n = cs.len();
            let head = crate::text::chars_range(&cs, 0, i);
            let tail = crate::text::chars_range(&cs, i + 1, n);
            Some((head, tail))
        },
        None => None,
    }
}

/// The summary of a catalog sync.
pub open spec fn catalog_summary_text(total: nat, upserted: nat, errors: nat) -> Seq<char> {
    "Model catalog sync complete: "@ + decimal(total) + " fetched, "@ + decimal(upserted)
        + " upserted, "@ + decimal(errors) + " errors"@
}

/// The summary of a catalog sync.
pub fn catalog_summary(total: u64, upserted: u64, errors: u64) -> (r: String)
    ensures
        r@ == catalog_summary_text(total as nat, upserted as nat, errors as nat),
{
    let mut t = owned("Model catalog sync complete: ");
    t.append(decimal_string(total).as_str());
    t.append(" fetched, ");
    t.append(decimal_string(upserted).as_str());
    t.append(" upserted, ");
    t.append(decimal_string(errors).as_str());
    t.append(" errors");
    t
}

/// The text recorded when a catalog sync failed with `error`.
pub fn catalog_error_text(error: &str) -> (r: String)
    ensures
        r@ == "Model catalog sync failed: "@ + error@,
{
    let mut t = owned("Model catalog sync failed: ");
    t.append(error);
    t
}

} // verus!
