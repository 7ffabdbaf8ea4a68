//! Prompt versions and canary rollouts: request validation and the default
//! stage plan.

use vstd::prelude::*;
use vstd::string::*;

use crate::decimal::{dec_le, DecimalValue};
use crate::errors::{ApiError, ApiErrorView};
use crate::messages::byte_len;
use crate::text::{is_blank, owned, trim_spec};

verus! {

/// Longest accepted config or rollout name.
pub const MAX_NAME_LENGTH: usize = 255;

/// Requests a stage needs by default before it may advance.
pub const DEFAULT_MIN_REQUESTS: i32 = 100;

/// Weight of the final stage: all traffic on the new version.
pub const COMPLETED_WEIGHT: i32 = 100;

/// Largest accepted system prompt, in bytes (5 MiB).
pub const MAX_SYSTEM_PROMPT_SIZE: usize = 5_242_880;

/// Largest accepted tools definition, serialised, in bytes (256 KiB).
pub const MAX_TOOLS_SIZE: usize = 262_144;

/// Largest accepted response-format schema, serialised, in bytes (64 KiB).
pub const MAX_RESPONSE_FORMAT_SIZE: usize = 65_536;

/// How a rollout advances between stages.
#[derive(Debug, Clone, Copy, PartialEq, Eq, Structural)]
pub enum RolloutMode {
    Auto,
    Manual,
}

impl RolloutMode {
    /// The stored name of the mode.
    pub fn as_str(&self) -> (r: &'static str)
        ensures
            r@ == (match self {
                RolloutMode::Auto => "auto"@,
                RolloutMode::Manual => "manual"@,
            }),
    {
        match self {
            RolloutMode::Auto => "auto",
            RolloutMode::Manual => "manual",
        }
    }

    /// The mode of a rollout that names none.
    pub fn default_mode() -> (r: RolloutMode)
        ensures
            r == RolloutMode::Auto,
    {
        RolloutMode::Auto
    }
}

/// Whether a decimal lies in `[0, 1]`.
pub open spec fn in_unit_range(d: DecimalValue) -> bool {
    0 <= d.mantissa && dec_le(d, 1)
}

/// A request to create a prompt version.
pub struct CreateVersionRequest {
    pub project_id: u128,
    pub system_prompt: Option<String>,
    pub model: Option<String>,
    pub temperature: DecimalValue,
    pub max_tokens: Option<i32>,
    pub commit_message: String,
    /// Size in bytes of the serialised tools definition, when one is given.
    pub tools_size: Option<usize>,
    /// Size in bytes of the serialised response-format schema, when one is given.
    pub response_format_size: Option<usize>,
}

/// The first rule a version request breaks, if any. `variables` is the
/// verdict on its template variable definitions (checked by the gateway's
/// own variable rules).
pub open spec fn version_request_error(
    system_prompt_bytes: Option<nat>,
    temperature: DecimalValue,
    commit_message: Seq<char>,
    tools_size: Option<usize>,
    response_format_size: Option<usize>,
    variables: Result<(), Seq<char>>,
    max_tokens: Option<i32>,
) -> Option<Seq<char>> {
    if system_prompt_bytes is Some && system_prompt_bytes->0 > MAX_SYSTEM_PROMPT_SIZE {
        Some("System prompt exceeds 5MB limit"@)
    } else if !in_unit_range(temperature) {
        Some("Temperature must be between 0 and 1"@)
    } else if trim_spec(commit_message).len() == 0 {
        Some("Commit message is required"@)
    } else if tools_size is Some && tools_size->0 > MAX_TOOLS_SIZE {
        Some("Tools definition exceeds 256KB limit"@)
    } else if response_format_size is Some && response_format_size->0 > MAX_RESPONSE_FORMAT_SIZE {
        Some("Response format schema exceeds 64KB limit"@)
    } else if variables is Err {
        Some(variables->Err_0)
    } else if max_tokens is Some && (max_tokens->0 < 1 || max_tokens->0 > 1_000_000) {
        Some("max_tokens must be between 1 and 1,000,000"@)
    } else {
        None
    }
}

/// Validate a version request's fields before touching the database.
pub fn validate_version_request(req: &CreateVersionRequest, variables: Result<(), String>) -> (r:
    Result<(), ApiError>)
    ensures
        match version_request_error(
            match req.system_prompt {
                Some(p) => Some(byte_len(p@) as nat),
                None => None,
            },
            req.temperature,
            req.commit_message@,
            req.tools_size,
            req.response_format_size,
            match variables {
                Ok(_) => Ok(()),
                Err(m) => Err(m@),
            },
            req.max_tokens,
        ) {
            Some(m) => r matches Err(ApiError::Validation(e)) && e@ == m,
            None => r is Ok,
        },
{
    if let Some(prompt) = &req.system_prompt {
        if prompt.as_str().len() > MAX_SYSTEM_PROMPT_SIZE {
            return Err(ApiError::Validation(owned("System prompt exceeds 5MB limit")));
        }
    }
    if req.temperature.is_negative() || !req.temperature.at_most(1) {
        return Err(ApiError::Validation(owned("Temperature must be between 0 and 1")));
    }
    if is_blank(req.commit_message.as_str()) {
        return Err(ApiError::Validation(owned("Commit message is required")));
    }
    if let Some(size) = req.tools_size {
        if size > MAX_TOOLS_SIZE {
            return Err(ApiError::Validation(owned("Tools definition exceeds 256KB limit")));
        }
    }
    if let Some(size) = req.response_format_size {
        if size > MAX_RESPONSE_FORMAT_SIZE {
            return Err(ApiError::Validation(owned("Response format schema exceeds 64KB limit")));
        }
    }
    if let Err(m) = variables {
        return Err(ApiError::Validation(m));
    }
    if let Some(max_tokens) = req.max_tokens {
        if max_tokens < 1 || max_tokens > 1_000_000 {
            return Err(ApiError::Validation(owned("max_tokens must be between 1 and 1,000,000")));
        }
    }
    Ok(())
}

/// One stage of a canary rollout.
pub struct StageConfig {
    pub weight: i32,
    pub min_duration_minutes: Option<i32>,
    pub min_requests: Option<i32>,
    pub max_error_rate_increase: Option<DecimalValue>,
    pub max_latency_increase_pct: Option<DecimalValue>,
    pub min_quality_score: Option<DecimalValue>,
}

fn plain_stage(weight: i32, minutes: i32, requests: i32) -> (r: StageConfig)
    ensures
        r.weight == weight,
        r.min_duration_minutes == Some(minutes),
        r.min_requests == Some(requests),
        r.max_error_rate_increase is None,
        r.max_latency_increase_pct is None,
        r.min_quality_score is None,
{
    StageConfig {
        weight,
        min_duration_minutes: Some(minutes),
        min_requests: Some(requests),
        max_error_rate_increase: None,
        max_latency_increase_pct: None,
        min_quality_score: None,
    }
}

/// The default plan's (weight, minutes, requests), stage by stage.
pub open spec fn default_plan() -> Seq<(i32, i32, i32)> {
    seq![(1, 10, 100), (5, 10, 100), (10, 10, 100), (25, 15, 100), (50, 15, 100), (75, 15, 100), (100, 0, 0)]
}

/// The conservative seven-stage progression 1% → 5% → 10% → 25% → 50% →
/// 75% → 100%, without quality thresholds.
pub fn default_stages() -> (r: Vec<StageConfig>)
    ensures
        r@.len() == default_plan().len(),
        forall|i: int|
            0 <= i < r@.len() ==> {
                &&& (#[trigger] r@[i]).weight == default_plan()[i].0
                &&& r@[i].min_duration_minutes == Some(default_plan()[i].1)
                &&& r@[i].min_requests == Some(default_plan()[i].2)
                &&& r@[i].max_error_rate_increase is None
                &&& r@[i].max_latency_increase_pct is None
                &&& r@[i].min_quality_score is None
            },
{
    let mut v: Vec<StageConfig> = Vec::new();
    v.push(plain_stage(1, 10, DEFAULT_MIN_REQUESTS));
    v.push(plain_stage(5, 10, DEFAULT_MIN_REQUESTS));
    v.push(plain_stage(10, 10, DEFAULT_MIN_REQUESTS));
    v.push(plain_stage(25, 15, DEFAULT_MIN_REQUESTS));
    v.push(plain_stage(50, 15, DEFAULT_MIN_REQUESTS));
    v.push(plain_stage(75, 15, DEFAULT_MIN_REQUESTS));
    v.push(plain_stage(COMPLETED_WEIGHT, 0, 0));
    v
}

/// The first constraint a stage plan breaks, if any: it must have a stage,
/// positive weights, strictly ascending weights and a final weight of 100.
pub open spec fn stages_error(weights: Seq<i32>) -> Option<Seq<char>> {
    if weights.len() == 0 {
        Some("At least one stage is required"@)
    } else if exists|i: int| 0 <= i < weights.len() && weights[i] <= 0 {
        Some("Stage weights must be positive"@)
    } else if exists|i: int| 1 <= i < weights.len() && #[trigger] weights[i] <= weights[i - 1] {
        Some("Stage weights must be in ascending order"@)
    } else if weights.last() != COMPLETED_WEIGHT {
        Some("Final stage must have weight 100"@)
    } else {
        None
    }
}

/// The weights of a stage plan.
pub open spec fn stage_weights(stages: Seq<StageConfig>) -> Seq<i32> {
    stages.map_values(|s: StageConfig| s.weight)
}

/// Validate a custom stage plan: `Ok` when it is valid, otherwise the first
/// constraint it breaks.
pub fn validate_rollout_stages(stages: &[StageConfig]) -> (r: Result<(), ApiError>)
    ensures
        match stages_error(stage_weights(stages@)) {
            Some(m) => r matches Err(ApiError::Validation(e)) && e@ == m,
            None => r is Ok,
        },
{
    let ghost w = stage_weights(stages@);
    if stages.len() == 0 {
        return Err(ApiError::Validation(owned("At least one stage is required")));
    }
    let mut i: usize = 0;
    while i < stages.len()
        invariant
            i <= stages@.len(),
            w == stage_weights(stages@),
            forall|j: int| 0 <= j < i ==> w[j] > 0,
        decreases stages.len() - i,
    {
        if stages[i].weight <= 0 {
            proof {
                assert(w[i as int] <= 0);
            }
            return Err(ApiError::Validation(owned("Stage weights must be positive")));
        }
        i = i + 1;
    }
    let mut i: usize = 1;
    while i < stages.len()
        invariant
            1 <= i <= stages@.len(),
            w == stage_weights(stages@),
            forall|j: int| 0 <= j < w.len() ==> w[j] > 0,
            forall|j: int| 1 <= j < i ==> #[trigger] w[j] > w[j - 1],
        decreases stages.len() - i,
    {
        if stages[i].weight <= stages[i - 1].weight {
            proof {
                assert(w[i as int] <= w[i - 1]);
            }
            return Err(ApiError::Validation(owned("Stage weights must be in ascending order")));
        }
        i = i + 1;
    }
    if stages[stages.len() - 1].weight != COMPLETED_WEIGHT {
        return Err(ApiError::Validation(owned("Final stage must have weight 100")));
    }
    Ok(())
}

/// The default plan is a valid plan.
pub proof fn lemma_default_stages_valid(stages: Seq<StageConfig>)
    requires
        stages.len() == default_plan().len(),
        forall|i: int| 0 <= i < stages.len() ==> (#[trigger] stages[i]).weight == default_plan()[i].0,
    ensures
        stages_error(stage_weights(stages)) is None,
{
    let w = stage_weights(stages);
    assert forall|i: int| 0 <= i < w.len() implies w[i] > 0 by {
        assert(stages[i].weight == default_plan()[i].0);
    }
    assert forall|i: int| 1 <= i < w.len() implies #[trigger] w[i] > w[i - 1] by {
        assert(stages[i].weight == default_plan()[i].0);
        assert(stages[i - 1].weight == default_plan()[i - 1].0);
    }
    assert(stages[6].weight == 100);
}


// ---------------------------------------------------------------------------
// Rollout lifecycle
// ---------------------------------------------------------------------------

/// Status of a rollout.
#[derive(Debug, Clone, Copy, PartialEq, Eq, Structural)]
pub enum RolloutStatus {
    Pending,
    Running,
    Paused,
    Completed,
    RolledBack,
}

/// Status of one stage of a rollout.
#[derive(Debug, Clone, Copy, PartialEq, Eq, Structural)]
pub enum StageStatus {
    Pending,
    Active,
    Passed,
    Failed,
}

/// Where a rollout stands: its status, its current stage and the weight of
/// traffic sent to the target version, with the status of each stage.
#[derive(Debug)]
pub struct RolloutProgress {
    pub status: RolloutStatus,
    pub current_stage: i32,
    pub current_weight: i32,
    pub stages: Vec<StageStatus>,
}

/// The stage statuses with stage `i` (when it exists) set to `s`.
pub open spec fn set_stage(st: Seq<StageStatus>, i: int, s: StageStatus) -> Seq<StageStatus> {
    if 0 <= i < st.len() {
        st.update(i, s)
    } else {
        st
    }
}

fn set_stage_status(st: &mut Vec<StageStatus>, i: i32, s: StageStatus)
    ensures
        final(st)@ == set_stage(old(st)@, i as int, s),
{
    if 0 <= i && (i as usize) < st.len() {
        st.set(i as usize, s);
    }
}

/// The stage statuses with every status in `from` replaced by `to`.
pub open spec fn replaced(st: Seq<StageStatus>, from: Set<StageStatus>, to: StageStatus) -> Seq<
    StageStatus,
> {
    st.map_values(|x: StageStatus| if from.contains(x) { to } else { x })
}

fn replace_statuses(st: &mut Vec<StageStatus>, a: StageStatus, b: StageStatus, to: StageStatus)
    ensures
        final(st)@ == replaced(old(st)@, set![a, b], to),
{
    let ghost orig = st@;
    let mut i: usize = 0;
    while i < st.len()
        invariant
            i <= st@.len(),
            st@.len() == orig.len(),
            forall|k: int| 0 <= k < i ==> st@[k] == replaced(orig, set![a, b], to)[k],
            forall|k: int| i <= k < st@.len() ==> st@[k] == orig[k],
        decreases st.len() - i,
    {
        let x = st[i];
        if x == a || x == b {
            st.set(i, to);
        }
        i = i + 1;
    }
    proof {
        assert(st@ =~= replaced(orig, set![a, b], to));
    }
}

fn refused(message: &str) -> (r: Result<RolloutProgress, ApiError>)
    ensures
        r matches Err(ApiError::Validation(m)) && m@ == message@,
{
    Err(ApiError::Validation(owned(message)))
}

fn copy_statuses(st: &Vec<StageStatus>) -> (r: Vec<StageStatus>)
    ensures
        r@ == st@,
{
    let mut out: Vec<StageStatus> = Vec::new();
    let mut i: usize = 0;
    while i < st.len()
        invariant
            i <= st@.len(),
            out@ == st@.subrange(0, i as int),
        decreases st.len() - i,
    {
        out.push(st[i]);
        proof {
            assert(st@.subrange(0, i as int + 1) =~= st@.subrange(0, i as int).push(st@[i as int]));
        }
        i = i + 1;
    }
    proof {
        assert(st@.subrange(0, st@.len() as int) =~= st@);
    }
    out
}

impl RolloutProgress {
    /// Start a pending rollout at its first stage, with that stage's weight
    /// (1 when the plan has no stage).
    pub fn start(&self, weights: &Vec<i32>) -> (r: Result<RolloutProgress, ApiError>)
        ensures
            self.status != RolloutStatus::Pending ==> (r matches Err(ApiError::Validation(m)) && m@
                == "Rollout not found or not in pending state"@),
            self.status == RolloutStatus::Pending ==> (r matches Ok(p) && p.status
                == RolloutStatus::Running && p.current_stage == 0 && p.current_weight == (if weights@.len()
                > 0 {
                weights@[0]
            } else {
                1
            }) && p.stages@ == set_stage(self.stages@, 0, StageStatus::Active)),
    {
        if self.status != RolloutStatus::Pending {
            return refused("Rollout not found or not in pending state");
        }
        let weight = if weights.len() > 0 {
            weights[0]
        } else {
            1
        };
        let mut stages = copy_statuses(&self.stages);
        set_stage_status(&mut stages, 0, StageStatus::Active);
        Ok(RolloutProgress { status: RolloutStatus::Running, current_stage: 0, current_weight: weight, stages })
    }

    /// Pause a running rollout.
    pub fn pause(&self) -> (r: Result<RolloutProgress, ApiError>)
        ensures
            self.status != RolloutStatus::Running ==> (r matches Err(ApiError::Validation(m)) && m@
                == "Rollout not found or not running"@),
            self.status == RolloutStatus::Running ==> (r matches Ok(p) && p.status
                == RolloutStatus::Paused && p.current_stage == self.current_stage && p.current_weight
                == self.current_weight && p.stages@ == self.stages@),
    {
        if self.status != RolloutStatus::Running {
            return refused("Rollout not found or not running");
        }
        Ok(RolloutProgress {
            status: RolloutStatus::Paused,
            current_stage: self.current_stage,
            current_weight: self.current_weight,
            stages: copy_statuses(&self.stages),
        })
    }

    /// Promote a running rollout: the current stage passes, and the next
    /// stage of the plan starts with its weight; after the last stage the
    /// rollout completes at full weight.
    pub fn promote(&self, weights: &Vec<i32>) -> (r: Result<RolloutProgress, ApiError>)
        requires
            self.current_stage < i32::MAX,
        ensures
            self.status != RolloutStatus::Running ==> (r matches Err(ApiError::Validation(m)) && m@
                == "Rollout not found or not running"@),
            self.status == RolloutStatus::Running ==> (r matches Ok(p) && {
                let next = self.current_stage + 1;
                let passed = set_stage(self.stages@, self.current_stage as int, StageStatus::Passed);
                if 0 <= next < weights@.len() {
                    &&& p.status == RolloutStatus::Running
                    &&& p.current_stage == next
                    &&& p.current_weight == weights@[next]
                    &&& p.stages@ == set_stage(passed, next, StageStatus::Active)
                } else {
                    &&& p.status == RolloutStatus::Completed
                    &&& p.current_stage == self.current_stage
                    &&& p.current_weight == COMPLETED_WEIGHT
                    &&& p.stages@ == passed
                }
            }),
    {
        if self.status != RolloutStatus::Running {
            return refused("Rollout not found or not running");
        }
        let mut stages = copy_statuses(&self.stages);
        set_stage_status(&mut stages, self.current_stage, StageStatus::Passed);
        let next = self.current_stage + 1;
        if 0 <= next && (next as usize) < weights.len() {
            set_stage_status(&mut stages, next, StageStatus::Active);
            Ok(RolloutProgress {
                status: RolloutStatus::Running,
                current_stage: next,
                current_weight: weights[next as usize],
                stages,
            })
        } else {
            Ok(RolloutProgress {
                status: RolloutStatus::Completed,
                current_stage: self.current_stage,
                current_weight: COMPLETED_WEIGHT,
                stages,
            })
        }
    }

    /// Roll back a running or paused rollout: no traffic goes to the target
    /// any more, and the active stage fails.
    pub fn rollback(&self) -> (r: Result<RolloutProgress, ApiError>)
        ensures
            !(self.status == RolloutStatus::Running || self.status == RolloutStatus::Paused) ==> (
            r matches Err(ApiError::Validation(m)) && m@
                == "Rollout not found or not in running/paused state"@),
            (self.status == RolloutStatus::Running || self.status == RolloutStatus::Paused) ==> (
            r matches Ok(p) && p.status == RolloutStatus::RolledBack && p.current_stage
                == self.current_stage && p.current_weight == 0 && p.stages@ == replaced(
                self.stages@,
                set![StageStatus::Active, StageStatus::Active],
                StageStatus::Failed,
            )),
    {
        if !(self.status == RolloutStatus::Running || self.status == RolloutStatus::Paused) {
            return refused("Rollout not found or not in running/paused state");
        }
        let mut stages = copy_statuses(&self.stages);
        replace_statuses(&mut stages, StageStatus::Active, StageStatus::Active, StageStatus::Failed);
        Ok(RolloutProgress {
            status: RolloutStatus::RolledBack,
            current_stage: self.current_stage,
            current_weight: 0,
            stages,
        })
    }

    /// Complete a running or paused rollout at once: every stage not yet
    /// decided passes and the target gets full weight.
    pub fn complete(&self) -> (r: Result<RolloutProgress, ApiError>)
        ensures
            !(self.status == RolloutStatus::Running || self.status == RolloutStatus::Paused) ==> (
            r matches Err(ApiError::Validation(m)) && m@
                == "Rollout not found or not in running/paused state"@),
            (self.status == RolloutStatus::Running || self.status == RolloutStatus::Paused) ==> (
            r matches Ok(p) && p.status == RolloutStatus::Completed && p.current_stage
                == self.current_stage && p.current_weight == COMPLETED_WEIGHT && p.stages@ == replaced(
                self.stages@,
                set![StageStatus::Pending, StageStatus::Active],
                StageStatus::Passed,
            )),
    {
        if !(self.status == RolloutStatus::Running || self.status == RolloutStatus::Paused) {
            return refused("Rollout not found or not in running/paused state");
        }
        let mut stages = copy_statuses(&self.stages);
        replace_statuses(&mut stages, StageStatus::Pending, StageStatus::Active, StageStatus::Passed);
        Ok(RolloutProgress {
            status: RolloutStatus::Completed,
            current_stage: self.current_stage,
            current_weight: COMPLETED_WEIGHT,
            stages,
        })
    }
}

/// Under a valid stage plan, promoting a rollout that stands at one of its
/// stages with that stage's weight never lowers the target's weight, and
/// never raises it above 100.
pub proof fn lemma_promote_raises_weight(weights: Seq<i32>, stage: i32, weight: i32)
    requires
        stages_error(weights) is None,
        0 <= stage < weights.len(),
        weight == weights[stage as int],
        stage < i32::MAX,
    ensures
        ({
            let next = stage + 1;
            let new_weight = if 0 <= next < weights.len() {
                weights[next]
            } else {
                COMPLETED_WEIGHT
            };
            &&& new_weight >= weight
            &&& new_weight <= COMPLETED_WEIGHT
        }),
{
    let n = weights.len() as int;
    assert forall|i: int| 0 <= i < n implies #[trigger] weights[i] <= weights[n - 1] by {
        lemma_ascending(weights, i, n - 1);
    }
    if stage + 1 < n {
        assert(weights[stage + 1] > weights[stage + 1 - 1]);
    }
}

proof fn lemma_ascending(weights: Seq<i32>, i: int, j: int)
    requires
        forall|k: int| 1 <= k < weights.len() ==> #[trigger] weights[k] > weights[k - 1],
        0 <= i <= j < weights.len(),
    ensures
        weights[i] <= weights[j],
    decreases j - i,
{
    if i < j {
        lemma_ascending(weights, i, j - 1);
        assert(weights[j] > weights[j - 1]);
    }
}
// ---------------------------------------------------------------------------
// Prompt configs
// ---------------------------------------------------------------------------

/// The rule a config name breaks, if any: it must not be blank and must fit
/// in [`MAX_NAME_LENGTH`] bytes.
pub open spec fn config_name_error(name: Seq<char>) -> Option<Seq<char>> {
    if trim_spec(name).len() == 0 {
        Some("Name cannot be empty"@)
    } else if byte_len(name) > MAX_NAME_LENGTH {
        Some("Name cannot exceed 255 characters"@)
    } else {
        None
    }
}

/// Check the name of a prompt config being created or renamed.
pub fn validate_config_name(name: &str) -> (r: Result<(), ApiError>)
    ensures
        match config_name_error(name@) {
            None => r is Ok,
            Some(m) => r matches Err(ApiError::Validation(e)) && e@ == m,
        },
{
    if is_blank(name) {
        return Err(ApiError::Validation(owned("Name cannot be empty")));
    }
    if name.len() > MAX_NAME_LENGTH {
        return Err(ApiError::Validation(owned("Name cannot exceed 255 characters")));
    }
    Ok(())
}

/// The error when a project already has a config of that name.
pub fn duplicate_config_name(name: &str) -> (r: ApiError)
    ensures
        r matches ApiError::Validation(m) && m@ == "A prompt config with name '"@ + name@
            + "' already exists in this project"@,
{
    let mut m = owned("A prompt config with name '");
    m.append(name);
    m.append("' already exists in this project");
    ApiError::Validation(m)
}

/// A config is not deleted while one of its rollouts runs.
pub fn check_config_deletable(has_running_rollout: bool) -> (r: Result<(), ApiError>)
    ensures
        !has_running_rollout ==> r is Ok,
        has_running_rollout ==> (r matches Err(ApiError::Validation(m)) && m@
            == "Cannot delete config with active rollout. Stop the rollout first."@),
{
    if has_running_rollout {
        Err(ApiError::Validation(owned("Cannot delete config with active rollout. Stop the rollout first.")))
    } else {
        Ok(())
    }
}

// ---------------------------------------------------------------------------
// Listing rollouts
// ---------------------------------------------------------------------------

/// Most rollouts a page holds.
pub const MAX_ROLLOUTS_LIMIT: u32 = 100;

/// A requested page size of rollouts, capped at [`MAX_ROLLOUTS_LIMIT`].
pub fn rollouts_limit(limit: u32) -> (r: u32)
    ensures
        r == if limit > MAX_ROLLOUTS_LIMIT {
            MAX_ROLLOUTS_LIMIT
        } else {
            limit
        },
{
    if limit > MAX_ROLLOUTS_LIMIT {
        MAX_ROLLOUTS_LIMIT
    } else {
        limit
    }
}

/// The statement listing a project's rollouts with their config and version
/// numbers, newest first: the project is `$1`, the page `$2` and `$3`, then
/// the config and the status when filtered by them, in that order.
pub open spec fn list_rollouts_sql_spec(by_config: bool, by_status: bool) -> Seq<char> {
    "\n        SELECT r.id, r.project_id, r.config_id, r.target_version_id, r.baseline_version_id, \n               r.name, r.status, r.mode, r.allocation_type, r.current_stage, r.current_weight, \n               r.created_at, r.started_at, r.completed_at, r.last_stage_change_at,\n               c.name as config_name,\n               tv.version as target_version,\n               bv.version as baseline_version\n        FROM llm_rollouts r\n        JOIN llm_prompt_configs c ON r.config_id = c.id\n        JOIN llm_prompt_versions tv ON r.target_version_id = tv.id\n        LEFT JOIN llm_prompt_versions bv ON r.baseline_version_id = bv.id\n        WHERE r.project_id = $1\n        "@ + (if by_config {
        " AND r.config_id = $4"@
    } else {
        Seq::empty()
    }) + (if by_status {
        if by_config {
            " AND r.status = $5"@
        } else {
            " AND r.status = $4"@
        }
    } else {
        Seq::empty()
    }) + " ORDER BY r.created_at DESC LIMIT $2 OFFSET $3"@
}

/// The statement listing a project's rollouts; see [`list_rollouts_sql_spec`].
pub fn list_rollouts_sql(by_config: bool, by_status: bool) -> (r: String)
    ensures
        r@ == list_rollouts_sql_spec(by_config, by_status),
{
    let mut q = owned("\n        SELECT r.id, r.project_id, r.config_id, r.target_version_id, r.baseline_version_id, \n               r.name, r.status, r.mode, r.allocation_type, r.current_stage, r.current_weight, \n               r.created_at, r.started_at, r.completed_at, r.last_stage_change_at,\n               c.name as config_name,\n               tv.version as target_version,\n               bv.version as baseline_version\n        FROM llm_rollouts r\n        JOIN llm_prompt_configs c ON r.config_id = c.id\n        JOIN llm_prompt_versions tv ON r.target_version_id = tv.id\n        LEFT JOIN llm_prompt_versions bv ON r.baseline_version_id = bv.id\n        WHERE r.project_id = $1\n        ");
    let ghost q0 = q@;
    if by_config {
        q.append(" AND r.config_id = $4");
    }
    let ghost q1 = q@;
    proof {
        assert(q1 == q0 + (if by_config {
            " AND r.config_id = $4"@
        } else {
            Seq::<char>::empty()
        }));
    }
    if by_status {
        if by_config {
            q.append(" AND r.status = $5");
        } else {
            q.append(" AND r.status = $4");
        }
    }
    let ghost q2 = q@;
    proof {
        assert(q2 == q1 + (if by_status {
            if by_config {
                " AND r.status = $5"@
            } else {
                " AND r.status = $4"@
            }
        } else {
            Seq::<char>::empty()
        }));
    }
    q.append(" ORDER BY r.created_at DESC LIMIT $2 OFFSET $3");
    q
}

} // verus!
