//! Gateway settings of a project: the agent's soul, the defaults, reading
//! stored setting rows, and the rules an update must satisfy.

use vstd::prelude::*;
use vstd::string::*;

use crate::errors::ApiError;
use crate::profiles::{is_registered, is_valid_field, SessionProfile};
use crate::text::{
    chars_of, decimal, decimal_string, is_blank, join, join_spec, owned, str_eq, strings_view,
    trim_spec,
};

verus! {

/// Thinking budget of a project that sets none.
pub const DEFAULT_THINKING_BUDGET_TOKENS: i32 = 10000;

/// Requests per minute of a project that sets none.
pub const DEFAULT_RATE_LIMIT_RPM: i32 = 60;

/// Most session labels a project may define.
pub const MAX_SESSION_LABELS: usize = 50;

/// A label of the session taxonomy; the classifier applies it by its
/// definition (or, without one, by its name).
#[derive(Debug)]
pub struct SessionLabel {
    pub name: String,
    pub definition: String,
}

/// A service the agent should know about.
#[derive(Debug)]
pub struct KeyService {
    pub name: String,
    pub description: String,
    pub owner: Option<String>,
}

/// What to do when something happens.
#[derive(Debug)]
pub struct Playbook {
    pub trigger: String,
    pub instructions: String,
}

/// The agent's per-project personality and domain context.
#[derive(Debug)]
pub struct AgentSoul {
    pub project_description: String,
    pub tech_context: String,
    pub custom_instructions: String,
    pub tone: Option<String>,
    pub key_services: Vec<KeyService>,
    pub important_thresholds: Vec<String>,
    pub known_issues: Vec<String>,
    pub playbooks: Vec<Playbook>,
    pub never_do: Vec<String>,
    pub always_do: Vec<String>,
}

/// Whether a soul says nothing at all.
pub open spec fn soul_empty(s: AgentSoul) -> bool {
    &&& s.project_description@.len() == 0
    &&& s.tech_context@.len() == 0
    &&& s.custom_instructions@.len() == 0
    &&& s.tone is None
    &&& s.key_services@.len() == 0
    &&& s.important_thresholds@.len() == 0
    &&& s.known_issues@.len() == 0
    &&& s.playbooks@.len() == 0
    &&& s.never_do@.len() == 0
    &&& s.always_do@.len() == 0
}

impl AgentSoul {
    /// Whether the soul says nothing at all.
    pub fn is_empty(&self) -> (r: bool)
        ensures
            r == soul_empty(*self),
    {
        self.project_description.as_str().is_empty() && self.tech_context.as_str().is_empty()
            && self.custom_instructions.as_str().is_empty() && self.tone.is_none()
            && self.key_services.len() == 0 && self.important_thresholds.len() == 0
            && self.known_issues.len() == 0 && self.playbooks.len() == 0 && self.never_do.len() == 0
            && self.always_do.len() == 0
    }

    /// The empty soul.
    pub fn empty() -> (r: AgentSoul)
        ensures
            soul_empty(r),
    {
        AgentSoul {
            project_description: String::new(),
            tech_context: String::new(),
            custom_instructions: String::new(),
            tone: None,
            key_services: Vec::new(),
            important_thresholds: Vec::new(),
            known_issues: Vec::new(),
            playbooks: Vec::new(),
            never_do: Vec::new(),
            always_do: Vec::new(),
        }
    }
}

/// Default of boolean settings that are on unless turned off.
pub fn default_true() -> (r: bool)
    ensures
        r,
{
    true
}

/// Default thinking budget.
pub fn default_thinking_budget() -> (r: i32)
    ensures
        r == DEFAULT_THINKING_BUDGET_TOKENS,
{
    DEFAULT_THINKING_BUDGET_TOKENS
}

/// Default retry count.
pub fn default_retry_attempts() -> (r: i32)
    ensures
        r == 3,
{
    3
}

/// Default rate limit.
pub fn default_rpm() -> (r: i32)
    ensures
        r == DEFAULT_RATE_LIMIT_RPM,
{
    DEFAULT_RATE_LIMIT_RPM
}

// ---------------------------------------------------------------------------
// Reading stored rows
// ---------------------------------------------------------------------------

/// The value of a decimal digit character.
pub open spec fn digit_value(c: char) -> int {
    c as int - '0' as int
}

/// Whether all characters are decimal digits.
pub open spec fn all_digits(s: Seq<char>) -> bool {
    forall|i: int| 0 <= i < s.len() ==> '0' <= #[trigger] s[i] && s[i] <= '9'
}

/// The number written by decimal digits.
pub open spec fn digits_value(s: Seq<char>) -> int
    decreases s.len(),
{
    if s.len() == 0 {
        0
    } else {
        10 * digits_value(s.drop_last()) + digit_value(s.last())
    }
}

/// What `str::parse::<i32>` reads: an optional sign and one or more digits,
/// within range.
pub open spec fn parsed_i32(s: Seq<char>) -> Option<i32> {
    let neg = s.len() > 0 && s[0] == '-';
    let signed = s.len() > 0 && (s[0] == '-' || s[0] == '+');
    let digits = if signed {
        s.subrange(1, s.len() as int)
    } else {
        s
    };
    let v = if neg {
        -digits_value(digits)
    } else {
        digits_value(digits)
    };
    if digits.len() > 0 && all_digits(digits) && i32::MIN <= v <= i32::MAX {
        Some(v as i32)
    } else {
        None
    }
}

proof fn lemma_digits_nonneg(s: Seq<char>)
    requires
        all_digits(s),
    ensures
        digits_value(s) >= 0,
    decreases s.len(),
{
    if s.len() > 0 {
        assert(all_digits(s.drop_last())) by {
            assert forall|i: int| 0 <= i < s.drop_last().len() implies '0' <= #[trigger] s.drop_last()[i] && s.drop_last()[i] <= '9' by {
                assert(s.drop_last()[i] == s[i]);
            }
        }
        lemma_digits_nonneg(s.drop_last());
        assert('0' <= s[s.len() - 1]);
    }
}

/// Read a number as `str::parse::<i32>` does.
pub fn parse_i32(s: &str) -> (r: Option<i32>)
    ensures
        r == parsed_i32(s@),
{
    let cs = chars_of(s);
    let n = cs.len();
    if n == 0 {
        return None;
    }
    let neg = cs[0] == '-';
    let start: usize = if cs[0] == '-' || cs[0] == '+' {
        1
    } else {
        0
    };
    let ghost digits = s@.subrange(start as int, n as int);
    proof {
        assert(digits =~= (if s@[0] == '-' || s@[0] == '+' {
            s@.subrange(1, s@.len() as int)
        } else {
            s@
        }));
    }
    if start >= n {
        return None;
    }
    // Accumulate the magnitude as a negative number so that i32::MIN fits.
    let mut acc: i64 = 0;
    let mut i = start;
    while i < n
        invariant
            start <= i <= n,
            n == cs@.len(),
            cs@ == s@,
            n > 0,
            digits == s@.subrange(start as int, n as int),
            digits == (if s@[0] == '-' || s@[0] == '+' {
                s@.subrange(1, s@.len() as int)
            } else {
                s@
            }),
            neg == (s@[0] == '-'),
            all_digits(s@.subrange(start as int, i as int)),
            acc == digits_value(s@.subrange(start as int, i as int)),
            0 <= acc <= 2_147_483_648,
        decreases n - i,
    {
        let c = cs[i];
        if !('0' <= c && c <= '9') {
            proof {
                assert(digits[i - start] == c);
                assert(!all_digits(digits));
            }
            return None;
        }
        let d = (c as u32 - '0' as u32) as i64;
        proof {
            assert(s@.subrange(start as int, i as int + 1).drop_last() =~= s@.subrange(start as int, i as int));
            assert(all_digits(s@.subrange(start as int, i as int + 1))) by {
                assert forall|k: int| 0 <= k < i + 1 - start implies '0' <= #[trigger] s@.subrange(start as int, i as int + 1)[k] && s@.subrange(start as int, i as int + 1)[k] <= '9' by {
                    if k < i - start {
                        assert(s@.subrange(start as int, i as int + 1)[k] == s@.subrange(start as int, i as int)[k]);
                    }
                }
            }
        }
        let next = acc * 10 + d;
        proof {
            let pre = s@.subrange(start as int, i as int + 1);
            assert(pre.last() == c);
            assert(digit_value(c) == d);
            assert(digits_value(pre) == next);
        }
        if next > 2_147_483_648 {
            proof {
                let rest = s@.subrange(start as int, n as int);
                lemma_prefix_value_grows(rest, (i + 1 - start) as int);
                assert(rest.subrange(0, (i + 1 - start) as int) =~= s@.subrange(start as int, i as int + 1));
                assert(rest =~= digits);
            }
            return None;
        }
        acc = next;
        i = i + 1;
    }
    proof {
        assert(s@.subrange(start as int, n as int) =~= digits);
    }
    if neg {
        let v = -acc;
        if v < i32::MIN as i64 {
            return None;
        }
        Some(v as i32)
    } else {
        if acc > i32::MAX as i64 {
            return None;
        }
        Some(acc as i32)
    }
}

/// Extending digits never makes the number smaller.
proof fn lemma_prefix_value_grows(s: Seq<char>, k: int)
    requires
        0 <= k <= s.len(),
    ensures
        all_digits(s) ==> digits_value(s) >= digits_value(s.subrange(0, k)),
    decreases s.len() - k,
{
    if k == s.len() {
        assert(s.subrange(0, k) =~= s);
    } else if all_digits(s) {
        lemma_prefix_value_grows(s, k + 1);
        let p = s.subrange(0, k + 1);
        let q = s.subrange(0, k);
        assert(p.drop_last() =~= q);
        assert(all_digits(q)) by {
            assert forall|i: int| 0 <= i < q.len() implies '0' <= #[trigger] q[i] && q[i] <= '9' by {
                assert(q[i] == s[i]);
            }
        }
        lemma_digits_nonneg(q);
        assert(p.last() == s[k]);
        assert('0' <= s[k]);
        assert(digits_value(p) == 10 * digits_value(q) + digit_value(s[k]));
    }
}

/// A stored flag is on when its value is exactly `true`.
pub fn parse_flag(value: &str) -> (r: bool)
    ensures
        r == (value@ == "true"@),
{
    str_eq(value, "true")
}

/// A stored number, or the default when it does not read as one.
pub fn parse_i32_or(value: &str, default: i32) -> (r: i32)
    ensures
        r == match parsed_i32(value@) {
            Some(v) => v,
            None => default,
        },
{
    match parse_i32(value) {
        Some(v) => v,
        None => default,
    }
}

// ---------------------------------------------------------------------------
// Validation of an update
// ---------------------------------------------------------------------------

/// The facts about a settings update that its validation reads. The
/// floating-point rules arrive as their verdicts; `scope_error` is the
/// verdict of the scope registry on the agent's scopes; `max_labels` is the
/// plan's label limit, when the organisation's plan is known.
pub struct SettingsCheck {
    pub retry_max_attempts: i32,
    pub thinking_budget_tokens: i32,
    pub rate_limit_rpm: i32,
    pub monthly_budget_negative: bool,
    pub per_request_limit_negative: bool,
    pub judge_rate_out_of_range: bool,
    pub scope_error: Option<String>,
    pub max_labels: Option<i64>,
}

/// The errors of the filters of profile `i`, filters from `j` on.
pub open spec fn filter_errors(i: nat, p: SessionProfile, j: nat) -> Seq<Seq<char>>
    decreases p.filters@.len() - j,
{
    if j >= p.filters@.len() {
        Seq::empty()
    } else {
        let f = p.filters@[j as int];
        let e = if is_registered(f.field@) {
            Seq::empty()
        } else {
            seq![
                "session_profiles["@ + decimal(i) + "].filters["@ + decimal(j) + "]: unknown field '"@
                    + f.field@ + "'"@,
            ]
        };
        e + filter_errors(i, p, j + 1)
    }
}

/// The errors of profile `i`.
pub open spec fn profile_errors(i: nat, p: SessionProfile) -> Seq<Seq<char>> {
    (if trim_spec(p.name@).len() == 0 {
        seq!["session_profiles["@ + decimal(i) + "]: name cannot be empty"@]
    } else {
        Seq::empty()
    }) + (if p.filters@.len() == 0 {
        seq!["session_profiles["@ + decimal(i) + "]: must have at least one filter"@]
    } else {
        Seq::empty()
    }) + filter_errors(i, p, 0)
}

/// The errors of the profiles from `i` on.
pub open spec fn profiles_errors(ps: Seq<SessionProfile>, i: nat) -> Seq<Seq<char>>
    decreases ps.len() - i,
{
    if i >= ps.len() {
        Seq::empty()
    } else {
        profile_errors(i, ps[i as int]) + profiles_errors(ps, i + 1)
    }
}

/// The blank-name errors of the labels from `i` on.
pub open spec fn label_name_errors(ls: Seq<SessionLabel>, i: nat) -> Seq<Seq<char>>
    decreases ls.len() - i,
{
    if i >= ls.len() {
        Seq::empty()
    } else {
        (if trim_spec(ls[i as int].name@).len() == 0 {
            seq!["session_labels["@ + decimal(i) + "]: name cannot be empty"@]
        } else {
            Seq::empty()
        }) + label_name_errors(ls, i + 1)
    }
}

/// Whether label `i` repeats the name of an earlier label.
pub open spec fn repeats_name(ls: Seq<SessionLabel>, i: int) -> bool {
    exists|j: int| 0 <= j < i && ls[j].name@ == ls[i].name@
}

/// The duplicate-name errors of the labels from `i` on.
pub open spec fn duplicate_errors(ls: Seq<SessionLabel>, i: nat) -> Seq<Seq<char>>
    decreases ls.len() - i,
{
    if i >= ls.len() {
        Seq::empty()
    } else {
        (if repeats_name(ls, i as int) {
            seq!["session_labels: duplicate label name '"@ + ls[i as int].name@ + "'"@]
        } else {
            Seq::empty()
        }) + duplicate_errors(ls, i + 1)
    }
}

/// The message alone when the condition holds, else nothing.
pub open spec fn err_if(cond: bool, message: Seq<char>) -> Seq<Seq<char>> {
    if cond {
        seq![message]
    } else {
        Seq::empty()
    }
}

/// The rules on the plain values an update breaks, in order.
pub open spec fn basic_errors(c: SettingsCheck) -> Seq<Seq<char>> {
    err_if(c.retry_max_attempts < 1 || c.retry_max_attempts > 10, "retry_max_attempts must be between 1 and 10"@)
        + err_if(
        c.thinking_budget_tokens < 0 || c.thinking_budget_tokens > 200_000,
        "thinking_budget_tokens must be between 0 and 200000"@,
    ) + err_if(c.rate_limit_rpm < 1, "rate_limit_rpm must be at least 1"@) + err_if(
        c.monthly_budget_negative,
        "monthly_budget_usd cannot be negative"@,
    ) + err_if(c.per_request_limit_negative, "per_request_limit_usd cannot be negative"@) + err_if(
        c.judge_rate_out_of_range,
        "judge_sample_rate must be between 0.0 and 1.0"@,
    ) + (match c.scope_error {
        Some(e) => seq!["agent_scopes: "@ + e@],
        None => Seq::empty(),
    })
}

fn push_if(errors: &mut Vec<String>, cond: bool, message: &str)
    ensures
        strings_view(final(errors)@) == strings_view(old(errors)@) + err_if(cond, message@),
{
    let ghost b = errors@;
    if cond {
        let m = owned(message);
        errors.push(m);
        proof {
            assert(strings_view(errors@) =~= strings_view(b).push(m@));
        }
    } else {
        proof {
            assert(strings_view(errors@) =~= strings_view(b) + Seq::<Seq<char>>::empty());
        }
    }
}

/// The limits on the number of labels an update breaks.
pub open spec fn label_count_errors(c: SettingsCheck, ls: Seq<SessionLabel>) -> Seq<Seq<char>> {
    (if ls.len() > MAX_SESSION_LABELS {
        seq!["session_labels cannot have more than 50 labels"@]
    } else {
        Seq::empty()
    }) + (match c.max_labels {
        Some(max) => if max >= 0 && ls.len() > max {
            seq![
                "Your plan allows at most "@ + decimal(max as nat) + " label types (current: "@
                    + decimal(ls.len()) + "). Upgrade for more."@,
            ]
        } else {
            Seq::empty()
        },
        None => Seq::empty(),
    })
}

/// Every rule an update breaks, in order.
pub open spec fn settings_errors(
    c: SettingsCheck,
    ps: Seq<SessionProfile>,
    ls: Seq<SessionLabel>,
) -> Seq<Seq<char>> {
    basic_errors(c) + profiles_errors(ps, 0) + label_count_errors(c, ls) + label_name_errors(ls, 0)
        + duplicate_errors(ls, 0)
}

fn push_profile_errors(errors: &mut Vec<String>, i: usize, p: &SessionProfile)
    ensures
        strings_view(final(errors)@) == strings_view(old(errors)@) + profile_errors(i as nat, *p),
{
    let ghost e0 = strings_view(errors@);
    if is_blank(p.name.as_str()) {
        let mut m = owned("session_profiles[");
        m.append(decimal_string(i as u64).as_str());
        m.append("]: name cannot be empty");
        let ghost b = errors@;
        errors.push(m);
        proof {
            assert(strings_view(errors@) =~= strings_view(b).push(m@));
        }
    }
    if p.filters.len() == 0 {
        let mut m = owned("session_profiles[");
        m.append(decimal_string(i as u64).as_str());
        m.append("]: must have at least one filter");
        let ghost b = errors@;
        errors.push(m);
        proof {
            assert(strings_view(errors@) =~= strings_view(b).push(m@));
        }
    }
    let ghost e1 = strings_view(errors@);
    let mut j: usize = 0;
    proof {
        assert(e1 == e0 + (if trim_spec(p.name@).len() == 0 {
            seq!["session_profiles["@ + decimal(i as nat) + "]: name cannot be empty"@]
        } else {
            Seq::empty()
        }) + (if p.filters@.len() == 0 {
            seq!["session_profiles["@ + decimal(i as nat) + "]: must have at least one filter"@]
        } else {
            Seq::empty()
        }));
    }
    while j < p.filters.len()
        invariant
            j <= p.filters@.len(),
            e1 + filter_errors(i as nat, *p, 0) == strings_view(errors@) + filter_errors(
                i as nat,
                *p,
                j as nat,
            ),
        decreases p.filters.len() - j,
    {
        let f = &p.filters[j];
        let ghost b = errors@;
        if !is_valid_field(f.field.as_str()) {
            let mut m = owned("session_profiles[");
            m.append(decimal_string(i as u64).as_str());
            m.append("].filters[");
            m.append(decimal_string(j as u64).as_str());
            m.append("]: unknown field '");
            m.append(f.field.as_str());
            m.append("'");
            errors.push(m);
            proof {
                assert(strings_view(errors@) =~= strings_view(b).push(m@));
                assert(strings_view(b) + filter_errors(i as nat, *p, j as nat) =~= strings_view(errors@)
                    + filter_errors(i as nat, *p, (j + 1) as nat));
            }
        } else {
            proof {
                assert(filter_errors(i as nat, *p, j as nat) =~= filter_errors(i as nat, *p, (j + 1) as nat));
            }
        }
        j = j + 1;
    }
    proof {
        assert(filter_errors(i as nat, *p, j as nat) =~= Seq::<Seq<char>>::empty());
        assert(strings_view(errors@) =~= e0 + profile_errors(i as nat, *p));
    }
}

fn basic_error_list(check: &SettingsCheck) -> (r: Vec<String>)
    ensures
        strings_view(r@) == basic_errors(*check),
{
    let mut errors: Vec<String> = Vec::new();
    proof {
        assert(strings_view(errors@) =~= Seq::<Seq<char>>::empty());
    }
    push_if(
        &mut errors,
        check.retry_max_attempts < 1 || check.retry_max_attempts > 10,
        "retry_max_attempts must be between 1 and 10",
    );
    push_if(
        &mut errors,
        check.thinking_budget_tokens < 0 || check.thinking_budget_tokens > 200_000,
        "thinking_budget_tokens must be between 0 and 200000",
    );
    push_if(&mut errors, check.rate_limit_rpm < 1, "rate_limit_rpm must be at least 1");
    push_if(&mut errors, check.monthly_budget_negative, "monthly_budget_usd cannot be negative");
    push_if(
        &mut errors,
        check.per_request_limit_negative,
        "per_request_limit_usd cannot be negative",
    );
    push_if(
        &mut errors,
        check.judge_rate_out_of_range,
        "judge_sample_rate must be between 0.0 and 1.0",
    );
    let ghost b = errors@;
    if let Some(e) = &check.scope_error {
        let mut m = owned("agent_scopes: ");
        m.append(e.as_str());
        errors.push(m);
        proof {
            assert(strings_view(errors@) =~= strings_view(b).push(m@));
        }
    }
    proof {
        assert(strings_view(errors@) =~= basic_errors(*check));
    }
    errors
}

fn push_label_count_errors(errors: &mut Vec<String>, check: &SettingsCheck, labels: &Vec<SessionLabel>)
    ensures
        strings_view(final(errors)@) == strings_view(old(errors)@) + label_count_errors(*check, labels@),
{
    let ghost e0 = strings_view(errors@);
    if labels.len() > MAX_SESSION_LABELS {
        errors.push(owned("session_labels cannot have more than 50 labels"));
    }
    if let Some(max) = check.max_labels {
        if max >= 0 && (labels.len() as u64) > (max as u64) {
            let mut m = owned("Your plan allows at most ");
            m.append(decimal_string(max as u64).as_str());
            m.append(" label types (current: ");
            m.append(decimal_string(labels.len() as u64).as_str());
            m.append("). Upgrade for more.");
            errors.push(m);
        }
    }
    proof {
        assert(strings_view(errors@) =~= e0 + label_count_errors(*check, labels@));
    }
}

/// Whether an earlier label has the name of label `i`.
fn repeats_earlier(labels: &Vec<SessionLabel>, i: usize) -> (r: bool)
    requires
        i < labels@.len(),
    ensures
        r == repeats_name(labels@, i as int),
{
    let mut j: usize = 0;
    while j < i
        invariant
            j <= i < labels@.len(),
            forall|k: int| 0 <= k < j ==> labels@[k].name@ != labels@[i as int].name@,
        decreases i - j,
    {
        if str_eq(labels[j].name.as_str(), labels[i].name.as_str()) {
            return true;
        }
        j = j + 1;
    }
    false
}

/// Check a settings update: `Ok` when it breaks no rule, otherwise every
/// broken rule, in order, joined by `; `.
pub fn validate_settings(check: &SettingsCheck, profiles: &Vec<SessionProfile>, labels: &Vec<SessionLabel>) -> (r:
    Result<(), ApiError>)
    ensures
        settings_errors(*check, profiles@, labels@).len() == 0 ==> r is Ok,
        settings_errors(*check, profiles@, labels@).len() != 0 ==> (r matches Err(
            ApiError::Validation(m),
        ) && m@ == join_spec(settings_errors(*check, profiles@, labels@), "; "@)),
{
    let mut errors = basic_error_list(check);
    let ghost head = strings_view(errors@);
    let mut i: usize = 0;
    while i < profiles.len()
        invariant
            i <= profiles@.len(),
            head + profiles_errors(profiles@, 0) == strings_view(errors@) + profiles_errors(
                profiles@,
                i as nat,
            ),
        decreases profiles.len() - i,
    {
        let ghost b = strings_view(errors@);
        push_profile_errors(&mut errors, i, &profiles[i]);
        proof {
            assert(b + profiles_errors(profiles@, i as nat) =~= strings_view(errors@) + profiles_errors(
                profiles@,
                (i + 1) as nat,
            ));
        }
        i = i + 1;
    }
    let ghost mid = strings_view(errors@);
    proof {
        assert(profiles_errors(profiles@, i as nat) =~= Seq::<Seq<char>>::empty());
        assert(mid =~= head + profiles_errors(profiles@, 0));
    }
    push_label_count_errors(&mut errors, check, labels);
    let ghost mid2 = strings_view(errors@);
    let mut i: usize = 0;
    while i < labels.len()
        invariant
            i <= labels@.len(),
            mid2 + label_name_errors(labels@, 0) == strings_view(errors@) + label_name_errors(
                labels@,
                i as nat,
            ),
        decreases labels.len() - i,
    {
        let ghost b = errors@;
        if is_blank(labels[i].name.as_str()) {
            let mut m = owned("session_labels[");
            m.append(decimal_string(i as u64).as_str());
            m.append("]: name cannot be empty");
            errors.push(m);
            proof {
                assert(strings_view(errors@) =~= strings_view(b).push(m@));
            }
        }
        proof {
            assert(strings_view(b) + label_name_errors(labels@, i as nat) =~= strings_view(errors@)
                + label_name_errors(labels@, (i + 1) as nat));
        }
        i = i + 1;
    }
    let ghost mid3 = strings_view(errors@);
    proof {
        assert(label_name_errors(labels@, i as nat) =~= Seq::<Seq<char>>::empty());
    }
    let mut i: usize = 0;
    while i < labels.len()
        invariant
            i <= labels@.len(),
            mid3 + duplicate_errors(labels@, 0) == strings_view(errors@) + duplicate_errors(
                labels@,
                i as nat,
            ),
        decreases labels.len() - i,
    {
        let ghost b = errors@;
        if repeats_earlier(labels, i) {
            let mut m = owned("session_labels: duplicate label name '");
            m.append(labels[i].name.as_str());
            m.append("'");
            errors.push(m);
            proof {
                assert(strings_view(errors@) =~= strings_view(b).push(m@));
            }
        }
        proof {
            assert(strings_view(b) + duplicate_errors(labels@, i as nat) =~= strings_view(errors@)
                + duplicate_errors(labels@, (i + 1) as nat));
        }
        i = i + 1;
    }
    proof {
        assert(duplicate_errors(labels@, i as nat) =~= Seq::<Seq<char>>::empty());
        assert(strings_view(errors@) =~= settings_errors(*check, profiles@, labels@));
    }
    if errors.len() == 0 {
        return Ok(());
    }
    Err(ApiError::Validation(join(&errors, "; ")))
}

} // verus!
