//! The gateway settings of a project as one value, the defaults of a project
//! that stored none, and their storage as one `gateway_*` row per setting.
//!
//! Amounts of money and the judge's sample rate are held as the bit pattern of
//! their IEEE-754 binary64 value; reading them from text and writing them as
//! text is left to the caller, as is the JSON form of the structured settings.

use vstd::prelude::*;
use vstd::string::*;

use crate::settings::{
    all_digits, digit_value, digits_value, parsed_i32, AgentSoul, SessionLabel,
    DEFAULT_RATE_LIMIT_RPM, DEFAULT_THINKING_BUDGET_TOKENS,
};
use crate::profiles::{migrate_profiles, migrated_filter, one_key, SessionProfile};
use crate::settings::{parse_flag, settings_errors, validate_settings, SettingsCheck};
use crate::errors::ApiError;
use crate::text::join_spec;
use crate::settings::parse_i32_or;
use crate::text::{decimal, decimal_string, digit_chars, owned, str_eq, strings_view};

verus! {

// ---------------------------------------------------------------------------
// Numbers as text
// ---------------------------------------------------------------------------

/// How an integer is written in decimal: a minus sign before the digits of
/// a negative number.
pub open spec fn int_text(v: int) -> Seq<char> {
    if v < 0 {
        seq!['-'] + decimal((-v) as nat)
    } else {
        decimal(v as nat)
    }
}

/// Write a number as `i32::to_string` does.
pub fn i32_text(v: i32) -> (r: String)
    ensures
        r@ == int_text(v as int),
{
    if v < 0 {
        let mut s = owned("-");
        let magnitude: u64 = (0i64 - v as i64) as u64;
        s.append(decimal_string(magnitude).as_str());
        proof {
            reveal_strlit("-");
        }
        s
    } else {
        decimal_string(v as u64)
    }
}

proof fn lemma_digit_char(k: int)
    requires
        0 <= k < 10,
    ensures
        '0' <= digit_chars()[k] <= '9',
        digit_value(digit_chars()[k]) == k,
{
}

/// The decimal form of a number is one or more digits that read back as it.
pub proof fn lemma_decimal_reads_back(n: nat)
    ensures
        decimal(n).len() > 0,
        all_digits(decimal(n)),
        digits_value(decimal(n)) == n,
    decreases n,
{
    let s = decimal(n);
    if n < 10 {
        lemma_digit_char(n as int);
        assert(s.drop_last() =~= Seq::<char>::empty());
        assert(digits_value(s.drop_last()) == 0);
        assert(s.last() == digit_chars()[n as int]);
    } else {
        lemma_decimal_reads_back(n / 10);
        lemma_digit_char((n % 10) as int);
        let p = decimal(n / 10);
        assert(s.drop_last() =~= p);
        assert(s.last() == digit_chars()[(n % 10) as int]);
        assert(digits_value(s) == 10 * (n / 10) + n % 10);
        assert(10 * (n / 10) + n % 10 == n);
        assert forall|i: int| 0 <= i < s.len() implies '0' <= #[trigger] s[i] && s[i] <= '9' by {
            if i < p.len() {
                assert(s[i] == p[i]);
            }
        }
    }
}

/// What `i32::to_string` writes, `str::parse::<i32>` reads back.
pub proof fn lemma_i32_text_reads_back(v: i32)
    ensures
        parsed_i32(int_text(v as int)) == Some(v),
{
    let s = int_text(v as int);
    if v < 0 {
        let m = (-(v as int)) as nat;
        lemma_decimal_reads_back(m);
        assert(s.subrange(1, s.len() as int) =~= decimal(m));
    } else {
        lemma_decimal_reads_back(v as nat);
        assert(all_digits(s));
        assert('0' <= s[0] <= '9');
    }
}

// ---------------------------------------------------------------------------
// The settings value
// ---------------------------------------------------------------------------

/// A project's default choice among providers for requests that name none.
#[derive(Debug)]
pub struct ProviderPreferences {
    pub order: Option<Vec<String>>,
    pub only: Option<Vec<String>>,
    pub ignore: Option<Vec<String>>,
    pub allow_fallbacks: Option<bool>,
    pub sort: Option<String>,
}

/// The gateway settings of a project.
#[derive(Debug)]
pub struct LlmSettings {
    pub introspection_enabled: bool,
    pub thinking_budget_tokens: i32,
    pub fallback_enabled: bool,
    pub fallback_order: Option<Vec<String>>,
    pub retry_enabled: bool,
    pub retry_max_attempts: i32,
    /// Monthly budget in USD, as the bits of its binary64 value.
    pub monthly_budget_usd: Option<u64>,
    pub budget_alert_enabled: bool,
    pub budget_hard_stop: bool,
    /// Most a single request may cost in USD, as binary64 bits.
    pub per_request_limit_usd: Option<u64>,
    pub rate_limit_enabled: bool,
    pub rate_limit_rpm: i32,
    /// Most a session may cost in USD, as binary64 bits.
    pub session_budget_usd: Option<u64>,
    /// The guardrail configuration, as its JSON text (`{}`: every check off).
    pub guardrails: String,
    pub agent_enabled: bool,
    pub agent_scopes: Vec<String>,
    pub auto_investigate: bool,
    /// Share of requests judged, as binary64 bits.
    pub judge_sample_rate: Option<u64>,
    pub default_fallback_models: Vec<String>,
    pub provider_preferences: Option<ProviderPreferences>,
    pub session_profiles: Vec<SessionProfile>,
    pub session_labels: Vec<SessionLabel>,
    pub agent_soul: AgentSoul,
}

/// The strings of an optional list.
pub open spec fn opt_strings_view(o: Option<Vec<String>>) -> Option<Seq<Seq<char>>> {
    match o {
        Some(v) => Some(strings_view(v@)),
        None => None,
    }
}

/// Providers tried in turn when a project sets no order.
pub open spec fn default_fallback_order() -> Seq<Seq<char>> {
    seq!["anthropic"@, "openai"@, "google"@]
}

/// Whether `s` holds the settings of a project that stored none, with
/// `scopes` as the agent's scopes.
pub open spec fn is_default(s: LlmSettings, scopes: Seq<Seq<char>>) -> bool {
    &&& !s.introspection_enabled
    &&& s.thinking_budget_tokens == DEFAULT_THINKING_BUDGET_TOKENS
    &&& s.fallback_enabled
    &&& opt_strings_view(s.fallback_order) == Some(default_fallback_order())
    &&& s.retry_enabled
    &&& s.retry_max_attempts == 3
    &&& s.monthly_budget_usd is None
    &&& s.budget_alert_enabled
    &&& !s.budget_hard_stop
    &&& s.per_request_limit_usd is None
    &&& !s.rate_limit_enabled
    &&& s.rate_limit_rpm == DEFAULT_RATE_LIMIT_RPM
    &&& s.session_budget_usd is None
    &&& s.guardrails@ == "{}"@
    &&& s.agent_enabled
    &&& strings_view(s.agent_scopes@) == scopes
    &&& !s.auto_investigate
    &&& s.judge_sample_rate is None
    &&& s.default_fallback_models@.len() == 0
    &&& s.provider_preferences is None
    &&& s.session_profiles@.len() == 0
    &&& s.session_labels@.len() == 0
    &&& crate::settings::soul_empty(s.agent_soul)
}

impl LlmSettings {
    /// The settings of a project that stored none. The agent may use the
    /// scope registry's read-only scopes, which the caller passes in.
    pub fn defaults(read_only_scopes: Vec<String>) -> (r: LlmSettings)
        ensures
            is_default(r, strings_view(read_only_scopes@)),
    {
        let mut order: Vec<String> = Vec::new();
        order.push(owned("anthropic"));
        order.push(owned("openai"));
        order.push(owned("google"));
        proof {
            assert(strings_view(order@) =~= default_fallback_order());
        }
        LlmSettings {
            introspection_enabled: false,
            thinking_budget_tokens: DEFAULT_THINKING_BUDGET_TOKENS,
            fallback_enabled: true,
            fallback_order: Some(order),
            retry_enabled: true,
            retry_max_attempts: 3,
            monthly_budget_usd: None,
            budget_alert_enabled: true,
            budget_hard_stop: false,
            per_request_limit_usd: None,
            rate_limit_enabled: false,
            rate_limit_rpm: DEFAULT_RATE_LIMIT_RPM,
            session_budget_usd: None,
            guardrails: owned("{}"),
            agent_enabled: true,
            agent_scopes: read_only_scopes,
            auto_investigate: false,
            judge_sample_rate: None,
            default_fallback_models: Vec::new(),
            provider_preferences: None,
            session_profiles: Vec::new(),
            session_labels: Vec::new(),
            agent_soul: AgentSoul::empty(),
        }
    }
}

// ---------------------------------------------------------------------------
// Reading stored rows
// ---------------------------------------------------------------------------

/// One stored setting of a project: its `gateway_*` key and its text.
#[derive(Debug)]
pub struct SettingRow {
    pub key: String,
    pub value: String,
}

/// How the text of a stored setting is to be read.
#[derive(Debug, Clone, Copy, PartialEq, Eq, Structural)]
pub enum ValueKind {
    /// `true` or anything else.
    Flag,
    /// A decimal integer.
    Integer,
    /// A decimal amount, read by the caller into binary64 bits.
    Number,
    /// A JSON array of strings.
    StringList,
    /// JSON that the caller decodes into the named structure.
    GuardrailConfig,
    Preferences,
    Profiles,
    Labels,
    Soul,
    /// Not a setting of the gateway.
    Unknown,
}

/// The reading of each key.
pub open spec fn kind_of(key: Seq<char>) -> ValueKind {
    if key == "gateway_introspection_enabled"@ || key == "gateway_fallback_enabled"@ || key
        == "gateway_retry_enabled"@ || key == "gateway_budget_alert_enabled"@ || key
        == "gateway_budget_hard_stop"@ || key == "gateway_rate_limit_enabled"@ || key
        == "gateway_agent_enabled"@ || key == "gateway_auto_investigate"@ {
        ValueKind::Flag
    } else if key == "gateway_thinking_budget_tokens"@ || key == "gateway_retry_max_attempts"@
        || key == "gateway_rate_limit_rpm"@ {
        ValueKind::Integer
    } else if key == "gateway_monthly_budget_usd"@ || key == "gateway_per_request_limit_usd"@
        || key == "gateway_session_budget_usd"@ || key == "gateway_judge_sample_rate"@ {
        ValueKind::Number
    } else if key == "gateway_fallback_order"@ || key == "gateway_agent_scopes"@ || key
        == "gateway_default_fallback_models"@ {
        ValueKind::StringList
    } else if key == "gateway_guardrails"@ {
        ValueKind::GuardrailConfig
    } else if key == "gateway_provider_preferences"@ {
        ValueKind::Preferences
    } else if key == "gateway_session_profiles"@ {
        ValueKind::Profiles
    } else if key == "gateway_session_labels"@ {
        ValueKind::Labels
    } else if key == "gateway_agent_soul"@ {
        ValueKind::Soul
    } else {
        ValueKind::Unknown
    }
}

/// How the text stored under `key` is to be read.
pub fn value_kind(key: &str) -> (r: ValueKind)
    ensures
        r == kind_of(key@),
{
    if str_eq(key, "gateway_introspection_enabled") || str_eq(key, "gateway_fallback_enabled")
        || str_eq(key, "gateway_retry_enabled") || str_eq(key, "gateway_budget_alert_enabled")
        || str_eq(key, "gateway_budget_hard_stop") || str_eq(key, "gateway_rate_limit_enabled")
        || str_eq(key, "gateway_agent_enabled") || str_eq(key, "gateway_auto_investigate") {
        ValueKind::Flag
    } else if str_eq(key, "gateway_thinking_budget_tokens") || str_eq(
        key,
        "gateway_retry_max_attempts",
    ) || str_eq(key, "gateway_rate_limit_rpm") {
        ValueKind::Integer
    } else if str_eq(key, "gateway_monthly_budget_usd") || str_eq(
        key,
        "gateway_per_request_limit_usd",
    ) || str_eq(key, "gateway_session_budget_usd") || str_eq(key, "gateway_judge_sample_rate") {
        ValueKind::Number
    } else if str_eq(key, "gateway_fallback_order") || str_eq(key, "gateway_agent_scopes")
        || str_eq(key, "gateway_default_fallback_models") {
        ValueKind::StringList
    } else if str_eq(key, "gateway_guardrails") {
        ValueKind::GuardrailConfig
    } else if str_eq(key, "gateway_provider_preferences") {
        ValueKind::Preferences
    } else if str_eq(key, "gateway_session_profiles") {
        ValueKind::Profiles
    } else if str_eq(key, "gateway_session_labels") {
        ValueKind::Labels
    } else if str_eq(key, "gateway_agent_soul") {
        ValueKind::Soul
    } else {
        ValueKind::Unknown
    }
}

/// What the caller made of a stored text that the library does not read
/// itself (see [`ValueKind`]); `Nothing` when it did not decode.
#[derive(Debug)]
pub enum Decoded {
    Nothing,
    /// An amount, as binary64 bits.
    Number(u64),
    /// The text is a guardrail configuration.
    GuardrailConfig,
    Preferences(ProviderPreferences),
    Profiles(Vec<SessionProfile>),
    Labels(Vec<SessionLabel>),
    Soul(AgentSoul),
}

/// The amount decoded, if any.
pub open spec fn decoded_number(d: Decoded) -> Option<u64> {
    match d {
        Decoded::Number(b) => Some(b),
        _ => None,
    }
}

/// The preferences decoded, if any.
pub open spec fn decoded_preferences(d: Decoded) -> Option<ProviderPreferences> {
    match d {
        Decoded::Preferences(p) => Some(p),
        _ => None,
    }
}

/// The profiles decoded, if any.
pub open spec fn decoded_profiles(d: Decoded) -> Option<Vec<SessionProfile>> {
    match d {
        Decoded::Profiles(p) => Some(p),
        _ => None,
    }
}

/// The labels decoded, if any.
pub open spec fn decoded_labels(d: Decoded) -> Option<Vec<SessionLabel>> {
    match d {
        Decoded::Labels(l) => Some(l),
        _ => None,
    }
}

/// The soul decoded, if any.
pub open spec fn decoded_soul(d: Decoded) -> Option<AgentSoul> {
    match d {
        Decoded::Soul(s) => Some(s),
        _ => None,
    }
}

/// Whether binary64 bits denote a value above zero (positive infinity
/// included; no NaN).
pub open spec fn bits_positive(b: u64) -> bool {
    0 < b && b <= 0x7FF0_0000_0000_0000u64
}

/// A positive amount, or nothing.
pub open spec fn positive_only(o: Option<u64>) -> Option<u64> {
    match o {
        Some(b) => if bits_positive(b) {
            Some(b)
        } else {
            None
        },
        None => None,
    }
}

/// Whether `new` holds the profiles `old` with their legacy filters upgraded.
pub open spec fn profiles_migrated(old: Seq<SessionProfile>, new: Seq<SessionProfile>) -> bool {
    &&& new.len() == old.len()
    &&& forall|i: int|
        #![trigger new[i]]
        0 <= i < old.len() ==> {
            &&& new[i].id == old[i].id
            &&& new[i].name@ == old[i].name@
            &&& new[i].logic == old[i].logic
            &&& new[i].filters@.len() == old[i].filters@.len()
            &&& forall|j: int|
                0 <= j < old[i].filters@.len() ==> migrated_filter(
                    #[trigger] old[i].filters@[j],
                    new[i].filters@[j],
                    one_key(),
                )
        }
}

/// The integer stored as `text`, or `default` when it does not read as one.
pub open spec fn int_or(text: Seq<char>, default: i32) -> i32 {
    match parsed_i32(text) {
        Some(v) => v,
        None => default,
    }
}

/// What `serde_json::from_str::<Vec<String>>` gives for a text: the strings
/// of a JSON array of strings, `None` when the text is not one.
pub uninterp spec fn json_strings(text: Seq<char>) -> Option<Seq<Seq<char>>>;

/// Calls `serde_json::from_str::<Vec<String>>` and keeps the list when the
/// text decodes. The result is named, not described.
#[verifier::external_body]
fn json_string_list(text: &str) -> (r: Option<Vec<String>>)
    ensures
        opt_strings_view(r) == json_strings(text@),
{
    serde_json::from_str::<Vec<String>>(text).ok()
}

/// Whether `t` is `s` after reading the row `key` = `value`, which the caller
/// decoded as `d`. Flags are on when the text is `true`; integers fall back to
/// their default; the structured settings change only for a non-empty text
/// that decodes; unknown keys change nothing.
pub open spec fn applied(s: LlmSettings, t: LlmSettings, key: Seq<char>, value: Seq<char>, d: Decoded) -> bool {
    if key == "gateway_introspection_enabled"@ {
        t == LlmSettings { introspection_enabled: value == "true"@, ..s }
    } else if key == "gateway_thinking_budget_tokens"@ {
        t == LlmSettings {
            thinking_budget_tokens: int_or(value, DEFAULT_THINKING_BUDGET_TOKENS),
            ..s
        }
    } else if key == "gateway_fallback_enabled"@ {
        t == LlmSettings { fallback_enabled: value == "true"@, ..s }
    } else if key == "gateway_fallback_order"@ {
        &&& t == LlmSettings { fallback_order: t.fallback_order, ..s }
        &&& opt_strings_view(t.fallback_order) == json_strings(value)
    } else if key == "gateway_retry_enabled"@ {
        t == LlmSettings { retry_enabled: value == "true"@, ..s }
    } else if key == "gateway_retry_max_attempts"@ {
        t == LlmSettings { retry_max_attempts: int_or(value, 3), ..s }
    } else if key == "gateway_monthly_budget_usd"@ {
        t == LlmSettings { monthly_budget_usd: decoded_number(d), ..s }
    } else if key == "gateway_budget_alert_enabled"@ {
        t == LlmSettings { budget_alert_enabled: value == "true"@, ..s }
    } else if key == "gateway_budget_hard_stop"@ {
        t == LlmSettings { budget_hard_stop: value == "true"@, ..s }
    } else if key == "gateway_per_request_limit_usd"@ {
        t == LlmSettings { per_request_limit_usd: decoded_number(d), ..s }
    } else if key == "gateway_rate_limit_enabled"@ {
        t == LlmSettings { rate_limit_enabled: value == "true"@, ..s }
    } else if key == "gateway_rate_limit_rpm"@ {
        t == LlmSettings { rate_limit_rpm: int_or(value, DEFAULT_RATE_LIMIT_RPM), ..s }
    } else if key == "gateway_session_budget_usd"@ {
        t == LlmSettings { session_budget_usd: decoded_number(d), ..s }
    } else if key == "gateway_guardrails"@ {
        if value.len() > 0 && d is GuardrailConfig {
            t == LlmSettings { guardrails: t.guardrails, ..s } && t.guardrails@ == value
        } else {
            t == s
        }
    } else if key == "gateway_agent_enabled"@ {
        t == LlmSettings { agent_enabled: value == "true"@, ..s }
    } else if key == "gateway_agent_scopes"@ {
        if value.len() > 0 && json_strings(value) is Some {
            &&& t == LlmSettings { agent_scopes: t.agent_scopes, ..s }
            &&& Some(strings_view(t.agent_scopes@)) == json_strings(value)
        } else {
            t == s
        }
    } else if key == "gateway_auto_investigate"@ {
        t == LlmSettings { auto_investigate: value == "true"@, ..s }
    } else if key == "gateway_judge_sample_rate"@ {
        t == LlmSettings { judge_sample_rate: positive_only(decoded_number(d)), ..s }
    } else if key == "gateway_default_fallback_models"@ {
        if value.len() > 0 && json_strings(value) is Some {
            &&& t == LlmSettings { default_fallback_models: t.default_fallback_models, ..s }
            &&& Some(strings_view(t.default_fallback_models@)) == json_strings(value)
        } else {
            t == s
        }
    } else if key == "gateway_provider_preferences"@ {
        if value.len() > 0 && decoded_preferences(d) is Some {
            t == LlmSettings { provider_preferences: decoded_preferences(d), ..s }
        } else {
            t == s
        }
    } else if key == "gateway_session_profiles"@ {
        if value.len() > 0 && decoded_profiles(d) is Some {
            &&& t == LlmSettings { session_profiles: t.session_profiles, ..s }
            &&& profiles_migrated(decoded_profiles(d).unwrap()@, t.session_profiles@)
        } else {
            t == s
        }
    } else if key == "gateway_session_labels"@ {
        if value.len() > 0 && decoded_labels(d) is Some {
            t == LlmSettings { session_labels: decoded_labels(d).unwrap(), ..s }
        } else {
            t == s
        }
    } else if key == "gateway_agent_soul"@ {
        if value.len() > 0 && decoded_soul(d) is Some {
            t == LlmSettings { agent_soul: decoded_soul(d).unwrap(), ..s }
        } else {
            t == s
        }
    } else {
        t == s
    }
}

/// Read one stored row into the settings. `decoded` is what the caller made
/// of the text for the keys whose [`ValueKind`] the library does not read
/// itself.
pub fn apply_setting_row(settings: &mut LlmSettings, row: &SettingRow, decoded: Decoded)
    ensures
        applied(*old(settings), *final(settings), row.key@, row.value@, decoded),
{
    let key = row.key.as_str();
    let value = row.value.as_str();
    if str_eq(key, "gateway_introspection_enabled") {
        settings.introspection_enabled = parse_flag(value);
    } else if str_eq(key, "gateway_thinking_budget_tokens") {
        settings.thinking_budget_tokens = parse_i32_or(value, DEFAULT_THINKING_BUDGET_TOKENS);
    } else if str_eq(key, "gateway_fallback_enabled") {
        settings.fallback_enabled = parse_flag(value);
    } else if str_eq(key, "gateway_fallback_order") {
        settings.fallback_order = json_string_list(value);
    } else if str_eq(key, "gateway_retry_enabled") {
        settings.retry_enabled = parse_flag(value);
    } else if str_eq(key, "gateway_retry_max_attempts") {
        settings.retry_max_attempts = parse_i32_or(value, 3);
    } else if str_eq(key, "gateway_monthly_budget_usd") {
        settings.monthly_budget_usd = number_in(&decoded);
    } else if str_eq(key, "gateway_budget_alert_enabled") {
        settings.budget_alert_enabled = parse_flag(value);
    } else if str_eq(key, "gateway_budget_hard_stop") {
        settings.budget_hard_stop = parse_flag(value);
    } else if str_eq(key, "gateway_per_request_limit_usd") {
        settings.per_request_limit_usd = number_in(&decoded);
    } else if str_eq(key, "gateway_rate_limit_enabled") {
        settings.rate_limit_enabled = parse_flag(value);
    } else if str_eq(key, "gateway_rate_limit_rpm") {
        settings.rate_limit_rpm = parse_i32_or(value, DEFAULT_RATE_LIMIT_RPM);
    } else if str_eq(key, "gateway_session_budget_usd") {
        settings.session_budget_usd = number_in(&decoded);
    } else if str_eq(key, "gateway_guardrails") {
        if !value.is_empty() {
            if let Decoded::GuardrailConfig = decoded {
                settings.guardrails = owned(value);
            }
        }
    } else if str_eq(key, "gateway_agent_enabled") {
        settings.agent_enabled = parse_flag(value);
    } else if str_eq(key, "gateway_agent_scopes") {
        if !value.is_empty() {
            if let Some(scopes) = json_string_list(value) {
                settings.agent_scopes = scopes;
            }
        }
    } else if str_eq(key, "gateway_auto_investigate") {
        settings.auto_investigate = parse_flag(value);
    } else if str_eq(key, "gateway_judge_sample_rate") {
        settings.judge_sample_rate = match number_in(&decoded) {
            Some(b) => if 0 < b && b <= 0x7FF0_0000_0000_0000u64 {
                Some(b)
            } else {
                None
            },
            None => None,
        };
    } else if str_eq(key, "gateway_default_fallback_models") {
        if !value.is_empty() {
            if let Some(models) = json_string_list(value) {
                settings.default_fallback_models = models;
            }
        }
    } else if str_eq(key, "gateway_provider_preferences") {
        if !value.is_empty() {
            if let Decoded::Preferences(p) = decoded {
                settings.provider_preferences = Some(p);
            }
        }
    } else if str_eq(key, "gateway_session_profiles") {
        if !value.is_empty() {
            if let Decoded::Profiles(mut profiles) = decoded {
                migrate_profiles(&mut profiles);
                settings.session_profiles = profiles;
            }
        }
    } else if str_eq(key, "gateway_session_labels") {
        if !value.is_empty() {
            if let Decoded::Labels(labels) = decoded {
                settings.session_labels = labels;
            }
        }
    } else if str_eq(key, "gateway_agent_soul") {
        if !value.is_empty() {
            if let Decoded::Soul(soul) = decoded {
                settings.agent_soul = soul;
            }
        }
    }
}

fn number_in(d: &Decoded) -> (r: Option<u64>)
    ensures
        r == decoded_number(*d),
{
    match d {
        Decoded::Number(b) => Some(*b),
        _ => None,
    }
}

// ---------------------------------------------------------------------------
// Storing an update
// ---------------------------------------------------------------------------

/// The texts of the settings that the caller writes itself: the amounts
/// (empty when unset) and the JSON of the structured settings.
pub struct EncodedSettings {
    pub monthly_budget_usd: String,
    pub per_request_limit_usd: String,
    pub session_budget_usd: String,
    pub judge_sample_rate: String,
    pub provider_preferences: String,
    pub session_profiles: String,
    pub session_labels: String,
    pub agent_soul: String,
}

/// What `serde_json::to_string` writes for a list of strings.
pub uninterp spec fn json_of_strings(items: Seq<Seq<char>>) -> Seq<char>;

/// Calls `serde_json::to_string` on a list of strings. The result is named,
/// not described.
#[verifier::external_body]
fn strings_json(items: &Vec<String>) -> (r: String)
    ensures
        r@ == json_of_strings(strings_view(items@)),
{
    serde_json::to_string(items).unwrap_or_default()
}

/// How a flag is written.
pub open spec fn bool_text(b: bool) -> Seq<char> {
    if b {
        "true"@
    } else {
        "false"@
    }
}

fn flag_text(b: bool) -> (r: String)
    ensures
        r@ == bool_text(b),
{
    if b {
        owned("true")
    } else {
        owned("false")
    }
}

/// How an optional list is written: its JSON, or `null` for none.
pub open spec fn opt_list_text(o: Option<Vec<String>>) -> Seq<char> {
    match opt_strings_view(o) {
        Some(v) => json_of_strings(v),
        None => "null"@,
    }
}

/// The rows an update stores, in the order they are written.
pub open spec fn stored_rows_spec(s: LlmSettings, e: EncodedSettings) -> Seq<(Seq<char>, Seq<char>)> {
    seq![
        ("gateway_introspection_enabled"@, bool_text(s.introspection_enabled)),
        ("gateway_thinking_budget_tokens"@, int_text(s.thinking_budget_tokens as int)),
        ("gateway_fallback_enabled"@, bool_text(s.fallback_enabled)),
        ("gateway_fallback_order"@, opt_list_text(s.fallback_order)),
        ("gateway_retry_enabled"@, bool_text(s.retry_enabled)),
        ("gateway_retry_max_attempts"@, int_text(s.retry_max_attempts as int)),
        ("gateway_monthly_budget_usd"@, e.monthly_budget_usd@),
        ("gateway_budget_alert_enabled"@, bool_text(s.budget_alert_enabled)),
        ("gateway_budget_hard_stop"@, bool_text(s.budget_hard_stop)),
        ("gateway_per_request_limit_usd"@, e.per_request_limit_usd@),
        ("gateway_rate_limit_enabled"@, bool_text(s.rate_limit_enabled)),
        ("gateway_rate_limit_rpm"@, int_text(s.rate_limit_rpm as int)),
        ("gateway_session_budget_usd"@, e.session_budget_usd@),
        ("gateway_guardrails"@, s.guardrails@),
        ("gateway_agent_enabled"@, bool_text(s.agent_enabled)),
        ("gateway_agent_scopes"@, json_of_strings(strings_view(s.agent_scopes@))),
        ("gateway_auto_investigate"@, bool_text(s.auto_investigate)),
        ("gateway_judge_sample_rate"@, e.judge_sample_rate@),
        ("gateway_default_fallback_models"@, json_of_strings(strings_view(s.default_fallback_models@))),
        ("gateway_provider_preferences"@, e.provider_preferences@),
        ("gateway_session_profiles"@, e.session_profiles@),
        ("gateway_session_labels"@, e.session_labels@),
        ("gateway_agent_soul"@, e.agent_soul@),
    ]
}

/// The keys and texts of rows.
pub open spec fn rows_view(rows: Seq<SettingRow>) -> Seq<(Seq<char>, Seq<char>)> {
    rows.map_values(|r: SettingRow| (r.key@, r.value@))
}

fn push_row(rows: &mut Vec<SettingRow>, key: &str, value: String)
    ensures
        rows_view(final(rows)@) == rows_view(old(rows)@).push((key@, value@)),
{
    let ghost before = rows@;
    rows.push(SettingRow { key: owned(key), value });
    proof {
        assert(rows_view(rows@) =~= rows_view(before).push((key@, value@)));
    }
}

/// The rows that store `settings`, one per setting, in the order they are
/// written; `encoded` holds the texts of the amounts and of the structured
/// settings.
#[verifier::spinoff_prover]
pub fn stored_rows(settings: &LlmSettings, encoded: EncodedSettings) -> (r: Vec<SettingRow>)
    ensures
        rows_view(r@) == stored_rows_spec(*settings, encoded),
{
    let ghost e = encoded;
    let EncodedSettings {
        monthly_budget_usd,
        per_request_limit_usd,
        session_budget_usd,
        judge_sample_rate,
        provider_preferences,
        session_profiles,
        session_labels,
        agent_soul,
    } = encoded;
    let s = settings;
    let mut rows: Vec<SettingRow> = Vec::new();
    proof {
        assert(rows_view(rows@) =~= Seq::<(Seq<char>, Seq<char>)>::empty());
    }
    push_row(&mut rows, "gateway_introspection_enabled", flag_text(s.introspection_enabled));
    push_row(&mut rows, "gateway_thinking_budget_tokens", i32_text(s.thinking_budget_tokens));
    push_row(&mut rows, "gateway_fallback_enabled", flag_text(s.fallback_enabled));
    let order = match &s.fallback_order {
        Some(v) => strings_json(v),
        None => owned("null"),
    };
    proof {
        reveal_strlit("null");
        assert(order@ == opt_list_text(s.fallback_order));
    }
    push_row(&mut rows, "gateway_fallback_order", order);
    push_row(&mut rows, "gateway_retry_enabled", flag_text(s.retry_enabled));
    push_row(&mut rows, "gateway_retry_max_attempts", i32_text(s.retry_max_attempts));
    push_row(&mut rows, "gateway_monthly_budget_usd", monthly_budget_usd);
    push_row(&mut rows, "gateway_budget_alert_enabled", flag_text(s.budget_alert_enabled));
    push_row(&mut rows, "gateway_budget_hard_stop", flag_text(s.budget_hard_stop));
    push_row(&mut rows, "gateway_per_request_limit_usd", per_request_limit_usd);
    push_row(&mut rows, "gateway_rate_limit_enabled", flag_text(s.rate_limit_enabled));
    push_row(&mut rows, "gateway_rate_limit_rpm", i32_text(s.rate_limit_rpm));
    push_row(&mut rows, "gateway_session_budget_usd", session_budget_usd);
    push_row(&mut rows, "gateway_guardrails", owned(s.guardrails.as_str()));
    push_row(&mut rows, "gateway_agent_enabled", flag_text(s.agent_enabled));
    push_row(&mut rows, "gateway_agent_scopes", strings_json(&s.agent_scopes));
    push_row(&mut rows, "gateway_auto_investigate", flag_text(s.auto_investigate));
    push_row(&mut rows, "gateway_judge_sample_rate", judge_sample_rate);
    push_row(&mut rows, "gateway_default_fallback_models", strings_json(&s.default_fallback_models));
    push_row(&mut rows, "gateway_provider_preferences", provider_preferences);
    push_row(&mut rows, "gateway_session_profiles", session_profiles);
    push_row(&mut rows, "gateway_session_labels", session_labels);
    push_row(&mut rows, "gateway_agent_soul", agent_soul);
    proof {
        assert(rows_view(rows@) =~= stored_rows_spec(*settings, e));
    }
    rows
}

// ---------------------------------------------------------------------------
// Validating an update
// ---------------------------------------------------------------------------

/// Whether binary64 bits denote a value below zero (negative infinity
/// included; no NaN, and not negative zero, which equals zero).
pub open spec fn bits_negative(b: u64) -> bool {
    0x8000_0000_0000_0000u64 < b && b <= 0xFFF0_0000_0000_0000u64
}

/// Whether binary64 bits denote a value from zero to one, both included
/// (negative zero included; no NaN).
pub open spec fn bits_in_unit_interval(b: u64) -> bool {
    b <= 0x3FF0_0000_0000_0000u64 || b == 0x8000_0000_0000_0000u64
}

/// Whether an optional amount is set and below zero.
pub open spec fn opt_negative(o: Option<u64>) -> bool {
    match o {
        Some(b) => bits_negative(b),
        None => false,
    }
}

/// The facts that validation reads from an update; `scope_error` is the
/// scope registry's verdict on the agent's scopes and `max_labels` the plan's
/// label limit, when known.
pub open spec fn check_of(s: LlmSettings, scope_error: Option<String>, max_labels: Option<i64>) -> SettingsCheck {
    SettingsCheck {
        retry_max_attempts: s.retry_max_attempts,
        thinking_budget_tokens: s.thinking_budget_tokens,
        rate_limit_rpm: s.rate_limit_rpm,
        monthly_budget_negative: opt_negative(s.monthly_budget_usd),
        per_request_limit_negative: opt_negative(s.per_request_limit_usd),
        judge_rate_out_of_range: match s.judge_sample_rate {
            Some(b) => !bits_in_unit_interval(b),
            None => false,
        },
        scope_error,
        max_labels,
    }
}

fn amount_negative(o: &Option<u64>) -> (r: bool)
    ensures
        r == opt_negative(*o),
{
    match o {
        Some(b) => 0x8000_0000_0000_0000u64 < *b && *b <= 0xFFF0_0000_0000_0000u64,
        None => false,
    }
}

/// Check an update of the settings: `Ok` when it breaks no rule, otherwise
/// every broken rule, in order, joined by `; `.
pub fn validate_llm_settings(settings: &LlmSettings, scope_error: Option<String>, max_labels: Option<i64>) -> (r:
    Result<(), ApiError>)
    ensures
        ({
            let errors = settings_errors(
                check_of(*settings, scope_error, max_labels),
                settings.session_profiles@,
                settings.session_labels@,
            );
            &&& errors.len() == 0 ==> r is Ok
            &&& errors.len() != 0 ==> (r matches Err(ApiError::Validation(m)) && m@ == join_spec(
                errors,
                "; "@,
            ))
        }),
{
    let judge_out = match settings.judge_sample_rate {
        Some(b) => !(b <= 0x3FF0_0000_0000_0000u64 || b == 0x8000_0000_0000_0000u64),
        None => false,
    };
    let check = SettingsCheck {
        retry_max_attempts: settings.retry_max_attempts,
        thinking_budget_tokens: settings.thinking_budget_tokens,
        rate_limit_rpm: settings.rate_limit_rpm,
        monthly_budget_negative: amount_negative(&settings.monthly_budget_usd),
        per_request_limit_negative: amount_negative(&settings.per_request_limit_usd),
        judge_rate_out_of_range: judge_out,
        scope_error,
        max_labels,
    };
    validate_settings(&check, &settings.session_profiles, &settings.session_labels)
}

/// The rows to store for an update of the settings: every broken rule,
/// joined by `; `, when it breaks any; otherwise the rows of
/// [`stored_rows`].
pub fn update_rows(
    settings: &LlmSettings,
    encoded: EncodedSettings,
    scope_error: Option<String>,
    max_labels: Option<i64>,
) -> (r: Result<Vec<SettingRow>, ApiError>)
    ensures
        ({
            let errors = settings_errors(
                check_of(*settings, scope_error, max_labels),
                settings.session_profiles@,
                settings.session_labels@,
            );
            &&& errors.len() == 0 ==> (r matches Ok(rows) && rows_view(rows@) == stored_rows_spec(
                *settings,
                encoded,
            ))
            &&& errors.len() != 0 ==> (r matches Err(ApiError::Validation(m)) && m@ == join_spec(
                errors,
                "; "@,
            ))
        }),
{
    match validate_llm_settings(settings, scope_error, max_labels) {
        Ok(()) => Ok(stored_rows(settings, encoded)),
        Err(e) => Err(e),
    }
}

// ---------------------------------------------------------------------------
// Laws
// ---------------------------------------------------------------------------

/// A flag or an integer setting.
pub enum ScalarSetting {
    Flag(bool),
    Integer(i32),
}

/// The flag or integer that `key` names in `s`, if it names one.
pub open spec fn scalar_of(s: LlmSettings, key: Seq<char>) -> Option<ScalarSetting> {
    if key == "gateway_introspection_enabled"@ {
        Some(ScalarSetting::Flag(s.introspection_enabled))
    } else if key == "gateway_thinking_budget_tokens"@ {
        Some(ScalarSetting::Integer(s.thinking_budget_tokens))
    } else if key == "gateway_fallback_enabled"@ {
        Some(ScalarSetting::Flag(s.fallback_enabled))
    } else if key == "gateway_retry_enabled"@ {
        Some(ScalarSetting::Flag(s.retry_enabled))
    } else if key == "gateway_retry_max_attempts"@ {
        Some(ScalarSetting::Integer(s.retry_max_attempts))
    } else if key == "gateway_budget_alert_enabled"@ {
        Some(ScalarSetting::Flag(s.budget_alert_enabled))
    } else if key == "gateway_budget_hard_stop"@ {
        Some(ScalarSetting::Flag(s.budget_hard_stop))
    } else if key == "gateway_rate_limit_enabled"@ {
        Some(ScalarSetting::Flag(s.rate_limit_enabled))
    } else if key == "gateway_rate_limit_rpm"@ {
        Some(ScalarSetting::Integer(s.rate_limit_rpm))
    } else if key == "gateway_agent_enabled"@ {
        Some(ScalarSetting::Flag(s.agent_enabled))
    } else if key == "gateway_auto_investigate"@ {
        Some(ScalarSetting::Flag(s.auto_investigate))
    } else {
        None
    }
}

/// The setting keys differ from each other in their length or in the two
/// characters after the `gateway_` prefix; `true` and `false` differ too.
proof fn lemma_key_facts()
    ensures
        "gateway_introspection_enabled"@.len() == 29 && "gateway_introspection_enabled"@[8] == 'i' && "gateway_introspection_enabled"@[9] == 'n',
        "gateway_thinking_budget_tokens"@.len() == 30 && "gateway_thinking_budget_tokens"@[8] == 't' && "gateway_thinking_budget_tokens"@[9] == 'h',
        "gateway_fallback_enabled"@.len() == 24 && "gateway_fallback_enabled"@[8] == 'f' && "gateway_fallback_enabled"@[9] == 'a',
        "gateway_fallback_order"@.len() == 22 && "gateway_fallback_order"@[8] == 'f' && "gateway_fallback_order"@[9] == 'a',
        "gateway_retry_enabled"@.len() == 21 && "gateway_retry_enabled"@[8] == 'r' && "gateway_retry_enabled"@[9] == 'e',
        "gateway_retry_max_attempts"@.len() == 26 && "gateway_retry_max_attempts"@[8] == 'r' && "gateway_retry_max_attempts"@[9] == 'e',
        "gateway_monthly_budget_usd"@.len() == 26 && "gateway_monthly_budget_usd"@[8] == 'm' && "gateway_monthly_budget_usd"@[9] == 'o',
        "gateway_budget_alert_enabled"@.len() == 28 && "gateway_budget_alert_enabled"@[8] == 'b' && "gateway_budget_alert_enabled"@[9] == 'u',
        "gateway_budget_hard_stop"@.len() == 24 && "gateway_budget_hard_stop"@[8] == 'b' && "gateway_budget_hard_stop"@[9] == 'u',
        "gateway_per_request_limit_usd"@.len() == 29 && "gateway_per_request_limit_usd"@[8] == 'p' && "gateway_per_request_limit_usd"@[9] == 'e',
        "gateway_rate_limit_enabled"@.len() == 26 && "gateway_rate_limit_enabled"@[8] == 'r' && "gateway_rate_limit_enabled"@[9] == 'a',
        "gateway_rate_limit_rpm"@.len() == 22 && "gateway_rate_limit_rpm"@[8] == 'r' && "gateway_rate_limit_rpm"@[9] == 'a',
        "gateway_session_budget_usd"@.len() == 26 && "gateway_session_budget_usd"@[8] == 's' && "gateway_session_budget_usd"@[9] == 'e',
        "gateway_guardrails"@.len() == 18 && "gateway_guardrails"@[8] == 'g' && "gateway_guardrails"@[9] == 'u',
        "gateway_agent_enabled"@.len() == 21 && "gateway_agent_enabled"@[8] == 'a' && "gateway_agent_enabled"@[9] == 'g',
        "gateway_agent_scopes"@.len() == 20 && "gateway_agent_scopes"@[8] == 'a' && "gateway_agent_scopes"@[9] == 'g',
        "gateway_auto_investigate"@.len() == 24 && "gateway_auto_investigate"@[8] == 'a' && "gateway_auto_investigate"@[9] == 'u',
        "gateway_judge_sample_rate"@.len() == 25 && "gateway_judge_sample_rate"@[8] == 'j' && "gateway_judge_sample_rate"@[9] == 'u',
        "gateway_default_fallback_models"@.len() == 31 && "gateway_default_fallback_models"@[8] == 'd' && "gateway_default_fallback_models"@[9] == 'e',
        "gateway_provider_preferences"@.len() == 28 && "gateway_provider_preferences"@[8] == 'p' && "gateway_provider_preferences"@[9] == 'r',
        "gateway_session_profiles"@.len() == 24 && "gateway_session_profiles"@[8] == 's' && "gateway_session_profiles"@[9] == 'e',
        "gateway_session_labels"@.len() == 22 && "gateway_session_labels"@[8] == 's' && "gateway_session_labels"@[9] == 'e',
        "gateway_agent_soul"@.len() == 18 && "gateway_agent_soul"@[8] == 'a' && "gateway_agent_soul"@[9] == 'g',
        "true"@.len() == 4,
        "false"@.len() == 5,
{
    reveal_strlit("gateway_introspection_enabled");
    reveal_strlit("gateway_thinking_budget_tokens");
    reveal_strlit("gateway_fallback_enabled");
    reveal_strlit("gateway_fallback_order");
    reveal_strlit("gateway_retry_enabled");
    reveal_strlit("gateway_retry_max_attempts");
    reveal_strlit("gateway_monthly_budget_usd");
    reveal_strlit("gateway_budget_alert_enabled");
    reveal_strlit("gateway_budget_hard_stop");
    reveal_strlit("gateway_per_request_limit_usd");
    reveal_strlit("gateway_rate_limit_enabled");
    reveal_strlit("gateway_rate_limit_rpm");
    reveal_strlit("gateway_session_budget_usd");
    reveal_strlit("gateway_guardrails");
    reveal_strlit("gateway_agent_enabled");
    reveal_strlit("gateway_agent_scopes");
    reveal_strlit("gateway_auto_investigate");
    reveal_strlit("gateway_judge_sample_rate");
    reveal_strlit("gateway_default_fallback_models");
    reveal_strlit("gateway_provider_preferences");
    reveal_strlit("gateway_session_profiles");
    reveal_strlit("gateway_session_labels");
    reveal_strlit("gateway_agent_soul");
    reveal_strlit("true");
    reveal_strlit("false");
}

/// Reading back what an update stored: whatever the settings were before, the
/// row an update stores for a flag or an integer sets it to the update's
/// value, and the guardrail text comes back as it was stored.
#[verifier::spinoff_prover]
#[verifier::rlimit(100)]
pub proof fn lemma_stored_rows_read_back(s: LlmSettings, e: EncodedSettings, i: int, t: LlmSettings, u: LlmSettings, d: Decoded)
    requires
        0 <= i < stored_rows_spec(s, e).len(),
        applied(t, u, stored_rows_spec(s, e)[i].0, stored_rows_spec(s, e)[i].1, d),
    ensures
        scalar_of(u, stored_rows_spec(s, e)[i].0) == scalar_of(s, stored_rows_spec(s, e)[i].0),
        stored_rows_spec(s, e)[i].0 == "gateway_guardrails"@ && s.guardrails@.len() > 0
            && d is GuardrailConfig ==> u.guardrails@ == s.guardrails@,
{
    lemma_key_facts();
    lemma_i32_text_reads_back(s.thinking_budget_tokens);
    lemma_i32_text_reads_back(s.retry_max_attempts);
    lemma_i32_text_reads_back(s.rate_limit_rpm);
    let rows = stored_rows_spec(s, e);
    if i == 0 {
        assert(rows[0].0 == "gateway_introspection_enabled"@);
    } else if i == 1 {
        assert(rows[1].0 == "gateway_thinking_budget_tokens"@);
    } else if i == 2 {
        assert(rows[2].0 == "gateway_fallback_enabled"@);
    } else if i == 3 {
        assert(rows[3].0 == "gateway_fallback_order"@);
    } else if i == 4 {
        assert(rows[4].0 == "gateway_retry_enabled"@);
    } else if i == 5 {
        assert(rows[5].0 == "gateway_retry_max_attempts"@);
    } else if i == 6 {
        assert(rows[6].0 == "gateway_monthly_budget_usd"@);
    } else if i == 7 {
        assert(rows[7].0 == "gateway_budget_alert_enabled"@);
    } else if i == 8 {
        assert(rows[8].0 == "gateway_budget_hard_stop"@);
    } else if i == 9 {
        assert(rows[9].0 == "gateway_per_request_limit_usd"@);
    } else if i == 10 {
        assert(rows[10].0 == "gateway_rate_limit_enabled"@);
    } else if i == 11 {
        assert(rows[11].0 == "gateway_rate_limit_rpm"@);
    } else if i == 12 {
        assert(rows[12].0 == "gateway_session_budget_usd"@);
    } else if i == 13 {
        assert(rows[13].0 == "gateway_guardrails"@);
    } else if i == 14 {
        assert(rows[14].0 == "gateway_agent_enabled"@);
    } else if i == 15 {
        assert(rows[15].0 == "gateway_agent_scopes"@);
    } else if i == 16 {
        assert(rows[16].0 == "gateway_auto_investigate"@);
    } else if i == 17 {
        assert(rows[17].0 == "gateway_judge_sample_rate"@);
    } else if i == 18 {
        assert(rows[18].0 == "gateway_default_fallback_models"@);
    } else if i == 19 {
        assert(rows[19].0 == "gateway_provider_preferences"@);
    } else if i == 20 {
        assert(rows[20].0 == "gateway_session_profiles"@);
    } else if i == 21 {
        assert(rows[21].0 == "gateway_session_labels"@);
    } else if i == 22 {
        assert(rows[22].0 == "gateway_agent_soul"@);
    }
}

} // verus!
