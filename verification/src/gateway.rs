//! Calling the internal LLM gateway: error classification, retry policy,
//! server-sent-event line framing and result assembly.

use vstd::prelude::*;
use vstd::string::*;
use vstd::arithmetic::power::lemma_pow0;
use vstd::arithmetic::power2::{lemma_pow2_unfold, pow2};
use vstd::utf8::{decode_utf8, valid_utf8};
use crate::json::json_nested_str;
use crate::json::json_nested_string;
use crate::messages::{opt_view, tool_calls_view, ToolCall, ToolCallView, Usage};
use crate::text::{
    chars_of, chars_range, decimal, decimal_string, has_prefix, has_substring, join, join_spec,
    owned, push_char, str_contains, str_eq, str_starts_with, strings_view, trim, trim_spec,
};

verus! {

// ---------------------------------------------------------------------------
// Errors
// ---------------------------------------------------------------------------

/// Structured error from a gateway call, so that callers can react
/// differently to rate limits, context overflow and fatal errors.
#[derive(Debug)]
pub enum GatewayCallError {
    RateLimited { retry_after_ms: Option<u64> },
    ContextTooLong,
    Overloaded { retry_after_ms: Option<u64> },
    Transient { status: u16, body: String },
    Fatal { status: u16, body: String },
    /// The platform requires a payment method or credits.
    PaymentRequired { message: String },
    /// An upstream provider returned 402 for its own billing.
    ProviderBillingError { message: String },
    /// The request could not be sent; the text describes the transport error.
    Network(String),
}

/// Abstract value of a [`GatewayCallError`].
pub enum GatewayErrorView {
    RateLimited { retry_after_ms: Option<u64> },
    ContextTooLong,
    Overloaded { retry_after_ms: Option<u64> },
    Transient { status: u16, body: Seq<char> },
    Fatal { status: u16, body: Seq<char> },
    PaymentRequired { message: Seq<char> },
    ProviderBillingError { message: Seq<char> },
    Network(Seq<char>),
}

impl View for GatewayCallError {
    type V = GatewayErrorView;

    open spec fn view(&self) -> GatewayErrorView {
        match self {
            GatewayCallError::RateLimited { retry_after_ms } => GatewayErrorView::RateLimited {
                retry_after_ms: *retry_after_ms,
            },
            GatewayCallError::ContextTooLong => GatewayErrorView::ContextTooLong,
            GatewayCallError::Overloaded { retry_after_ms } => GatewayErrorView::Overloaded {
                retry_after_ms: *retry_after_ms,
            },
            GatewayCallError::Transient { status, body } => GatewayErrorView::Transient {
                status: *status,
                body: body@,
            },
            GatewayCallError::Fatal { status, body } => GatewayErrorView::Fatal {
                status: *status,
                body: body@,
            },
            GatewayCallError::PaymentRequired { message } => GatewayErrorView::PaymentRequired {
                message: message@,
            },
            GatewayCallError::ProviderBillingError { message } =>
                GatewayErrorView::ProviderBillingError { message: message@ },
            GatewayCallError::Network(t) => GatewayErrorView::Network(t@),
        }
    }
}

/// `{:?}` rendering of an optional number.
pub open spec fn debug_opt_u64(v: Option<u64>) -> Seq<char> {
    match v {
        Some(n) => "Some("@ + decimal(n as nat) + ")"@,
        None => "None"@,
    }
}

/// The message of an error, as its display text reads.
pub open spec fn error_message(e: GatewayErrorView) -> Seq<char> {
    match e {
        GatewayErrorView::RateLimited { retry_after_ms } => "rate limited (retry after "@
            + debug_opt_u64(retry_after_ms) + "ms)"@,
        GatewayErrorView::ContextTooLong => "context too long for model"@,
        GatewayErrorView::Overloaded { retry_after_ms } => "provider overloaded (retry after "@
            + debug_opt_u64(retry_after_ms) + "ms)"@,
        GatewayErrorView::Transient { status, body } => "transient gateway error ("@ + decimal(
            status as nat,
        ) + "): "@ + body,
        GatewayErrorView::Fatal { status, body } => "fatal gateway error ("@ + decimal(
            status as nat,
        ) + "): "@ + body,
        GatewayErrorView::PaymentRequired { message } => "payment required: "@ + message,
        GatewayErrorView::ProviderBillingError { message } => "provider billing error: "@ + message,
        GatewayErrorView::Network(t) => "network error: "@ + t,
    }
}

fn debug_opt_string(v: Option<u64>) -> (r: String)
    ensures
        r@ == debug_opt_u64(v),
{
    match v {
        Some(n) => {
            let mut s = owned("Some(");
            s.append(decimal_string(n).as_str());
            s.append(")");
            s
        },
        None => owned("None"),
    }
}

impl GatewayCallError {
    /// Whether the error says that the context is too long for the model.
    pub fn is_context_too_long(&self) -> (r: bool)
        ensures
            r == (self@ is ContextTooLong),
    {
        match self {
            GatewayCallError::ContextTooLong => true,
            _ => false,
        }
    }

    /// The error's message.
    pub fn to_string(&self) -> (r: String)
        ensures
            r@ == error_message(self@),
    {
        match self {
            GatewayCallError::RateLimited { retry_after_ms } => {
                let mut s = owned("rate limited (retry after ");
                s.append(debug_opt_string(*retry_after_ms).as_str());
                s.append("ms)");
                s
            },
            GatewayCallError::ContextTooLong => owned("context too long for model"),
            GatewayCallError::Overloaded { retry_after_ms } => {
                let mut s = owned("provider overloaded (retry after ");
                s.append(debug_opt_string(*retry_after_ms).as_str());
                s.append("ms)");
                s
            },
            GatewayCallError::Transient { status, body } => {
                let mut s = owned("transient gateway error (");
                s.append(decimal_string(*status as u64).as_str());
                s.append("): ");
                s.append(body.as_str());
                s
            },
            GatewayCallError::Fatal { status, body } => {
                let mut s = owned("fatal gateway error (");
                s.append(decimal_string(*status as u64).as_str());
                s.append("): ");
                s.append(body.as_str());
                s
            },
            GatewayCallError::PaymentRequired { message } => {
                let mut s = owned("payment required: ");
                s.append(message.as_str());
                s
            },
            GatewayCallError::ProviderBillingError { message } => {
                let mut s = owned("provider billing error: ");
                s.append(message.as_str());
                s
            },
            GatewayCallError::Network(t) => {
                let mut s = owned("network error: ");
                s.append(t.as_str());
                s
            },
        }
    }
}

/// The messages of an error and of each error that caused it, outermost
/// first, joined by " -> ".
pub fn error_source_chain(messages: &Vec<String>) -> (r: String)
    ensures
        r@ == join_spec(strings_view(messages@), " -> "@),
{
    join(messages, " -> ")
}

// ---------------------------------------------------------------------------
// Classification
// ---------------------------------------------------------------------------

/// Body markers by which some providers report an over-long context with 400.
pub open spec fn mentions_context_overflow(body: Seq<char>) -> bool {
    has_substring(body, "context_length_exceeded"@) || has_substring(body, "maximum context length"@)
        || has_substring(body, "too many tokens"@)
}

/// A 402 answer split by the `error.type` of its body: platform billing for
/// `payment_required` and `insufficient_credits`, the upstream provider's own
/// billing otherwise. The message is `error.message`, else the whole body.
pub open spec fn billing_error(
    body: Seq<char>,
    error_type: Option<Seq<char>>,
    error_message: Option<Seq<char>>,
) -> GatewayErrorView {
    let message = match error_message {
        Some(m) => m,
        None => body,
    };
    if error_type == Some("payment_required"@) || error_type == Some("insufficient_credits"@) {
        GatewayErrorView::PaymentRequired { message }
    } else {
        GatewayErrorView::ProviderBillingError { message }
    }
}

/// The error for a failed answer with HTTP status `status`.
pub open spec fn classified(
    status: u16,
    body: Seq<char>,
    retry_after_ms: Option<u64>,
    billing: GatewayErrorView,
) -> GatewayErrorView {
    if status == 429 {
        GatewayErrorView::RateLimited { retry_after_ms }
    } else if status == 413 {
        GatewayErrorView::ContextTooLong
    } else if status == 400 && mentions_context_overflow(body) {
        GatewayErrorView::ContextTooLong
    } else if status == 402 {
        billing
    } else if status == 529 {
        GatewayErrorView::Overloaded { retry_after_ms }
    } else if 500 <= status <= 599 {
        GatewayErrorView::Transient { status, body }
    } else {
        GatewayErrorView::Fatal { status, body }
    }
}

/// Build the billing error of a 402 answer from the body and the `error.type`
/// and `error.message` read from it.
pub fn billing_error_from(body: &str, error_type: Option<String>, error_message: Option<String>) -> (r:
    GatewayCallError)
    ensures
        r@ == billing_error(body@, opt_view(error_type), opt_view(error_message)),
{
    let message = match error_message {
        Some(m) => m,
        None => owned(body),
    };
    let platform = match &error_type {
        Some(t) => str_eq(t.as_str(), "payment_required") || str_eq(t.as_str(), "insufficient_credits"),
        None => false,
    };
    if platform {
        GatewayCallError::PaymentRequired { message }
    } else {
        GatewayCallError::ProviderBillingError { message }
    }
}

/// Distinguish platform billing errors from upstream provider billing errors
/// by the `error.type` member of the JSON body.
pub fn classify_402(body: &str) -> (r: GatewayCallError)
    ensures
        r@ == billing_error(
            body@,
            json_nested_str(body@, "error"@, "type"@),
            json_nested_str(body@, "error"@, "message"@),
        ),
{
    let error_type = json_nested_string(body, "error", "type");
    let error_message = json_nested_string(body, "error", "message");
    billing_error_from(body, error_type, error_message)
}

/// Classify a failed gateway answer. `retry_after_ms` is the `retry-after`
/// header converted to milliseconds, where the answer carried one.
pub fn classify_error(status: u16, body: &str, retry_after_ms: Option<u64>) -> (r: GatewayCallError)
    ensures
        r@ == classified(
            status,
            body@,
            retry_after_ms,
            billing_error(
                body@,
                json_nested_str(body@, "error"@, "type"@),
                json_nested_str(body@, "error"@, "message"@),
            ),
        ),
{
    if status == 429 {
        GatewayCallError::RateLimited { retry_after_ms }
    } else if status == 413 {
        GatewayCallError::ContextTooLong
    } else if status == 400 && (str_contains(body, "context_length_exceeded") || str_contains(
        body,
        "maximum context length",
    ) || str_contains(body, "too many tokens")) {
        GatewayCallError::ContextTooLong
    } else if status == 402 {
        classify_402(body)
    } else if status == 529 {
        GatewayCallError::Overloaded { retry_after_ms }
    } else if 500 <= status && status <= 599 {
        GatewayCallError::Transient { status, body: owned(body) }
    } else {
        GatewayCallError::Fatal { status, body: owned(body) }
    }
}

// ---------------------------------------------------------------------------
// Retry policy
// ---------------------------------------------------------------------------

/// How often and how long to wait before retrying one kind of failure.
#[derive(Debug, Clone, Copy, PartialEq, Eq, Structural)]
pub struct RetryPolicy {
    pub max_retries: u32,
    pub base_delay_ms: u64,
    pub max_delay_ms: u64,
}

/// Policy for rate limits: 3 retries, 2 s doubling, at most 16 s.
pub open spec fn rate_limit_policy() -> RetryPolicy {
    RetryPolicy { max_retries: 3, base_delay_ms: 2_000, max_delay_ms: 16_000 }
}

/// Policy for an overloaded provider: 2 retries, 5 s doubling, at most 30 s.
pub open spec fn overloaded_policy() -> RetryPolicy {
    RetryPolicy { max_retries: 2, base_delay_ms: 5_000, max_delay_ms: 30_000 }
}

/// Policy for transient and network failures: 3 retries, 0.5 s doubling, at most 2 s.
pub open spec fn transient_policy() -> RetryPolicy {
    RetryPolicy { max_retries: 3, base_delay_ms: 500, max_delay_ms: 2_000 }
}

/// Number of attempts the send loop makes at most.
pub const MAX_SEND_ATTEMPTS: u32 = 4;

/// The retry policy of an error kind, if it is retried at all.
pub open spec fn policy_for(e: GatewayErrorView) -> Option<RetryPolicy> {
    match e {
        GatewayErrorView::RateLimited { .. } => Some(rate_limit_policy()),
        GatewayErrorView::Overloaded { .. } => Some(overloaded_policy()),
        GatewayErrorView::Transient { .. } => Some(transient_policy()),
        GatewayErrorView::Network(_) => Some(transient_policy()),
        _ => None,
    }
}

/// The retry policy for an error, if it is retried at all.
pub fn retry_policy_for(err: &GatewayCallError) -> (r: Option<RetryPolicy>)
    ensures
        r == policy_for(err@),
{
    match err {
        GatewayCallError::RateLimited { .. } => Some(
            RetryPolicy { max_retries: 3, base_delay_ms: 2_000, max_delay_ms: 16_000 },
        ),
        GatewayCallError::Overloaded { .. } => Some(
            RetryPolicy { max_retries: 2, base_delay_ms: 5_000, max_delay_ms: 30_000 },
        ),
        GatewayCallError::Transient { .. } | GatewayCallError::Network(_) => Some(
            RetryPolicy { max_retries: 3, base_delay_ms: 500, max_delay_ms: 2_000 },
        ),
        _ => None,
    }
}

/// `base` doubled `n` times.
pub open spec fn doubled(base: nat, n: nat) -> nat
    decreases n,
{
    if n == 0 {
        base
    } else {
        2 * doubled(base, (n - 1) as nat)
    }
}

proof fn lemma_doubled_monotone(base: nat, k: nat, n: nat)
    requires
        k <= n,
    ensures
        doubled(base, k) <= doubled(base, n),
    decreases n,
{
    if k < n {
        lemma_doubled_monotone(base, k, (n - 1) as nat);
    }
}

/// Doubling `n` times multiplies by two to the `n`.
proof fn lemma_doubled_pow2(base: nat, n: nat)
    ensures
        doubled(base, n) == base * pow2(n),
    decreases n,
{
    if n == 0 {
        lemma_pow0(2);
        assert(pow2(0) == 1);
    } else {
        lemma_doubled_pow2(base, (n - 1) as nat);
        lemma_pow2_unfold(n);
        let q = pow2((n - 1) as nat);
        assert(base * (2 * q) == 2 * (base * q)) by (nonlinear_arith);
    }
}

/// Without a server hint the waits grow exponentially: the wait before
/// retry `attempt` is the base delay times two to the `attempt`, capped at
/// the policy's maximum; while under the cap, each retry waits twice as long
/// as the one before, and the waits never shrink from one retry to the next.
/// A server hint is followed as given, up to the maximum, whatever the
/// attempt.
pub proof fn lemma_backoff_exponential(policy: RetryPolicy, attempt: u32)
    ensures
        backoff(policy, attempt, None) == if policy.base_delay_ms * pow2(attempt as nat)
            <= policy.max_delay_ms {
            policy.base_delay_ms * pow2(attempt as nat)
        } else {
            policy.max_delay_ms as int
        },
        attempt < u32::MAX && policy.base_delay_ms * pow2(attempt as nat + 1) <= policy.max_delay_ms
            ==> backoff(policy, (attempt + 1) as u32, None) == 2 * backoff(policy, attempt, None),
        attempt < u32::MAX ==> backoff(policy, attempt, None) <= backoff(
            policy,
            (attempt + 1) as u32,
            None,
        ),
        forall|h: u64, other: u32|
            #![trigger backoff(policy, other, Some(h))]
            backoff(policy, other, Some(h)) == backoff(policy, attempt, Some(h)) && backoff(
                policy,
                other,
                Some(h),
            ) == if h <= policy.max_delay_ms {
                h as int
            } else {
                policy.max_delay_ms as int
            },
{
    let b = policy.base_delay_ms as nat;
    lemma_doubled_pow2(b, attempt as nat);
    if attempt < u32::MAX {
        lemma_doubled_pow2(b, attempt as nat + 1);
        lemma_doubled_monotone(b, attempt as nat, attempt as nat + 1);
        assert(doubled(b, attempt as nat + 1) == 2 * doubled(b, attempt as nat));
    }
}

/// The wait before retry number `attempt` (counted from 0): the server's
/// hint if it gave one, else the base delay doubled per attempt, never more
/// than the policy's maximum.
pub open spec fn backoff(policy: RetryPolicy, attempt: u32, hint: Option<u64>) -> nat {
    match hint {
        Some(h) => if h <= policy.max_delay_ms {
            h as nat
        } else {
            policy.max_delay_ms as nat
        },
        None => if doubled(policy.base_delay_ms as nat, attempt as nat) <= policy.max_delay_ms {
            doubled(policy.base_delay_ms as nat, attempt as nat)
        } else {
            policy.max_delay_ms as nat
        },
    }
}

/// Delay before the next retry.
pub fn backoff_ms(policy: &RetryPolicy, attempt: u32, server_hint_ms: Option<u64>) -> (r: u64)
    requires
        server_hint_ms is Some || doubled(policy.base_delay_ms as nat, attempt as nat)
            <= u64::MAX,
    ensures
        r == backoff(*policy, attempt, server_hint_ms),
{
    if let Some(hint) = server_hint_ms {
        return if hint <= policy.max_delay_ms {
            hint
        } else {
            policy.max_delay_ms
        };
    }
    let mut delay: u64 = policy.base_delay_ms;
    let mut k: u32 = 0;
    while k < attempt
        invariant
            k <= attempt,
            delay == doubled(policy.base_delay_ms as nat, k as nat),
            doubled(policy.base_delay_ms as nat, attempt as nat) <= u64::MAX,
        decreases attempt - k,
    {
        proof {
            lemma_doubled_monotone(policy.base_delay_ms as nat, (k + 1) as nat, attempt as nat);
        }
        delay = delay * 2;
        k = k + 1;
    }
    if delay <= policy.max_delay_ms {
        delay
    } else {
        policy.max_delay_ms
    }
}

/// The server's retry hint carried by an error.
pub open spec fn retry_hint(e: GatewayErrorView) -> Option<u64> {
    match e {
        GatewayErrorView::RateLimited { retry_after_ms } => retry_after_ms,
        GatewayErrorView::Overloaded { retry_after_ms } => retry_after_ms,
        _ => None,
    }
}

/// After attempt number `attempt` (from 0) failed with `e`: the wait before
/// the next attempt, or `None` when the error is to be returned as it is.
pub open spec fn retry_delay_spec(attempt: u32, e: GatewayErrorView) -> Option<nat> {
    match policy_for(e) {
        Some(p) => if attempt < p.max_retries {
            Some(backoff(p, attempt, retry_hint(e)))
        } else {
            None
        },
        None => None,
    }
}

/// Decide what follows a failed attempt: wait and retry, or give up and
/// return the error. A context overflow, a fatal or a billing error is never
/// retried; network failures follow the transient policy.
pub fn retry_delay(attempt: u32, err: &GatewayCallError) -> (r: Option<u64>)
    ensures
        match r {
            Some(d) => retry_delay_spec(attempt, err@) == Some(d as nat),
            None => retry_delay_spec(attempt, err@) is None,
        },
{
    if err.is_context_too_long() {
        return None;
    }
    let policy = match retry_policy_for(err) {
        Some(p) => p,
        None => {
            return None;
        },
    };
    if attempt >= policy.max_retries {
        return None;
    }
    let hint = match err {
        GatewayCallError::RateLimited { retry_after_ms } => *retry_after_ms,
        GatewayCallError::Overloaded { retry_after_ms } => *retry_after_ms,
        _ => None,
    };
    proof {
        reveal_with_fuel(doubled, 4);
    }
    Some(backoff_ms(&policy, attempt, hint))
}

/// The error returned when every attempt has been used: the last failure,
/// or a fatal error when there was none.
pub fn exhausted_error(last: Option<GatewayCallError>) -> (r: GatewayCallError)
    ensures
        match last {
            Some(e) => r@ == e@,
            None => r@ == (GatewayErrorView::Fatal {
                status: 0,
                body: "retry loop exhausted without error"@,
            }),
        },
{
    match last {
        Some(e) => e,
        None => GatewayCallError::Fatal { status: 0, body: owned("retry loop exhausted without error") },
    }
}

/// Retrying stops early: a retry is only ever scheduled before the policy's
/// retry count is used up, every wait is at most the policy's maximum (and so
/// at most 30 s), and errors without a policy are never retried.
pub proof fn lemma_retry_bounded(attempt: u32, e: GatewayErrorView)
    ensures
        retry_delay_spec(attempt, e) is Some ==> {
            &&& policy_for(e) is Some
            &&& attempt < policy_for(e)->0.max_retries
            &&& attempt < MAX_SEND_ATTEMPTS
            &&& retry_delay_spec(attempt, e)->0 <= policy_for(e)->0.max_delay_ms
            &&& retry_delay_spec(attempt, e)->0 <= 30_000
        },
        (e is ContextTooLong || e is Fatal || e is PaymentRequired || e is ProviderBillingError)
            ==> retry_delay_spec(attempt, e) is None,
{
}

// ---------------------------------------------------------------------------
// Server-sent events
// ---------------------------------------------------------------------------

/// The text `String::from_utf8_lossy` makes of `bytes`: invalid sequences
/// replaced by U+FFFD REPLACEMENT CHARACTER.
pub uninterp spec fn utf8_lossy(bytes: Seq<u8>) -> Seq<char>;

/// Decodes bytes as UTF-8 with `String::from_utf8_lossy`. The result
/// depends on the bytes alone; of valid UTF-8 the standard library
/// documents that the text is decoded as it is.
#[verifier::external_body]
pub(crate) fn decode_lossy(bytes: &[u8]) -> (r: String)
    ensures
        r@ == utf8_lossy(bytes@),
        valid_utf8(bytes@) ==> r@ == decode_utf8(bytes@),
{
    String::from_utf8_lossy(bytes).into_owned()
}

/// Position of the first line feed, if any.
pub open spec fn newline_pos(s: Seq<char>) -> Option<nat>
    decreases s.len(),
{
    if s.len() == 0 {
        None
    } else if s[0] == '\n' {
        Some(0)
    } else {
        match newline_pos(s.drop_first()) {
            Some(p) => Some(p + 1),
            None => None,
        }
    }
}

/// `s` without trailing carriage returns.
pub open spec fn strip_cr(s: Seq<char>) -> Seq<char>
    decreases s.len(),
{
    if s.len() > 0 && s.last() == '\r' {
        strip_cr(s.drop_last())
    } else {
        s
    }
}

/// The next complete non-empty line of the buffer (without its line ending)
/// and what is left after it; `None` when no complete non-empty line is
/// buffered yet, with the empty lines read so far dropped.
pub open spec fn next_line(buf: Seq<char>) -> (Option<Seq<char>>, Seq<char>)
    decreases buf.len(),
{
    match newline_pos(buf) {
        None => (None, buf),
        Some(p) => {
            let line = strip_cr(buf.subrange(0, p as int));
            let rest = buf.subrange(p as int + 1, buf.len() as int);
            if line.len() == 0 {
                proof {
                    lemma_newline_pos_bound(buf);
                }
                next_line(rest)
            } else {
                (Some(line), rest)
            }
        },
    }
}

/// A line feed position lies inside the text and holds a line feed, and
/// none comes before it.
pub proof fn lemma_newline_pos_bound(s: Seq<char>)
    ensures
        match newline_pos(s) {
            Some(p) => p < s.len() && s[p as int] == '\n' && forall|j: int|
                0 <= j < p ==> s[j] != '\n',
            None => forall|j: int| 0 <= j < s.len() ==> s[j] != '\n',
        },
    decreases s.len(),
{
    if s.len() > 0 && s[0] != '\n' {
        lemma_newline_pos_bound(s.drop_first());
        match newline_pos(s.drop_first()) {
            Some(p) => {
                assert forall|j: int| 0 <= j < p + 1 implies s[j] != '\n' by {
                    if j > 0 {
                        assert(s[j] == s.drop_first()[j - 1]);
                    }
                }
            },
            None => {
                assert forall|j: int| 0 <= j < s.len() implies s[j] != '\n' by {
                    if j > 0 {
                        assert(s[j] == s.drop_first()[j - 1]);
                    }
                }
            },
        }
    }
}

proof fn lemma_newline_pos_at(s: Seq<char>, p: int)
    requires
        0 <= p < s.len(),
        s[p] == '\n',
        forall|j: int| 0 <= j < p ==> s[j] != '\n',
    ensures
        newline_pos(s) == Some(p as nat),
    decreases p,
{
    if p > 0 {
        assert forall|j: int| 0 <= j < p - 1 implies s.drop_first()[j] != '\n' by {
            assert(s.drop_first()[j] == s[j + 1]);
        }
        lemma_newline_pos_at(s.drop_first(), p - 1);
    }
}

proof fn lemma_newline_pos_none(s: Seq<char>)
    requires
        forall|j: int| 0 <= j < s.len() ==> s[j] != '\n',
    ensures
        newline_pos(s) is None,
    decreases s.len(),
{
    if s.len() > 0 {
        assert forall|j: int| 0 <= j < s.len() - 1 implies s.drop_first()[j] != '\n' by {
            assert(s.drop_first()[j] == s[j + 1]);
        }
        lemma_newline_pos_none(s.drop_first());
    }
}

fn strip_cr_chars(cs: &Vec<char>, lo: usize, hi: usize) -> (r: String)
    requires
        lo <= hi <= cs@.len(),
    ensures
        r@ == strip_cr(cs@.subrange(lo as int, hi as int)),
{
    let mut e = hi;
    while e > lo && cs[e - 1] == '\r'
        invariant
            lo <= e <= hi <= cs@.len(),
            strip_cr(cs@.subrange(lo as int, hi as int)) == strip_cr(cs@.subrange(lo as int, e as int)),
        decreases e,
    {
        proof {
            assert(cs@.subrange(lo as int, e as int - 1) =~= cs@.subrange(lo as int, e as int).drop_last());
        }
        e = e - 1;
    }
    let mut out = String::new();
    let mut i = lo;
    while i < e
        invariant
            lo <= i <= e <= cs@.len(),
            out@ == cs@.subrange(lo as int, i as int),
        decreases e - i,
    {
        push_char(&mut out, cs[i]);
        proof {
            assert(cs@.subrange(lo as int, i as int + 1) =~= cs@.subrange(lo as int, i as int).push(cs@[i as int]));
        }
        i = i + 1;
    }
    out
}

/// Append a chunk of the byte stream to the line buffer, decoded as UTF-8
/// (invalid sequences become replacement characters).
pub fn push_chunk(buf: &mut String, bytes: &[u8])
    ensures
        final(buf)@ == old(buf)@ + utf8_lossy(bytes@),
        valid_utf8(bytes@) ==> final(buf)@ == old(buf)@ + decode_utf8(bytes@),
{
    let text = decode_lossy(bytes);
    buf.append(text.as_str());
}

/// Take the next complete non-empty line out of the buffer. Empty lines are
/// skipped; when no complete non-empty line is buffered, `None` is returned
/// and the buffer keeps the incomplete rest.
pub fn take_line(buf: &mut String) -> (r: Option<String>)
    ensures
        opt_view(r) == next_line(old(buf)@).0,
        final(buf)@ == next_line(old(buf)@).1,
{
    let cs = chars_of(buf.as_str());
    let n = cs.len();
    let mut start: usize = 0;
    proof {
        assert(cs@.subrange(0, n as int) =~= cs@);
    }
    loop
        invariant
            start <= n,
            n == cs@.len(),
            cs@ == old(buf)@,
            next_line(old(buf)@) == next_line(cs@.subrange(start as int, n as int)),
        decreases n - start,
    {
        let ghost cur = cs@.subrange(start as int, n as int);
        let mut p = start;
        while p < n && cs[p] != '\n'
            invariant
                start <= p <= n,
                n == cs@.len(),
                forall|j: int| start <= j < p ==> cs@[j] != '\n',
            decreases n - p,
        {
            p = p + 1;
        }
        if p == n {
            proof {
                assert forall|j: int| 0 <= j < cur.len() implies cur[j] != '\n' by {
                    assert(cur[j] == cs@[start + j]);
                }
                lemma_newline_pos_none(cur);
            }
            let rest = chars_range(&cs, start, n);
            *buf = rest;
            return None;
        }
        proof {
            assert forall|j: int| 0 <= j < p - start implies cur[j] != '\n' by {
                assert(cur[j] == cs@[start + j]);
            }
            assert(cur[p - start] == cs@[p as int]);
            lemma_newline_pos_at(cur, p - start);
            assert(cur.subrange(0, p - start) =~= cs@.subrange(start as int, p as int));
            assert(cur.subrange(p - start + 1, cur.len() as int) =~= cs@.subrange(p + 1, n as int));
        }
        let line = strip_cr_chars(&cs, start, p);
        if !line.as_str().is_empty() {
            proof {
                assert(line@.len() > 0);
            }
            let rest = chars_range(&cs, p + 1, n);
            *buf = rest;
            return Some(line);
        }
        proof {
            assert(line@.len() == 0);
        }
        start = p + 1;
    }
}

/// At the end of the stream, the rest of the buffer when it is not blank,
/// trimmed.
pub open spec fn final_line(buf: Seq<char>) -> Option<Seq<char>> {
    if trim_spec(buf).len() == 0 {
        None
    } else {
        Some(trim_spec(buf))
    }
}

/// Flush the buffer at the end of the stream: its trimmed rest, unless blank.
pub fn finish_lines(buf: &mut String) -> (r: Option<String>)
    ensures
        opt_view(r) == final_line(old(buf)@),
        final(buf)@ == Seq::<char>::empty(),
{
    let t = trim(buf.as_str());
    *buf = String::new();
    if t.as_str().is_empty() {
        proof {
            assert(t@.len() == 0);
        }
        None
    } else {
        proof {
            assert(t@.len() != 0);
        }
        Some(t)
    }
}

/// The payload of an event-stream line: what follows `data: `, unless it is
/// the `[DONE]` marker.
pub open spec fn sse_payload(line: Seq<char>) -> Option<Seq<char>> {
    if has_prefix(line, "data: "@) && line.subrange(6, line.len() as int) != "[DONE]"@ {
        Some(line.subrange(6, line.len() as int))
    } else {
        None
    }
}

/// The data payload carried by an event-stream line, if it carries one.
pub fn sse_data(line: &str) -> (r: Option<String>)
    ensures
        opt_view(r) == sse_payload(line@),
{
    proof {
        reveal_strlit("data: ");
    }
    if !str_starts_with(line, "data: ") {
        return None;
    }
    let cs = chars_of(line);
    let data = chars_range(&cs, 6, cs.len());
    if str_eq(data.as_str(), "[DONE]") {
        None
    } else {
        Some(data)
    }
}

// ---------------------------------------------------------------------------
// Results
// ---------------------------------------------------------------------------

/// Aggregated result of a non-streaming gateway call.
pub struct GatewayCallResult {
    pub content: String,
    pub tool_calls: Vec<ToolCall>,
    pub usage: Usage,
    pub finish_reason: String,
    pub model: String,
    /// Reasoning content from the model, where it produced any.
    pub thinking: Option<String>,
}

/// The first choice of a completion answer, as far as the result needs it.
pub struct FirstChoice {
    pub content: Option<String>,
    pub tool_calls: Option<Vec<ToolCall>>,
    pub finish_reason: String,
    pub thinking: Option<String>,
}

/// Assemble the call result from the answer's first choice (if any), usage
/// and model: missing content and calls become empty, a missing choice
/// finishes with `stop`.
pub fn call_result(choice: Option<FirstChoice>, usage: Usage, model: String) -> (r: GatewayCallResult)
    ensures
        r.usage == usage,
        r.model@ == model@,
        match choice {
            Some(c) => {
                &&& r.content@ == (match c.content {
                    Some(t) => t@,
                    None => Seq::<char>::empty(),
                })
                &&& tool_calls_view(r.tool_calls@) == (match c.tool_calls {
                    Some(t) => tool_calls_view(t@),
                    None => Seq::<ToolCallView>::empty(),
                })
                &&& r.finish_reason@ == c.finish_reason@
                &&& opt_view(r.thinking) == opt_view(c.thinking)
            },
            None => {
                &&& r.content@ == Seq::<char>::empty()
                &&& r.tool_calls@.len() == 0
                &&& r.finish_reason@ == "stop"@
                &&& r.thinking is None
            },
        },
{
    match choice {
        Some(c) => {
            let content = match c.content {
                Some(t) => t,
                None => String::new(),
            };
            let tool_calls = match c.tool_calls {
                Some(t) => t,
                None => Vec::new(),
            };
            proof {
                assert(tool_calls_view(Seq::<ToolCall>::empty()) =~= Seq::<ToolCallView>::empty());
            }
            GatewayCallResult {
                content,
                tool_calls,
                usage,
                finish_reason: c.finish_reason,
                model,
                thinking: c.thinking,
            }
        },
        None => GatewayCallResult {
            content: String::new(),
            tool_calls: Vec::new(),
            usage,
            finish_reason: owned("stop"),
            model,
            thinking: None,
        },
    }
}

/// Result of a streaming gateway call: the chunk stream and the provider
/// named by the answer's headers.
pub struct GatewayStreamResult<S> {
    pub stream: S,
    pub provider: String,
}

} // verus!
