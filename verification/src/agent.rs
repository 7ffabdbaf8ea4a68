//! The chat agent: accumulation of a streamed model answer, the turns of the
//! agentic loop, secret redaction, knowledge-base packing and the wait for a
//! deposited secret. The caller performs the model calls, tool calls, sleeps
//! and storage; this module decides what happens with their results.

use vstd::prelude::*;
use vstd::string::*;

use crate::messages::{
    messages_view, opt_view, text_message, tool_calls_view, ChatMessage, ContentView,
    FunctionCall, FunctionCallView, MessageContent, MessageRole, MessageView, ToolCall,
    ToolCallView, ToolType, Usage,
};
use crate::context::{
    context_tokens, drop_orphaned_tool_messages, orphan_repair,
    prune_stale_tool_results, pruned, snip_compact, snip_result, stored_view, StoredMessage,
};
use crate::executor::{
    cuttable, tool_outcome_string, tool_outcome_text, tool_request_message, tool_result_message,
    truncate_tool_result, truncated_result, ToolOutcome,
};
use crate::gateway::{error_message, GatewayCallError, GatewayErrorView};
use crate::errors::{ApiError, ApiErrorView};
use crate::ids::{parse_uuid, uuid_value};
use crate::json::{json_member_str, json_member_string};
use crate::messages::{byte_len, content_text, tokens_of};
use crate::text::{
    decimal, decimal_string, has_substring, join, join_spec, owned, str_contains, str_eq,
    strings_view, take_chars, take_chars_spec, trim, trim_spec,
};

verus! {

// ─── Streamed answers ──────────────────────────────────────────────────────

/// One fragment of a tool call, as a streamed answer delivers it.
#[derive(Debug)]
pub struct ToolCallDelta {
    pub index: Option<u32>,
    pub id: String,
    pub name: String,
    pub arguments: String,
}

/// Abstract value of a [`ToolCallDelta`].
pub struct ToolCallDeltaView {
    pub index: Option<u32>,
    pub id: Seq<char>,
    pub name: Seq<char>,
    pub arguments: Seq<char>,
}

impl View for ToolCallDelta {
    type V = ToolCallDeltaView;

    open spec fn view(&self) -> ToolCallDeltaView {
        ToolCallDeltaView {
            index: self.index,
            id: self.id@,
            name: self.name@,
            arguments: self.arguments@,
        }
    }
}

/// The slot a fragment belongs to: its index, 0 when it has none.
pub open spec fn delta_key(d: ToolCallDeltaView) -> u32 {
    match d.index {
        Some(i) => i,
        None => 0,
    }
}

/// The slot of an accumulated tool call.
pub open spec fn call_key(c: ToolCallView) -> u32 {
    match c.index {
        Some(i) => i,
        None => 0,
    }
}

/// A tool call with nothing accumulated yet in slot `k`.
pub open spec fn fresh_call(k: u32) -> ToolCallView {
    ToolCallView {
        index: Some(k),
        id: Seq::empty(),
        tool_type: ToolType::Function,
        function: FunctionCallView { name: Seq::empty(), arguments: Seq::empty() },
    }
}

/// A tool call after one more fragment: a non-empty id replaces the id, the
/// name and argument pieces are appended.
pub open spec fn apply_delta(c: ToolCallView, d: ToolCallDeltaView) -> ToolCallView {
    ToolCallView {
        index: c.index,
        id: if d.id.len() == 0 {
            c.id
        } else {
            d.id
        },
        tool_type: c.tool_type,
        function: FunctionCallView {
            name: c.function.name + d.name,
            arguments: c.function.arguments + d.arguments,
        },
    }
}

/// Number of leading calls whose slot is below `k` in calls ordered by slot:
/// the position where slot `k` is or belongs.
pub open spec fn lower_bound(cs: Seq<ToolCallView>, k: u32) -> nat
    decreases cs.len(),
{
    if cs.len() == 0 {
        0
    } else if call_key(cs.last()) < k {
        cs.len()
    } else {
        lower_bound(cs.drop_last(), k)
    }
}

/// Calls in strictly increasing slot order: one call per slot.
pub open spec fn ordered_by_slot(cs: Seq<ToolCallView>) -> bool {
    forall|i: int, j: int| 0 <= i < j < cs.len() ==> call_key(cs[i]) < call_key(cs[j])
}

/// The calls after one more fragment: the call of its slot is extended, or a
/// new call is started in slot order.
pub open spec fn merge_delta(cs: Seq<ToolCallView>, d: ToolCallDeltaView) -> Seq<ToolCallView> {
    let k = delta_key(d);
    let p = lower_bound(cs, k) as int;
    if p < cs.len() && call_key(cs[p]) == k {
        cs.update(p, apply_delta(cs[p], d))
    } else {
        cs.insert(p, apply_delta(fresh_call(k), d))
    }
}

pub proof fn lemma_lower_bound(cs: Seq<ToolCallView>, k: u32)
    requires
        ordered_by_slot(cs),
    ensures
        lower_bound(cs, k) <= cs.len(),
        forall|i: int| 0 <= i < lower_bound(cs, k) ==> call_key(cs[i]) < k,
        forall|i: int| lower_bound(cs, k) <= i < cs.len() ==> call_key(cs[i]) >= k,
    decreases cs.len(),
{
    if cs.len() > 0 {
        if call_key(cs.last()) < k {
            assert forall|i: int| 0 <= i < cs.len() implies call_key(cs[i]) < k by {
                if i < cs.len() - 1 {
                    assert(call_key(cs[i]) < call_key(cs[cs.len() - 1]));
                }
            }
        } else {
            let d = cs.drop_last();
            assert(ordered_by_slot(d));
            lemma_lower_bound(d, k);
            assert forall|i: int| 0 <= i < lower_bound(cs, k) implies call_key(cs[i]) < k by {
                assert(cs[i] == d[i]);
            }
            assert forall|i: int| lower_bound(cs, k) <= i < cs.len() implies call_key(cs[i])
                >= k by {
                if i < cs.len() - 1 {
                    assert(cs[i] == d[i]);
                }
            }
        }
    }
}

fn call_slot(c: &ToolCall) -> (r: u32)
    ensures
        r == call_key(c@),
{
    match c.index {
        Some(i) => i,
        None => 0,
    }
}

fn extended_call(c: &ToolCall, d: &ToolCallDelta) -> (r: ToolCall)
    ensures
        r@ == apply_delta(c@, d@),
{
    let id = if d.id.as_str().is_empty() {
        c.id.clone()
    } else {
        d.id.clone()
    };
    let mut name = c.function.name.clone();
    name.append(d.name.as_str());
    let mut arguments = c.function.arguments.clone();
    arguments.append(d.arguments.as_str());
    ToolCall {
        index: c.index,
        id,
        tool_type: c.tool_type,
        function: FunctionCall { name, arguments },
    }
}

/// Everything accumulated from a streamed model answer.
pub struct StreamedResponse {
    pub content: String,
    pub thinking: String,
    pub tool_calls: Vec<ToolCall>,
    pub usage: Usage,
    pub finish_reason: String,
    pub model: String,
}

impl StreamedResponse {
    /// The accumulated tool calls are ordered by slot, one per slot.
    pub open spec fn wf(&self) -> bool {
        ordered_by_slot(tool_calls_view(self.tool_calls@))
    }

    /// Nothing received yet.
    pub fn new() -> (r: Self)
        ensures
            r.wf(),
            r.content@.len() == 0,
            r.thinking@.len() == 0,
            r.tool_calls@.len() == 0,
            r.usage == (Usage { prompt_tokens: 0, completion_tokens: 0, total_tokens: 0 }),
            r.finish_reason@.len() == 0,
            r.model@.len() == 0,
    {
        StreamedResponse {
            content: String::new(),
            thinking: String::new(),
            tool_calls: Vec::new(),
            usage: Usage { prompt_tokens: 0, completion_tokens: 0, total_tokens: 0 },
            finish_reason: String::new(),
            model: String::new(),
        }
    }

    /// A chunk named its model: the first non-empty name is kept.
    pub fn observe_model(&mut self, model: &str)
        ensures
            final(self).model@ == if old(self).model@.len() == 0 {
                model@
            } else {
                old(self).model@
            },
            final(self).content@ == old(self).content@,
            final(self).thinking@ == old(self).thinking@,
            final(self).tool_calls@ == old(self).tool_calls@,
            final(self).usage == old(self).usage,
            final(self).finish_reason@ == old(self).finish_reason@,
    {
        if self.model.as_str().is_empty() && !model.is_empty() {
            self.model = owned(model);
        }
    }

    /// A chunk reported usage: the last report counts.
    pub fn observe_usage(&mut self, usage: Usage)
        ensures
            final(self).usage == usage,
            final(self).model@ == old(self).model@,
            final(self).content@ == old(self).content@,
            final(self).thinking@ == old(self).thinking@,
            final(self).tool_calls@ == old(self).tool_calls@,
            final(self).finish_reason@ == old(self).finish_reason@,
    {
        self.usage = usage;
    }

    /// A choice reported why it finished: the last report counts.
    pub fn observe_finish(&mut self, reason: &str)
        ensures
            final(self).finish_reason@ == reason@,
            final(self).usage == old(self).usage,
            final(self).model@ == old(self).model@,
            final(self).content@ == old(self).content@,
            final(self).thinking@ == old(self).thinking@,
            final(self).tool_calls@ == old(self).tool_calls@,
    {
        self.finish_reason = owned(reason);
    }

    /// A piece of answer text arrived. Returns whether it is to be forwarded
    /// to the client, which is when it is not empty.
    pub fn push_content(&mut self, text: &str) -> (forward: bool)
        ensures
            forward == (text@.len() > 0),
            final(self).content@ == old(self).content@ + text@,
            final(self).thinking@ == old(self).thinking@,
            final(self).tool_calls@ == old(self).tool_calls@,
            final(self).usage == old(self).usage,
            final(self).finish_reason@ == old(self).finish_reason@,
            final(self).model@ == old(self).model@,
    {
        self.content.append(text);
        !text.is_empty()
    }

    /// A piece of reasoning arrived (from either of the two fields that
    /// carry it).
    pub fn push_thinking(&mut self, text: &str)
        ensures
            final(self).thinking@ == old(self).thinking@ + text@,
            final(self).content@ == old(self).content@,
            final(self).tool_calls@ == old(self).tool_calls@,
            final(self).usage == old(self).usage,
            final(self).finish_reason@ == old(self).finish_reason@,
            final(self).model@ == old(self).model@,
    {
        self.thinking.append(text);
    }

    /// A tool-call fragment arrived: it extends the call of its slot, or
    /// starts that call.
    #[verifier::spinoff_prover]
    #[verifier::rlimit(50)]
    pub fn push_tool_delta(&mut self, d: &ToolCallDelta)
        requires
            old(self).wf(),
        ensures
            final(self).wf(),
            tool_calls_view(final(self).tool_calls@) == merge_delta(
                tool_calls_view(old(self).tool_calls@),
                d@,
            ),
            final(self).content@ == old(self).content@,
            final(self).thinking@ == old(self).thinking@,
            final(self).usage == old(self).usage,
            final(self).finish_reason@ == old(self).finish_reason@,
            final(self).model@ == old(self).model@,
    {
        let ghost cs = tool_calls_view(self.tool_calls@);
        let k: u32 = match d.index {
            Some(i) => i,
            None => 0,
        };
        proof {
            lemma_lower_bound(cs, k);
        }
        let n = self.tool_calls.len();
        let mut p: usize = n;
        proof {
            assert(cs.subrange(0, n as int) =~= cs);
        }
        loop
            invariant
                p <= n,
                n == self.tool_calls@.len(),
                cs == tool_calls_view(self.tool_calls@),
                lower_bound(cs, k) == lower_bound(cs.subrange(0, p as int), k),
            ensures
                p <= n,
                lower_bound(cs, k) == p,
            decreases p,
        {
            if p == 0 {
                proof {
                    assert(cs.subrange(0, 0).len() == 0);
                }
                break;
            }
            let c = call_slot(&self.tool_calls[p - 1]);
            let ghost sub = cs.subrange(0, p as int);
            proof {
                assert(sub.last() == cs[p - 1]);
            }
            if c < k {
                break;
            }
            proof {
                assert(sub.drop_last() =~= cs.subrange(0, p - 1));
            }
            p = p - 1;
        }
        if p < n && call_slot(&self.tool_calls[p]) == k {
            let updated = extended_call(&self.tool_calls[p], d);
            self.tool_calls.set(p, updated);
            proof {
                assert(tool_calls_view(self.tool_calls@) =~= cs.update(p as int, updated@));
                assert forall|i: int, j: int|
                    0 <= i < j < self.tool_calls@.len() implies call_key(
                    tool_calls_view(self.tool_calls@)[i],
                ) < call_key(tool_calls_view(self.tool_calls@)[j]) by {
                    assert(call_key(cs[i]) < call_key(cs[j]));
                }
            }
        } else {
            let fresh = ToolCall {
                index: Some(k),
                id: String::new(),
                tool_type: ToolType::Function,
                function: FunctionCall { name: String::new(), arguments: String::new() },
            };
            let created = extended_call(&fresh, d);
            proof {
                assert(fresh@ == fresh_call(k));
            }
            self.tool_calls.insert(p, created);
            proof {
                let nv = tool_calls_view(self.tool_calls@);
                assert(nv =~= cs.insert(p as int, created@));
                assert forall|i: int, j: int| 0 <= i < j < nv.len() implies call_key(nv[i])
                    < call_key(nv[j]) by {
                    if j < p {
                        assert(call_key(cs[i]) < call_key(cs[j]));
                    } else if j == p {
                        assert(call_key(cs[i]) < k);
                    } else if i < p {
                        assert(call_key(cs[i]) < k);
                        assert(call_key(cs[j - 1]) >= k);
                    } else if i == p {
                        assert(call_key(cs[j - 1]) >= k);
                        if j - 1 > p {
                            assert(call_key(cs[p as int]) < call_key(cs[j - 1]));
                        }
                        assert(call_key(cs[p as int]) != k);
                    } else {
                        assert(call_key(cs[i - 1]) < call_key(cs[j - 1]));
                    }
                }
            }
        }
    }
}


// ─── The agentic loop ──────────────────────────────────────────────────────

/// Turns the agent may take for one user message.
pub const MAX_AGENT_TURNS: usize = 20;

/// Number of recent user turns whose tool results are kept verbatim.
pub const TOOL_FRESHNESS_TURNS: usize = 3;

/// Turns kept whole when old turns are dropped to fit the token budget.
pub const KEEP_RECENT_TURNS: usize = 3;

/// The system message that tells the model its tool turns are running out.
pub open spec fn low_turns_warning() -> Seq<char> {
    "You have 2 tool turns remaining. Summarize your findings and answer the user's question now. Do not start new investigations."@
}

/// The message that carries the user's new input.
pub open spec fn user_message_view(content: ContentView) -> MessageView {
    MessageView {
        role: MessageRole::User,
        content: Some(content),
        name: None,
        tool_calls: None,
        tool_call_id: None,
        reasoning_content: None,
    }
}

/// The reasoning of an answer as it is stored: none when it is empty.
pub open spec fn reasoning_of(thinking: Seq<char>) -> Option<Seq<char>> {
    if thinking.len() == 0 {
        None
    } else {
        Some(thinking)
    }
}

/// A status and an explanation sent to the client when a turn ends early.
#[derive(Debug)]
pub struct ChatNotice {
    pub status: String,
    pub text: String,
}

/// How a failed model call ends the loop: with a notice to the client, or
/// as a failure of the whole loop.
#[derive(Debug)]
pub enum TurnFailure {
    Notice(ChatNotice),
    Fatal(String),
}

/// The status and text answered for a model-call error, when the error is one
/// that the user is told about.
pub open spec fn failure_notice(e: GatewayErrorView) -> Option<(Seq<char>, Seq<char>)> {
    match e {
        GatewayErrorView::ContextTooLong => Some(
            (
                "context_too_long"@,
                "The conversation has grown too long for the model. Please start a new conversation."@,
            ),
        ),
        GatewayErrorView::RateLimited { .. } => Some(
            (
                "rate_limited"@,
                "The AI service is temporarily rate limited. Please try again shortly."@,
            ),
        ),
        GatewayErrorView::PaymentRequired { .. } => Some(
            (
                "payment_required"@,
                "Your organization needs a payment method or credits to use this feature. Please add a payment method in **Settings \u{2192} Billing** to continue."@,
            ),
        ),
        GatewayErrorView::ProviderBillingError { message } => Some(
            (
                "provider_billing_error"@,
                "The AI provider returned a billing error: "@ + message
                    + ". Please check your provider account balance or switch to a different integration in **Settings \u{2192} LLM Gateway**."@,
            ),
        ),
        _ => None,
    }
}

/// The failure text of a model-call error that ends the loop.
pub open spec fn fatal_text(e: GatewayErrorView) -> Seq<char> {
    "Gateway stream failed: "@ + error_message(e)
}

fn notice(status: &str, text: String) -> (r: ChatNotice)
    ensures
        r.status@ == status@,
        r.text@ == text@,
{
    ChatNotice { status: owned(status), text }
}

/// What the loop answers when the model call of a turn failed.
pub fn gateway_failure(err: &GatewayCallError) -> (r: TurnFailure)
    ensures
        match r {
            TurnFailure::Notice(n) => failure_notice(err@) == Some((n.status@, n.text@)),
            TurnFailure::Fatal(m) => failure_notice(err@) is None && m@ == fatal_text(err@),
        },
{
    match err {
        GatewayCallError::ContextTooLong => TurnFailure::Notice(
            notice(
                "context_too_long",
                owned(
                    "The conversation has grown too long for the model. Please start a new conversation.",
                ),
            ),
        ),
        GatewayCallError::RateLimited { .. } => TurnFailure::Notice(
            notice(
                "rate_limited",
                owned("The AI service is temporarily rate limited. Please try again shortly."),
            ),
        ),
        GatewayCallError::PaymentRequired { .. } => TurnFailure::Notice(
            notice(
                "payment_required",
                owned(
                    "Your organization needs a payment method or credits to use this feature. Please add a payment method in **Settings \u{2192} Billing** to continue.",
                ),
            ),
        ),
        GatewayCallError::ProviderBillingError { message } => {
            let mut t = owned("The AI provider returned a billing error: ");
            t.append(message.as_str());
            t.append(
                ". Please check your provider account balance or switch to a different integration in **Settings \u{2192} LLM Gateway**.",
            );
            TurnFailure::Notice(notice("provider_billing_error", t))
        },
        _ => {
            let mut t = owned("Gateway stream failed: ");
            t.append(err.to_string().as_str());
            TurnFailure::Fatal(t)
        },
    }
}

/// The notice sent when every turn was used without a final answer.
pub open spec fn max_turns_text() -> Seq<char> {
    "I've reached the maximum number of tool calls for this turn. Please continue with a new message."@
}

/// The notice sent when every turn was used without a final answer.
pub fn max_turns_notice() -> (r: ChatNotice)
    ensures
        r.status@ == "max_turns"@,
        r.text@ == max_turns_text(),
{
    notice(
        "max_turns",
        owned(
            "I've reached the maximum number of tool calls for this turn. Please continue with a new message.",
        ),
    )
}

/// State of one run of the chat agent between its steps.
pub struct AgentChat {
    pub messages: Vec<ChatMessage>,
    /// Turns started so far.
    pub turn: usize,
    pub total_input_tokens: u64,
    pub total_output_tokens: u64,
    pub last_model: String,
    pub last_provider: String,
}

impl AgentChat {
    /// Start from the stored history (tool results of old turns replaced by
    /// a notice, orphaned tool messages repaired) and the user's new input.
    pub fn new(history: &[StoredMessage], user_content: MessageContent) -> (r: Self)
        ensures
            messages_view(r.messages@) == orphan_repair(
                pruned(stored_view(history@), TOOL_FRESHNESS_TURNS as nat),
            ).push(user_message_view(user_content@)),
            r.turn == 0,
            r.total_input_tokens == 0,
            r.total_output_tokens == 0,
            r.last_model@.len() == 0,
            r.last_provider@.len() == 0,
    {
        let mut messages = prune_stale_tool_results(history, TOOL_FRESHNESS_TURNS);
        drop_orphaned_tool_messages(&mut messages);
        let ghost before = messages@;
        let m = ChatMessage {
            role: MessageRole::User,
            content: Some(user_content),
            name: None,
            tool_calls: None,
            tool_call_id: None,
            reasoning_content: None,
        };
        messages.push(m);
        proof {
            assert(messages_view(messages@) =~= messages_view(before).push(m@));
        }
        AgentChat {
            messages,
            turn: 0,
            total_input_tokens: 0,
            total_output_tokens: 0,
            last_model: String::new(),
            last_provider: String::new(),
        }
    }

    /// Start a turn. `None` when every turn has been used. Otherwise the
    /// oldest turns are dropped to fit `token_budget` (the last three are
    /// kept), and the answer says whether the context still exceeds the
    /// budget, so that the dropped turns are to be summarized.
    pub fn begin_turn(&mut self, token_budget: u32) -> (r: Option<bool>)
        requires
            context_tokens(messages_view(old(self).messages@)) <= u32::MAX,
        ensures
            r is None <==> old(self).turn >= MAX_AGENT_TURNS,
            r is None ==> messages_view(final(self).messages@) == messages_view(
                old(self).messages@,
            ) && final(self).turn == old(self).turn,
            r matches Some(over) ==> {
                let sr = snip_result(
                    messages_view(old(self).messages@),
                    token_budget as nat,
                    KEEP_RECENT_TURNS as nat,
                );
                &&& messages_view(final(self).messages@) == sr.0
                &&& over == (sr.1 > token_budget)
                &&& final(self).turn == old(self).turn + 1
            },
            final(self).total_input_tokens == old(self).total_input_tokens,
            final(self).total_output_tokens == old(self).total_output_tokens,
            final(self).last_model@ == old(self).last_model@,
            final(self).last_provider@ == old(self).last_provider@,
    {
        if self.turn >= MAX_AGENT_TURNS {
            return None;
        }
        self.turn = self.turn + 1;
        let estimate = snip_compact(&mut self.messages, token_budget, KEEP_RECENT_TURNS);
        Some(estimate > token_budget)
    }

    /// Before the model is called: when this is the second-to-last turn, the
    /// model is told to conclude.
    pub fn add_turn_warning(&mut self)
        ensures
            messages_view(final(self).messages@) == if old(self).turn == MAX_AGENT_TURNS - 1 {
                messages_view(old(self).messages@).push(
                    text_message(MessageRole::System, low_turns_warning()),
                )
            } else {
                messages_view(old(self).messages@)
            },
            final(self).turn == old(self).turn,
            final(self).total_input_tokens == old(self).total_input_tokens,
            final(self).total_output_tokens == old(self).total_output_tokens,
            final(self).last_model@ == old(self).last_model@,
            final(self).last_provider@ == old(self).last_provider@,
    {
        if self.turn == MAX_AGENT_TURNS - 1 {
            let ghost before = self.messages@;
            let m = ChatMessage::text(
                MessageRole::System,
                owned(
                    "You have 2 tool turns remaining. Summarize your findings and answer the user's question now. Do not start new investigations.",
                ),
            );
            self.messages.push(m);
            proof {
                assert(messages_view(self.messages@) =~= messages_view(before).push(m@));
            }
        }
    }

    /// The model call succeeded through `provider` and its answer was
    /// streamed. Usage is counted, a named model and provider are
    /// remembered, and an answer that asks for tools joins the context.
    /// Returns whether tools are to be called (otherwise the answer is final).
    pub fn accept_reply(&mut self, reply: &StreamedResponse, provider: &str) -> (tools: bool)
        requires
            old(self).total_input_tokens + reply.usage.prompt_tokens <= u64::MAX,
            old(self).total_output_tokens + reply.usage.completion_tokens <= u64::MAX,
        ensures
            tools == (reply.tool_calls@.len() > 0),
            messages_view(final(self).messages@) == if tools {
                messages_view(old(self).messages@).push(
                    tool_request_message(
                        reply.content@,
                        reasoning_of(reply.thinking@),
                        tool_calls_view(reply.tool_calls@),
                    ),
                )
            } else {
                messages_view(old(self).messages@)
            },
            final(self).total_input_tokens == old(self).total_input_tokens
                + reply.usage.prompt_tokens,
            final(self).total_output_tokens == old(self).total_output_tokens
                + reply.usage.completion_tokens,
            final(self).last_model@ == if reply.model@.len() == 0 {
                old(self).last_model@
            } else {
                reply.model@
            },
            final(self).last_provider@ == if provider@.len() == 0 {
                old(self).last_provider@
            } else {
                provider@
            },
            final(self).turn == old(self).turn,
    {
        if !provider.is_empty() {
            self.last_provider = owned(provider);
        }
        self.total_input_tokens = self.total_input_tokens + reply.usage.prompt_tokens as u64;
        self.total_output_tokens = self.total_output_tokens + reply.usage.completion_tokens as u64;
        if !reply.model.as_str().is_empty() {
            self.last_model = reply.model.clone();
        }
        if reply.tool_calls.len() == 0 {
            return false;
        }
        let ghost before = self.messages@;
        let content = if reply.content.as_str().is_empty() {
            None
        } else {
            Some(MessageContent::Text(reply.content.clone()))
        };
        let reasoning = if reply.thinking.as_str().is_empty() {
            None
        } else {
            Some(reply.thinking.clone())
        };
        let m = ChatMessage {
            role: MessageRole::Assistant,
            content,
            name: None,
            tool_calls: Some(crate::messages::clone_tool_calls(&reply.tool_calls)),
            tool_call_id: None,
            reasoning_content: reasoning,
        };
        self.messages.push(m);
        proof {
            assert(messages_view(self.messages@) =~= messages_view(before).push(m@));
        }
        true
    }

    /// The result of the tool call `call_id`: its text, cut to 8 KiB, joins
    /// the context as the tool message answering the call, and is returned
    /// to be shown and stored.
    pub fn push_tool_result(&mut self, call_id: &str, outcome: ToolOutcome) -> (r: String)
        requires
            cuttable(tool_outcome_text(outcome)),
        ensures
            r@ == truncated_result(tool_outcome_text(outcome)),
            messages_view(final(self).messages@) == messages_view(old(self).messages@).push(
                tool_result_message(call_id@, r@),
            ),
            final(self).turn == old(self).turn,
            final(self).total_input_tokens == old(self).total_input_tokens,
            final(self).total_output_tokens == old(self).total_output_tokens,
            final(self).last_model@ == old(self).last_model@,
            final(self).last_provider@ == old(self).last_provider@,
    {
        let raw = tool_outcome_string(outcome);
        let text = truncate_tool_result(raw.as_str());
        let ghost before = self.messages@;
        let m = ChatMessage {
            role: MessageRole::Tool,
            content: Some(MessageContent::Text(text.clone())),
            name: None,
            tool_calls: None,
            tool_call_id: Some(owned(call_id)),
            reasoning_content: None,
        };
        self.messages.push(m);
        proof {
            assert(messages_view(self.messages@) =~= messages_view(before).push(m@));
        }
        text
    }
}


// ─── The request ───────────────────────────────────────────────────────────

/// Largest user message accepted, in UTF-8 bytes.
pub const MAX_MESSAGE_BYTES: usize = 32_768;

/// Characters of the first message that title a new conversation.
pub const TITLE_CHARS: usize = 80;

/// The refusal of a message of `n` bytes.
pub open spec fn too_long_text(n: nat) -> Seq<char> {
    "Message too long ("@ + decimal(n) + " bytes, max 32768)"@
}

/// Refuse a user message longer than [`MAX_MESSAGE_BYTES`].
pub fn check_message_size(message: &str) -> (r: Result<(), ApiError>)
    ensures
        r is Ok <==> byte_len(message@) <= MAX_MESSAGE_BYTES,
        r matches Err(e) ==> e@ == ApiErrorView::Validation(
            too_long_text(byte_len(message@) as nat),
        ),
{
    let n = message.len();
    if n > MAX_MESSAGE_BYTES {
        let mut t = owned("Message too long (");
        t.append(decimal_string(n as u64).as_str());
        t.append(" bytes, max 32768)");
        return Err(ApiError::Validation(t));
    }
    Ok(())
}

/// The title of a conversation that starts with `message`: its first 80
/// characters.
pub fn conversation_title(message: &str) -> (r: String)
    ensures
        r@ == take_chars_spec(message@, TITLE_CHARS as nat),
{
    take_chars(message, TITLE_CHARS)
}

/// The text sent first when a secret was redacted from the user's message.
pub open spec fn redaction_notice_text() -> Seq<char> {
    "\u{26a0}\u{fe0f} I detected what looks like a secret in your message and redacted it for security. Please use the secure deposit link instead \u{2014} I can create one for you.\n\n"@
}

/// The text sent first when a secret was redacted from the user's message.
pub fn redaction_notice() -> (r: String)
    ensures
        r@ == redaction_notice_text(),
{
    owned(
        "\u{26a0}\u{fe0f} I detected what looks like a secret in your message and redacted it for security. Please use the secure deposit link instead \u{2014} I can create one for you.\n\n",
    )
}

// ─── Knowledge-base context ────────────────────────────────────────────────

/// Token budget of the knowledge-base context.
pub const KB_TOKEN_BUDGET: usize = 8000;

/// A knowledge-base chunk found for the user's message, best match first.
/// `relevant` says whether its similarity reaches the threshold.
#[derive(Debug)]
pub struct KbChunk {
    pub title: String,
    pub category: String,
    pub content: String,
    pub relevant: bool,
}

/// Abstract value of a [`KbChunk`].
pub struct KbChunkView {
    pub title: Seq<char>,
    pub category: Seq<char>,
    pub content: Seq<char>,
    pub relevant: bool,
}

impl View for KbChunk {
    type V = KbChunkView;

    open spec fn view(&self) -> KbChunkView {
        KbChunkView {
            title: self.title@,
            category: self.category@,
            content: self.content@,
            relevant: self.relevant,
        }
    }
}

/// Views of a list of chunks.
pub open spec fn chunks_view(cs: Seq<KbChunk>) -> Seq<KbChunkView> {
    cs.map_values(|c: KbChunk| c@)
}

/// The entry of one chunk in the context.
pub open spec fn kb_entry(c: KbChunkView) -> Seq<char> {
    "**"@ + c.title + "** ("@ + c.category + "):\n"@ + c.content
}

/// The entries taken from `rows`, after `taken` entries costing `used`
/// tokens: chunks are taken in order until one is not relevant or one would
/// exceed the budget (the first one is always taken).
pub open spec fn kb_pack(rows: Seq<KbChunkView>, used: nat, taken: Seq<Seq<char>>) -> Seq<
    Seq<char>,
>
    decreases rows.len(),
{
    if rows.len() == 0 || !rows[0].relevant {
        taken
    } else {
        let e = kb_entry(rows[0]);
        let t = tokens_of(e) as nat;
        if used + t > KB_TOKEN_BUDGET && taken.len() > 0 {
            taken
        } else {
            kb_pack(rows.drop_first(), used + t, taken.push(e))
        }
    }
}

/// Tokens of a list of entries.
pub open spec fn entries_tokens(es: Seq<Seq<char>>) -> nat
    decreases es.len(),
{
    if es.len() == 0 {
        0
    } else {
        entries_tokens(es.drop_last()) + tokens_of(es.last()) as nat
    }
}

proof fn lemma_kb_pack_budget(rows: Seq<KbChunkView>, used: nat, taken: Seq<Seq<char>>)
    requires
        used == entries_tokens(taken),
        taken.len() <= 1 || used <= KB_TOKEN_BUDGET,
    ensures
        kb_pack(rows, used, taken).len() <= 1 || entries_tokens(kb_pack(rows, used, taken))
            <= KB_TOKEN_BUDGET,
    decreases rows.len(),
{
    if rows.len() > 0 && rows[0].relevant {
        let e = kb_entry(rows[0]);
        let t = tokens_of(e) as nat;
        if !(used + t > KB_TOKEN_BUDGET && taken.len() > 0) {
            assert(taken.push(e).drop_last() =~= taken);
            lemma_kb_pack_budget(rows.drop_first(), used + t, taken.push(e));
        }
    }
}

/// The knowledge-base context stays within its token budget, unless it is
/// a single entry that alone exceeds it.
pub proof fn lemma_kb_within_budget(rows: Seq<KbChunkView>)
    ensures
        kb_pack(rows, 0, Seq::empty()).len() <= 1 || entries_tokens(kb_pack(rows, 0, Seq::empty()))
            <= KB_TOKEN_BUDGET,
{
    lemma_kb_pack_budget(rows, 0, Seq::empty());
}

fn kb_entry_string(c: &KbChunk) -> (r: String)
    ensures
        r@ == kb_entry(c@),
{
    let mut e = owned("**");
    e.append(c.title.as_str());
    e.append("** (");
    e.append(c.category.as_str());
    e.append("):\n");
    e.append(c.content.as_str());
    e
}

/// The knowledge-base context: the entries taken, separated by rules.
pub fn kb_context(rows: &Vec<KbChunk>) -> (r: String)
    ensures
        r@ == join_spec(kb_pack(chunks_view(rows@), 0, Seq::empty()), "\n\n---\n\n"@),
{
    let ghost all = chunks_view(rows@);
    let mut parts: Vec<String> = Vec::new();
    let mut used: usize = 0;
    let mut i: usize = 0;
    proof {
        assert(all.subrange(0, all.len() as int) =~= all);
        assert(strings_view(parts@) =~= Seq::<Seq<char>>::empty());
    }
    while i < rows.len()
        invariant_except_break
            i <= rows.len(),
            all == chunks_view(rows@),
            used <= KB_TOKEN_BUDGET || parts@.len() == 1,
            parts@.len() == 0 ==> used == 0,
            kb_pack(all, 0, Seq::empty()) == kb_pack(
                all.subrange(i as int, all.len() as int),
                used as nat,
                strings_view(parts@),
            ),
        ensures
            kb_pack(all, 0, Seq::empty()) == strings_view(parts@),
        decreases rows.len() - i,
    {
        let ghost rest = all.subrange(i as int, all.len() as int);
        proof {
            assert(rest[0] == rows@[i as int]@);
            assert(rest.drop_first() =~= all.subrange(i as int + 1, all.len() as int));
        }
        if !rows[i].relevant {
            break;
        }
        let e = kb_entry_string(&rows[i]);
        let t = crate::messages::estimate_tokens(e.as_str());
        proof {
            assert(t == tokens_of(e@));
        }
        if parts.len() > 0 && (used > KB_TOKEN_BUDGET || t > KB_TOKEN_BUDGET - used) {
            break;
        }
        let ghost before = parts@;
        used = used + t;
        parts.push(e);
        proof {
            assert(strings_view(parts@) =~= strings_view(before).push(e@));
        }
        i = i + 1;
    }
    proof {
        if i == rows.len() {
            assert(all.subrange(i as int, all.len() as int).len() == 0);
        }
    }
    join(&parts, "\n\n---\n\n")
}

// ─── Secret redaction ──────────────────────────────────────────────────────

/// `regex::Regex`, carried opaquely.
#[verifier::external_type_specification]
#[verifier::external_body]
pub struct ExRegex(regex::Regex);

/// Whether the regular expression `pattern` matches somewhere in `text`, as
/// `regex::Regex::is_match` decides it.
pub uninterp spec fn regex_finds(pattern: Seq<char>, text: Seq<char>) -> bool;

/// `text` with every non-overlapping match of `pattern` replaced by
/// `replacement`, as `regex::Regex::replace_all` computes it.
pub uninterp spec fn regex_replaced(
    pattern: Seq<char>,
    text: Seq<char>,
    replacement: Seq<char>,
) -> Seq<char>;

/// The credential shapes that are redacted: OpenAI, Anthropic, Stripe and
/// GitHub keys, AWS access key ids and Slack tokens.
pub open spec fn secret_pattern() -> Seq<char> {
    "(?:sk-proj-[A-Za-z0-9_\\-]{20,}|sk-[A-Za-z0-9]{20,}|sk-ant-[A-Za-z0-9_\\-]{20,}|sk_live_[A-Za-z0-9]{20,}|sk_test_[A-Za-z0-9]{20,}|gh[pousr]_[A-Za-z0-9_]{20,}|AKIA[A-Z0-9]{16}|xox[bpras]-[A-Za-z0-9\\-]{20,})"@
}

/// A compiled regular expression together with its source text. Its fields
/// are private: the only constructor compiles `re` from `pattern`.
pub struct SecretScrubber {
    pattern: String,
    re: regex::Regex,
}

impl View for SecretScrubber {
    type V = Seq<char>;

    /// The source text of the expression.
    closed spec fn view(&self) -> Seq<char> {
        self.pattern@
    }
}

/// Whether `regex::Regex::new` accepts `pattern` as a regular expression.
pub uninterp spec fn regex_compiles(pattern: Seq<char>) -> bool;

/// `regex::Regex::new`: the compiled expression, or `None` when the text is
/// not a valid expression. Whether it is valid is named, not described, and
/// nothing is stated of the value compiled.
#[verifier::external_body]
fn compile_regex(pattern: &str) -> (r: Option<regex::Regex>)
    ensures
        r is Some <==> regex_compiles(pattern@),
{
    regex::Regex::new(pattern).ok()
}

/// `regex::Regex::is_match` on the expression that the scrubber compiled
/// from its source text; the result is named by that text.
#[verifier::external_body]
fn scrubber_finds(s: &SecretScrubber, text: &str) -> (r: bool)
    ensures
        r == regex_finds(s@, text@),
{
    s.re.is_match(text)
}

/// `regex::Regex::replace_all` with a literal replacement, on the expression
/// that the scrubber compiled from its source text. The crate documents that
/// a text without a match is returned unchanged.
#[verifier::external_body]
fn scrubber_replace_all(s: &SecretScrubber, text: &str, replacement: &str) -> (r: String)
    ensures
        r@ == regex_replaced(s@, text@, replacement@),
        !regex_finds(s@, text@) ==> r@ == text@,
{
    s.re.replace_all(text, replacement).into_owned()
}

impl SecretScrubber {
    /// The scrubber of [`secret_pattern`], or `None` if it does not compile.
    pub fn new() -> (r: Option<Self>)
        ensures
            r is Some <==> regex_compiles(secret_pattern()),
            r matches Some(s) ==> s@ == secret_pattern(),
    {
        let pattern = owned(
            "(?:sk-proj-[A-Za-z0-9_\\-]{20,}|sk-[A-Za-z0-9]{20,}|sk-ant-[A-Za-z0-9_\\-]{20,}|sk_live_[A-Za-z0-9]{20,}|sk_test_[A-Za-z0-9]{20,}|gh[pousr]_[A-Za-z0-9_]{20,}|AKIA[A-Z0-9]{16}|xox[bpras]-[A-Za-z0-9\\-]{20,})",
        );
        match compile_regex(pattern.as_str()) {
            Some(re) => Some(SecretScrubber { pattern, re }),
            None => None,
        }
    }
}

/// Redact the matches of the scrubber's expression from `text`. Returns the
/// text (unchanged when nothing matched) and whether anything was redacted.
pub fn scrub_secrets(scrubber: &SecretScrubber, text: &str) -> (r: (String, bool))
    ensures
        r.1 == regex_finds(scrubber@, text@),
        r.0@ == if r.1 {
            regex_replaced(scrubber@, text@, "[REDACTED]"@)
        } else {
            text@
        },
{
    if !scrubber_finds(scrubber, text) {
        return (owned(text), false);
    }
    (scrubber_replace_all(scrubber, text, "[REDACTED]"), true)
}

// ─── Waiting for a deposited secret ────────────────────────────────────────

/// Polls made while waiting for a secret slot to be filled.
pub const SLOT_POLL_ATTEMPTS: u32 = 60;

/// Seconds between two polls.
pub const SLOT_POLL_INTERVAL_SECS: u64 = 2;

/// The tool whose result makes the agent wait for a deposited secret.
pub open spec fn slot_tool_name() -> Seq<char> {
    "create_secret_slot"@
}

/// The slot to wait for after a tool call: only after `create_secret_slot`,
/// and only when its result names a `slot_id` that is a UUID.
pub fn slot_to_watch(tool_name: &str, result_text: &str) -> (r: Option<u128>)
    ensures
        r == (if tool_name@ == slot_tool_name() {
            match json_member_str(result_text@, "slot_id"@) {
                Some(t) => uuid_value(t),
                None => None,
            }
        } else {
            None
        }),
{
    if !str_eq(tool_name, "create_secret_slot") {
        return None;
    }
    match json_member_string(result_text, "slot_id") {
        Some(t) => parse_uuid(t.as_str()),
        None => None,
    }
}

/// What to do after a poll of the slot.
#[derive(Debug, PartialEq, Eq, Structural)]
pub enum PollStep {
    /// Poll again after the interval; `announce` says whether to tell the
    /// client again that the agent is waiting.
    Continue { announce: bool },
    /// The secret was deposited.
    Deposited,
    /// Stop waiting: the poll failed or every poll was made.
    Abandoned,
}

/// The wait for a secret slot: how many polls were made.
pub struct SlotWait {
    pub attempt: u32,
}

impl SlotWait {
    /// No poll made yet.
    pub fn new() -> (r: Self)
        ensures
            r.attempt == 0,
    {
        SlotWait { attempt: 0 }
    }

    /// The result of a poll: filled or not, or `None` when the poll failed.
    pub fn observe(&mut self, poll: Option<bool>) -> (r: PollStep)
        requires
            old(self).attempt < SLOT_POLL_ATTEMPTS,
        ensures
            final(self).attempt == old(self).attempt + 1,
            r == match poll {
                Some(true) => PollStep::Deposited,
                None => PollStep::Abandoned,
                Some(false) => if old(self).attempt + 1 < SLOT_POLL_ATTEMPTS {
                    PollStep::Continue { announce: old(self).attempt % 7 == 6 }
                } else {
                    PollStep::Abandoned
                },
            },
            r is Continue ==> final(self).attempt < SLOT_POLL_ATTEMPTS,
    {
        let a = self.attempt;
        self.attempt = a + 1;
        match poll {
            Some(true) => PollStep::Deposited,
            None => PollStep::Abandoned,
            Some(false) => {
                if a + 1 < SLOT_POLL_ATTEMPTS {
                    PollStep::Continue { announce: a % 7 == 6 }
                } else {
                    PollStep::Abandoned
                }
            },
        }
    }
}

} // verus!
