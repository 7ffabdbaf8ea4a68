//! The tool loop of the headless agent: model call, tool calls, results, and
//! the outcome that ends the loop.

use vstd::prelude::*;
use vstd::string::*;
use vstd::utf8::{decode_utf8, encode_utf8, encode_utf8_decode_utf8};

use crate::context::{snip_compact, snip_result, context_tokens};
use crate::gateway::{error_message, GatewayCallError, GatewayErrorView, GatewayCallResult};
use crate::json::{json_member_str, json_member_string};
use crate::messages::{
    messages_view, opt_view, text_message, tool_calls_view, ChatMessage, MessageContent,
    MessageRole, MessageView, ContentView, ToolCall, ToolCallView,
};
use crate::text::{join, join_spec, owned, str_eq, strings_view, take_chars, take_chars_spec};

verus! {

/// Seconds a tool call may run before it is abandoned.
pub const TOOL_TIMEOUT_SECS: u64 = 30;

/// Byte length above which a tool result is cut.
pub const MAX_TOOL_RESULT_BYTES: usize = 8_192;

/// Characters of a tool result kept in the audit log.
pub const RESULT_PREVIEW_CHARS: usize = 200;

/// One item of content returned by a tool.
pub enum ToolContent {
    Text(String),
    /// Any non-text item (image, resource, ...).
    Other,
}

/// The texts of the text items, in order.
pub open spec fn tool_texts(items: Seq<ToolContent>) -> Seq<Seq<char>>
    decreases items.len(),
{
    if items.len() == 0 {
        Seq::empty()
    } else {
        let r = tool_texts(items.drop_last());
        match items.last() {
            ToolContent::Text(t) => r.push(t@),
            ToolContent::Other => r,
        }
    }
}

/// Extract plain text from tool content items: the text items joined by
/// line feeds.
pub fn extract_tool_text(content: &[ToolContent]) -> (r: String)
    ensures
        r@ == join_spec(tool_texts(content@), "\n"@),
{
    let mut texts: Vec<String> = Vec::new();
    let mut i: usize = 0;
    while i < content.len()
        invariant
            i <= content.len(),
            strings_view(texts@) == tool_texts(content@.subrange(0, i as int)),
        decreases content.len() - i,
    {
        proof {
            assert(content@.subrange(0, i as int + 1).drop_last() =~= content@.subrange(0, i as int));
        }
        match &content[i] {
            ToolContent::Text(t) => {
                let ghost before = texts@;
                texts.push(t.clone());
                proof {
                    assert(strings_view(texts@) =~= strings_view(before).push(t@));
                }
            },
            ToolContent::Other => {},
        }
        i = i + 1;
    }
    proof {
        assert(content@.subrange(0, content@.len() as int) =~= content@);
    }
    join(&texts, "\n")
}

/// The name shown for a tool call: for the `execute` facade, the `action`
/// member of its JSON arguments when that is a string; the tool's own name
/// otherwise.
pub open spec fn effective_tool_name(tool_name: Seq<char>, arguments: Seq<char>) -> Seq<char> {
    if tool_name == "execute"@ && json_member_str(arguments, "action"@) is Some {
        json_member_str(arguments, "action"@)->0
    } else {
        tool_name
    }
}

/// For facade tools like `execute`, the specific action name, so that the UI
/// can render specialised components; the tool name otherwise.
pub fn resolve_tool_name(tool_name: &str, arguments: &str) -> (r: String)
    ensures
        r@ == effective_tool_name(tool_name@, arguments@),
{
    if str_eq(tool_name, "execute") {
        if let Some(action) = json_member_string(arguments, "action") {
            return action;
        }
    }
    owned(tool_name)
}

/// Marker appended to a cut tool result.
pub open spec fn truncation_marker() -> Seq<char> {
    "\n... [truncated]"@
}

/// A tool result cut to its first 8 KiB, with a marker when cut.
pub open spec fn truncated_result(text: Seq<char>) -> Seq<char> {
    let bytes = encode_utf8(text);
    if bytes.len() <= MAX_TOOL_RESULT_BYTES {
        text
    } else {
        decode_utf8(bytes.subrange(0, MAX_TOOL_RESULT_BYTES as int)) + truncation_marker()
    }
}

/// Whether a text can be cut at 8 KiB: it is short enough or a character
/// starts there (and its length, as every length, fits in a `usize`).
pub open spec fn cuttable(text: Seq<char>) -> bool {
    &&& encode_utf8(text).len() <= usize::MAX
    &&& encode_utf8(text).len() <= MAX_TOOL_RESULT_BYTES || vstd::utf8::is_char_boundary(
        encode_utf8(text),
        MAX_TOOL_RESULT_BYTES as int,
    )
}

/// Whether a tool result can be cut at 8 KiB: what [`cuttable`] asks
/// besides a byte length that fits in a `usize`, which every text has.
pub fn is_cuttable(text: &str) -> (r: bool)
    ensures
        r == (encode_utf8(text@).len() as usize <= MAX_TOOL_RESULT_BYTES
            || vstd::utf8::is_char_boundary(encode_utf8(text@), MAX_TOOL_RESULT_BYTES as int)),
        encode_utf8(text@).len() <= usize::MAX ==> (r == cuttable(text@)),
{
    text.len() <= MAX_TOOL_RESULT_BYTES || text.is_char_boundary(MAX_TOOL_RESULT_BYTES)
}

/// Cut a tool result to 8 KiB. The cut must fall on a character boundary.
pub fn truncate_tool_result(text: &str) -> (r: String)
    requires
        cuttable(text@),
    ensures
        r@ == truncated_result(text@),
{
    if text.len() <= MAX_TOOL_RESULT_BYTES {
        return owned(text);
    }
    let (head, _tail) = text.split_at(MAX_TOOL_RESULT_BYTES);
    let mut truncated = owned(head);
    truncated.append("\n... [truncated]");
    proof {
        encode_utf8_decode_utf8(head@);
    }
    truncated
}

/// One recorded tool call for the audit trail.
#[derive(Debug)]
pub struct ToolCallRecord {
    pub tool_name: String,
    pub result_preview: String,
}

/// Why the agent loop terminated.
#[derive(Debug)]
pub enum LoopOutcome {
    Completed { assistant_text: String },
    MaxTurns { assistant_text: String, turns_used: usize },
    ContextTooLong { assistant_text: String, estimated_tokens: u32 },
    RateLimited { turns_completed: usize },
    ModelError { error: String, turns_completed: usize },
    Aborted { reason: String },
}

/// The assistant text an outcome carries (empty when it carries none).
pub open spec fn outcome_text(o: LoopOutcome) -> Seq<char> {
    match o {
        LoopOutcome::Completed { assistant_text } => assistant_text@,
        LoopOutcome::MaxTurns { assistant_text, .. } => assistant_text@,
        LoopOutcome::ContextTooLong { assistant_text, .. } => assistant_text@,
        _ => Seq::empty(),
    }
}

/// The error detail an outcome carries.
pub open spec fn outcome_error(o: LoopOutcome) -> Seq<char> {
    match o {
        LoopOutcome::ModelError { error, .. } => error@,
        LoopOutcome::Aborted { reason } => reason@,
        LoopOutcome::RateLimited { .. } => "rate limited"@,
        LoopOutcome::ContextTooLong { .. } => "context too long"@,
        _ => Seq::empty(),
    }
}

/// The status name of an outcome.
pub open spec fn outcome_status(o: LoopOutcome) -> Seq<char> {
    match o {
        LoopOutcome::Completed { .. } => "completed"@,
        LoopOutcome::MaxTurns { .. } => "max_turns"@,
        LoopOutcome::ContextTooLong { .. } => "context_too_long"@,
        LoopOutcome::RateLimited { .. } => "rate_limited"@,
        LoopOutcome::ModelError { .. } => "model_error"@,
        LoopOutcome::Aborted { .. } => "aborted"@,
    }
}

impl LoopOutcome {
    /// The assistant's text, empty for outcomes without one.
    pub fn assistant_text(&self) -> (r: &str)
        ensures
            r@ == outcome_text(*self),
    {
        match self {
            LoopOutcome::Completed { assistant_text } => assistant_text.as_str(),
            LoopOutcome::MaxTurns { assistant_text, .. } => assistant_text.as_str(),
            LoopOutcome::ContextTooLong { assistant_text, .. } => assistant_text.as_str(),
            _ => {
                proof {
                    reveal_strlit("");
                }
                ""
            },
        }
    }

    /// The error detail, empty for outcomes without one.
    pub fn error_detail(&self) -> (r: &str)
        ensures
            r@ == outcome_error(*self),
    {
        match self {
            LoopOutcome::ModelError { error, .. } => error.as_str(),
            LoopOutcome::Aborted { reason } => reason.as_str(),
            LoopOutcome::RateLimited { .. } => "rate limited",
            LoopOutcome::ContextTooLong { .. } => "context too long",
            _ => {
                proof {
                    reveal_strlit("");
                }
                ""
            },
        }
    }

    /// Whether the loop completed with a final answer.
    pub fn is_success(&self) -> (r: bool)
        ensures
            r == (*self is Completed),
    {
        match self {
            LoopOutcome::Completed { .. } => true,
            _ => false,
        }
    }

    /// The status name of the outcome.
    pub fn status_str(&self) -> (r: &'static str)
        ensures
            r@ == outcome_status(*self),
    {
        match self {
            LoopOutcome::Completed { .. } => "completed",
            LoopOutcome::MaxTurns { .. } => "max_turns",
            LoopOutcome::ContextTooLong { .. } => "context_too_long",
            LoopOutcome::RateLimited { .. } => "rate_limited",
            LoopOutcome::ModelError { .. } => "model_error",
            LoopOutcome::Aborted { .. } => "aborted",
        }
    }
}

/// Result of a headless tool loop run.
#[derive(Debug)]
pub struct ToolLoopResult {
    pub outcome: LoopOutcome,
    pub tool_calls_log: Vec<ToolCallRecord>,
    pub total_input_tokens: u64,
    pub total_output_tokens: u64,
    pub model_used: String,
}

/// How a tool call ended.
pub enum ToolOutcome {
    /// The tool answered; the text of its content.
    Text(String),
    /// The tool reported an error with this message.
    Failed(String),
    /// The tool did not answer in time.
    TimedOut,
}

/// The text recorded for a tool outcome.
pub open spec fn tool_outcome_text(o: ToolOutcome) -> Seq<char> {
    match o {
        ToolOutcome::Text(t) => t@,
        ToolOutcome::Failed(m) => "Error: "@ + m@,
        ToolOutcome::TimedOut => "Error: tool execution timed out after 30s"@,
    }
}

/// The text recorded for a tool outcome.
pub fn tool_outcome_string(o: ToolOutcome) -> (r: String)
    ensures
        r@ == tool_outcome_text(o),
{
    match o {
        ToolOutcome::Text(t) => t,
        ToolOutcome::Failed(m) => {
            let mut s = owned("Error: ");
            s.append(m.as_str());
            s
        },
        ToolOutcome::TimedOut => owned("Error: tool execution timed out after 30s"),
    }
}

/// The outcome of a loop whose model call failed after `turn` turns.
pub open spec fn failure_outcome_ok(turn: usize, e: GatewayErrorView, o: LoopOutcome) -> bool {
    match e {
        GatewayErrorView::ContextTooLong => o matches LoopOutcome::ContextTooLong {
            assistant_text,
            estimated_tokens,
        } && assistant_text@.len() == 0 && estimated_tokens == 0,
        GatewayErrorView::RateLimited { .. } => o == (LoopOutcome::RateLimited {
            turns_completed: turn,
        }),
        _ => o matches LoopOutcome::ModelError { error, turns_completed } && error@
            == error_message(e) && turns_completed == turn,
    }
}

/// The message the loop records for an assistant answer that asked for tools:
/// no content when the text is empty, the reasoning when there is any.
pub open spec fn tool_request_message(
    content: Seq<char>,
    thinking: Option<Seq<char>>,
    calls: Seq<ToolCallView>,
) -> MessageView {
    MessageView {
        role: MessageRole::Assistant,
        content: if content.len() == 0 {
            None
        } else {
            Some(ContentView::Text(content))
        },
        name: None,
        tool_calls: Some(calls),
        tool_call_id: None,
        reasoning_content: thinking,
    }
}

/// The tool message that carries a result.
pub open spec fn tool_result_message(call_id: Seq<char>, text: Seq<char>) -> MessageView {
    MessageView {
        role: MessageRole::Tool,
        content: Some(ContentView::Text(text)),
        name: None,
        tool_calls: None,
        tool_call_id: Some(call_id),
        reasoning_content: None,
    }
}

/// Text of the outcome when the loop used all its turns.
pub open spec fn max_turns_text() -> Seq<char> {
    "Task reached maximum tool call turns."@
}

/// State of a headless tool loop between its steps. The caller performs the
/// model and tool calls and hands their results to the loop.
pub struct ToolLoop {
    pub messages: Vec<ChatMessage>,
    pub tool_calls_log: Vec<ToolCallRecord>,
    pub total_input_tokens: u64,
    pub total_output_tokens: u64,
    pub model_used: String,
    pub stop_hook_fired: bool,
    pub turn: usize,
    pub max_turns: usize,
}

impl ToolLoop {
    /// A loop that starts from the user's message.
    pub fn new(user_message: String, max_turns: usize) -> (r: Self)
        ensures
            messages_view(r.messages@) == seq![text_message(MessageRole::User, user_message@)],
            r.tool_calls_log@.len() == 0,
            r.total_input_tokens == 0,
            r.total_output_tokens == 0,
            r.model_used@.len() == 0,
            !r.stop_hook_fired,
            r.turn == 0,
            r.max_turns == max_turns,
    {
        let mut messages: Vec<ChatMessage> = Vec::new();
        messages.push(ChatMessage::text(MessageRole::User, user_message));
        proof {
            assert(messages_view(messages@) =~= seq![messages@[0]@]);
        }
        ToolLoop {
            messages,
            tool_calls_log: Vec::new(),
            total_input_tokens: 0,
            total_output_tokens: 0,
            model_used: String::new(),
            stop_hook_fired: false,
            turn: 0,
            max_turns,
        }
    }

    /// Start a turn: `false` when every turn has been used; otherwise the
    /// context is compacted to `token_budget` (keeping the last two turns)
    /// and the model is to be called with the messages.
    pub fn begin_turn(&mut self, token_budget: u32) -> (r: bool)
        requires
            context_tokens(messages_view(old(self).messages@)) <= u32::MAX,
        ensures
            r == (old(self).turn < old(self).max_turns),
            r ==> messages_view(final(self).messages@) == snip_result(
                messages_view(old(self).messages@),
                token_budget as nat,
                2,
            ).0,
            !r ==> messages_view(final(self).messages@) == messages_view(old(self).messages@),
            final(self).turn == old(self).turn,
            final(self).max_turns == old(self).max_turns,
            final(self).stop_hook_fired == old(self).stop_hook_fired,
            final(self).total_input_tokens == old(self).total_input_tokens,
            final(self).total_output_tokens == old(self).total_output_tokens,
            final(self).model_used@ == old(self).model_used@,
            final(self).tool_calls_log@ == old(self).tool_calls_log@,
    {
        if self.turn >= self.max_turns {
            return false;
        }
        snip_compact(&mut self.messages, token_budget, 2);
        true
    }

    /// The outcome when the model call of the current turn failed.
    pub fn failure_outcome(&self, err: &GatewayCallError) -> (r: LoopOutcome)
        ensures
            failure_outcome_ok(self.turn, err@, r),
    {
        match err {
            GatewayCallError::ContextTooLong => LoopOutcome::ContextTooLong {
                assistant_text: String::new(),
                estimated_tokens: 0,
            },
            GatewayCallError::RateLimited { .. } => LoopOutcome::RateLimited {
                turns_completed: self.turn,
            },
            _ => LoopOutcome::ModelError { error: err.to_string(), turns_completed: self.turn },
        }
    }

    /// Count the usage of a model answer and remember its model, if named.
    pub fn record_reply(&mut self, reply: &GatewayCallResult)
        requires
            old(self).total_input_tokens + reply.usage.prompt_tokens <= u64::MAX,
            old(self).total_output_tokens + reply.usage.completion_tokens <= u64::MAX,
        ensures
            final(self).total_input_tokens == old(self).total_input_tokens
                + reply.usage.prompt_tokens,
            final(self).total_output_tokens == old(self).total_output_tokens
                + reply.usage.completion_tokens,
            final(self).model_used@ == if reply.model@.len() == 0 {
                old(self).model_used@
            } else {
                reply.model@
            },
            messages_view(final(self).messages@) == messages_view(old(self).messages@),
            final(self).turn == old(self).turn,
            final(self).max_turns == old(self).max_turns,
            final(self).stop_hook_fired == old(self).stop_hook_fired,
            final(self).tool_calls_log@ == old(self).tool_calls_log@,
    {
        self.total_input_tokens = self.total_input_tokens + reply.usage.prompt_tokens as u64;
        self.total_output_tokens = self.total_output_tokens + reply.usage.completion_tokens as u64;
        if !reply.model.as_str().is_empty() {
            self.model_used = reply.model.clone();
        }
    }

    /// Whether a final answer is to be shown to the stop hook first: only
    /// when there is a hook and it has not yet rejected an answer.
    pub fn wants_stop_hook(&self, has_hook: bool) -> (r: bool)
        ensures
            r == (has_hook && !self.stop_hook_fired),
    {
        has_hook && !self.stop_hook_fired
    }

    /// The stop hook rejected the final answer `content` with `correction`:
    /// the answer and the correction (as a user message) join the context,
    /// the hook is not asked again, and the next turn starts.
    pub fn apply_correction(&mut self, content: String, correction: String)
        requires
            old(self).turn < usize::MAX,
        ensures
            messages_view(final(self).messages@) == messages_view(old(self).messages@).push(
                text_message(MessageRole::Assistant, content@),
            ).push(text_message(MessageRole::User, correction@)),
            final(self).stop_hook_fired,
            final(self).turn == old(self).turn + 1,
            final(self).max_turns == old(self).max_turns,
            final(self).total_input_tokens == old(self).total_input_tokens,
            final(self).total_output_tokens == old(self).total_output_tokens,
            final(self).model_used@ == old(self).model_used@,
            final(self).tool_calls_log@ == old(self).tool_calls_log@,
    {
        let ghost before = self.messages@;
        let a = ChatMessage::text(MessageRole::Assistant, content);
        let u = ChatMessage::text(MessageRole::User, correction);
        self.messages.push(a);
        self.messages.push(u);
        proof {
            assert(messages_view(self.messages@) =~= messages_view(before).push(a@).push(u@));
        }
        self.stop_hook_fired = true;
        self.turn = self.turn + 1;
    }

    /// Record the assistant answer that asked for tool calls.
    pub fn push_tool_request(&mut self, content: &str, thinking: Option<String>, tool_calls: Vec<ToolCall>)
        ensures
            messages_view(final(self).messages@) == messages_view(old(self).messages@).push(
                tool_request_message(content@, opt_view(thinking), tool_calls_view(tool_calls@)),
            ),
            final(self).turn == old(self).turn,
            final(self).max_turns == old(self).max_turns,
            final(self).stop_hook_fired == old(self).stop_hook_fired,
            final(self).total_input_tokens == old(self).total_input_tokens,
            final(self).total_output_tokens == old(self).total_output_tokens,
            final(self).model_used@ == old(self).model_used@,
            final(self).tool_calls_log@ == old(self).tool_calls_log@,
    {
        let ghost before = self.messages@;
        let m = ChatMessage {
            role: MessageRole::Assistant,
            content: if content.is_empty() {
                None
            } else {
                Some(MessageContent::Text(owned(content)))
            },
            name: None,
            tool_calls: Some(tool_calls),
            tool_call_id: None,
            reasoning_content: thinking,
        };
        self.messages.push(m);
        proof {
            assert(messages_view(self.messages@) =~= messages_view(before).push(m@));
        }
    }

    /// Record the result of one tool call: its text is cut to 8 KiB, its
    /// first 200 characters are logged under the effective tool name, and
    /// it joins the context as the tool message answering `call_id`.
    pub fn record_tool_result(&mut self, call_id: &str, tool_name: String, outcome: ToolOutcome)
        requires
            cuttable(tool_outcome_text(outcome)),
        ensures
            messages_view(final(self).messages@) == messages_view(old(self).messages@).push(
                tool_result_message(call_id@, truncated_result(tool_outcome_text(outcome))),
            ),
            final(self).tool_calls_log@.len() == old(self).tool_calls_log@.len() + 1,
            forall|k: int|
                0 <= k < old(self).tool_calls_log@.len() ==> final(self).tool_calls_log@[k]
                    == old(self).tool_calls_log@[k],
            final(self).tool_calls_log@.last().tool_name@ == tool_name@,
            final(self).tool_calls_log@.last().result_preview@ == take_chars_spec(
                truncated_result(tool_outcome_text(outcome)),
                RESULT_PREVIEW_CHARS as nat,
            ),
            final(self).turn == old(self).turn,
            final(self).max_turns == old(self).max_turns,
            final(self).stop_hook_fired == old(self).stop_hook_fired,
            final(self).total_input_tokens == old(self).total_input_tokens,
            final(self).total_output_tokens == old(self).total_output_tokens,
            final(self).model_used@ == old(self).model_used@,
    {
        let raw = tool_outcome_string(outcome);
        let text = truncate_tool_result(raw.as_str());
        let preview = take_chars(text.as_str(), RESULT_PREVIEW_CHARS);
        self.tool_calls_log.push(ToolCallRecord { tool_name, result_preview: preview });
        let ghost before = self.messages@;
        let m = ChatMessage {
            role: MessageRole::Tool,
            content: Some(MessageContent::Text(text)),
            name: None,
            tool_calls: None,
            tool_call_id: Some(owned(call_id)),
            reasoning_content: None,
        };
        self.messages.push(m);
        proof {
            assert(messages_view(self.messages@) =~= messages_view(before).push(m@));
        }
    }

    /// Close the current turn after its tool calls.
    pub fn end_turn(&mut self)
        requires
            old(self).turn < usize::MAX,
        ensures
            final(self).turn == old(self).turn + 1,
            messages_view(final(self).messages@) == messages_view(old(self).messages@),
            final(self).max_turns == old(self).max_turns,
            final(self).stop_hook_fired == old(self).stop_hook_fired,
            final(self).total_input_tokens == old(self).total_input_tokens,
            final(self).total_output_tokens == old(self).total_output_tokens,
            final(self).model_used@ == old(self).model_used@,
            final(self).tool_calls_log@ == old(self).tool_calls_log@,
    {
        self.turn = self.turn + 1;
    }

    /// The outcome when every turn was used without a final answer.
    pub fn max_turns_outcome(&self) -> (r: LoopOutcome)
        ensures
            r matches LoopOutcome::MaxTurns { assistant_text, turns_used } && assistant_text@
                == max_turns_text() && turns_used == self.max_turns,
    {
        LoopOutcome::MaxTurns {
            assistant_text: owned("Task reached maximum tool call turns."),
            turns_used: self.max_turns,
        }
    }

    /// End the loop with an outcome.
    pub fn finish(self, outcome: LoopOutcome) -> (r: ToolLoopResult)
        ensures
            r.outcome == outcome,
            r.tool_calls_log@ == self.tool_calls_log@,
            r.total_input_tokens == self.total_input_tokens,
            r.total_output_tokens == self.total_output_tokens,
            r.model_used@ == self.model_used@,
    {
        ToolLoopResult {
            outcome,
            tool_calls_log: self.tool_calls_log,
            total_input_tokens: self.total_input_tokens,
            total_output_tokens: self.total_output_tokens,
            model_used: self.model_used,
        }
    }
}

} // verus!
