//! Context window management for the in-app agent: token estimation,
//! dropping old turns, pruning stale tool results and repairing tool-call
//! sequences so that the model never receives an invalid history.

use vstd::prelude::*;
use vstd::string::*;

use crate::messages::{
    clone_opt, clone_tool_calls, content_text, estimate_tokens, messages_view, opt_view, text_message, tokens_of,
    tool_calls_view, ChatMessage, ContentView, MessageContent, MessageRole, MessageView,
    ToolCall, ToolCallView,
};
use crate::text::{
    decimal, decimal_string, has_substring, join, join_spec, owned, str_contains, str_eq,
    strings_view, trim, trim_spec,
};

verus! {

/// Estimated token budget for the agent context window.
pub const CONTEXT_TOKEN_BUDGET: u32 = 100_000;

/// Token budget at which compaction starts (80% of [`CONTEXT_TOKEN_BUDGET`]).
pub const COMPACT_TOKEN_BUDGET: u32 = 80_000;

// ---------------------------------------------------------------------------
// Token estimation
// ---------------------------------------------------------------------------

/// Tokens of the names and arguments of a list of tool calls.
pub open spec fn calls_tokens(tcs: Seq<ToolCallView>) -> nat
    decreases tcs.len(),
{
    if tcs.len() == 0 {
        0
    } else {
        calls_tokens(tcs.drop_last()) + tokens_of(tcs.last().function.name) as nat
            + tokens_of(tcs.last().function.arguments) as nat
    }
}

/// Tokens of the content of a message (0 when it has none).
pub open spec fn content_tokens(m: MessageView) -> nat {
    match m.content {
        Some(c) => tokens_of(content_text(c)) as nat,
        None => 0,
    }
}

/// Estimated tokens of one message: a fixed overhead of 4, its content and
/// the names and arguments of its tool calls.
pub open spec fn message_tokens(m: MessageView) -> nat {
    4 + content_tokens(m) + match m.tool_calls {
        Some(t) => calls_tokens(t),
        None => 0,
    }
}

/// Estimated tokens of a whole context.
pub open spec fn context_tokens(ms: Seq<MessageView>) -> nat
    decreases ms.len(),
{
    if ms.len() == 0 {
        0
    } else {
        context_tokens(ms.drop_last()) + message_tokens(ms.last())
    }
}

proof fn lemma_calls_tokens_prefix(tcs: Seq<ToolCallView>, j: int)
    requires
        0 <= j <= tcs.len(),
    ensures
        calls_tokens(tcs.subrange(0, j)) <= calls_tokens(tcs),
    decreases tcs.len() - j,
{
    if j < tcs.len() {
        lemma_calls_tokens_prefix(tcs, j + 1);
        assert(tcs.subrange(0, j + 1).drop_last() =~= tcs.subrange(0, j));
    } else {
        assert(tcs.subrange(0, j) =~= tcs);
    }
}

proof fn lemma_context_tokens_prefix(ms: Seq<MessageView>, j: int)
    requires
        0 <= j <= ms.len(),
    ensures
        context_tokens(ms.subrange(0, j)) <= context_tokens(ms),
    decreases ms.len() - j,
{
    if j < ms.len() {
        lemma_context_tokens_prefix(ms, j + 1);
        assert(ms.subrange(0, j + 1).drop_last() =~= ms.subrange(0, j));
    } else {
        assert(ms.subrange(0, j) =~= ms);
    }
}

/// Estimated tokens of the content of a message, as an integer.
fn message_content_tokens(m: &ChatMessage) -> (r: u64)
    ensures
        r == content_tokens(m@),
        r < 0x4000_0000_0000_0000,
{
    match &m.content {
        Some(c) => {
            let text = c.as_text();
            (estimate_tokens(text.as_str()) as u64)
        },
        None => 0,
    }
}

/// Estimate total tokens for a slice of chat messages (chars/4 heuristic,
/// plus 4 tokens of overhead per message).
pub fn estimate_context_tokens(messages: &[ChatMessage]) -> (r: u32)
    requires
        context_tokens(messages_view(messages@)) <= u32::MAX,
    ensures
        r == context_tokens(messages_view(messages@)),
{
    let ghost mv = messages_view(messages@);
    let mut total: u32 = 0;
    let mut i: usize = 0;
    while i < messages.len()
        invariant
            i <= messages.len(),
            mv == messages_view(messages@),
            mv.len() == messages.len(),
            context_tokens(mv) <= u32::MAX,
            total == context_tokens(mv.subrange(0, i as int)),
        decreases messages.len() - i,
    {
        let msg = &messages[i];
        proof {
            lemma_context_tokens_prefix(mv, i as int + 1);
            assert(mv.subrange(0, i as int + 1).drop_last() =~= mv.subrange(0, i as int));
            assert(mv[i as int] == msg@);
        }
        total = total + 4;
        let ct = message_content_tokens(msg);
        total = total + (ct as u32);
        match &msg.tool_calls {
            Some(tcs) => {
                let ghost tv = tool_calls_view(tcs@);
                let ghost base = total;
                let mut j: usize = 0;
                while j < tcs.len()
                    invariant
                        j <= tcs.len(),
                        tv == tool_calls_view(tcs@),
                        tv.len() == tcs.len(),
                        base + calls_tokens(tv) <= u32::MAX,
                        total == base + calls_tokens(tv.subrange(0, j as int)),
                    decreases tcs.len() - j,
                {
                    proof {
                        lemma_calls_tokens_prefix(tv, j as int + 1);
                        assert(tv.subrange(0, j as int + 1).drop_last() =~= tv.subrange(0, j as int));
                        assert(tv[j as int] == tcs@[j as int]@);
                    }
                    let tc = &tcs[j];
                    total = total + (estimate_tokens(tc.function.name.as_str()) as u32);
                    total = total + (estimate_tokens(tc.function.arguments.as_str()) as u32);
                    j = j + 1;
                }
                proof {
                    assert(tv.subrange(0, tv.len() as int) =~= tv);
                }
            },
            None => {},
        }
        i = i + 1;
    }
    proof {
        assert(mv.subrange(0, mv.len() as int) =~= mv);
    }
    total
}


proof fn lemma_context_tokens_monotone(ms: Seq<MessageView>, i: int, j: int)
    requires
        0 <= i <= j <= ms.len(),
    ensures
        context_tokens(ms.subrange(0, i)) <= context_tokens(ms.subrange(0, j)),
    decreases j - i,
{
    if i < j {
        lemma_context_tokens_monotone(ms, i, j - 1);
        assert(ms.subrange(0, j).drop_last() =~= ms.subrange(0, j - 1));
    }
}

/// Whether the token estimate of the messages fits in a `u32`, as
/// [`estimate_context_tokens`] requires.
pub fn context_tokens_fit(messages: &[ChatMessage]) -> (r: bool)
    ensures
        r == (context_tokens(messages_view(messages@)) <= u32::MAX),
{
    let ghost mv = messages_view(messages@);
    let mut total: u64 = 0;
    let mut i: usize = 0;
    while i < messages.len()
        invariant
            i <= messages.len(),
            mv == messages_view(messages@),
            mv.len() == messages.len(),
            total == context_tokens(mv.subrange(0, i as int)),
            total <= u32::MAX,
        decreases messages.len() - i,
    {
        let msg = &messages[i];
        proof {
            assert(mv.subrange(0, i as int + 1).drop_last() =~= mv.subrange(0, i as int));
            assert(mv[i as int] == msg@);
        }
        let ghost start = total;
        total = total + 4;
        let ct = message_content_tokens(msg);
        total = total + ct;
        if total > u32::MAX as u64 {
            proof {
                assert(context_tokens(mv.subrange(0, i as int + 1)) >= total);
                lemma_context_tokens_monotone(mv, i as int + 1, mv.len() as int);
                assert(mv.subrange(0, mv.len() as int) =~= mv);
            }
            return false;
        }
        match &msg.tool_calls {
            Some(tcs) => {
                let ghost tv = tool_calls_view(tcs@);
                let ghost base = total;
                let mut j: usize = 0;
                while j < tcs.len()
                    invariant
                        j <= tcs.len(),
                        tv == tool_calls_view(tcs@),
                        tv.len() == tcs.len(),
                        base <= u32::MAX,
                        total == base + calls_tokens(tv.subrange(0, j as int)),
                        total <= u32::MAX,
                        i < mv.len(),
                        mv == messages_view(messages@),
                        mv.len() == messages.len(),
                        mv[i as int].tool_calls == Some(tv),
                        start == context_tokens(mv.subrange(0, i as int)),
                        base == start + 4 + content_tokens(mv[i as int]),
                    decreases tcs.len() - j,
                {
                    proof {
                        assert(tv.subrange(0, j as int + 1).drop_last() =~= tv.subrange(0, j as int));
                        assert(tv[j as int] == tcs@[j as int]@);
                    }
                    let tc = &tcs[j];
                    let a = estimate_tokens(tc.function.name.as_str()) as u64;
                    let b = estimate_tokens(tc.function.arguments.as_str()) as u64;
                    if a > u32::MAX as u64 || b > u32::MAX as u64 || total + a + b > u32::MAX as u64 {
                        proof {
                            lemma_calls_tokens_prefix(tv, j as int + 1);
                            assert(tv.subrange(0, j as int + 1).drop_last() =~= tv.subrange(0, j as int));
                            assert(mv.subrange(0, i as int + 1).drop_last() =~= mv.subrange(0, i as int));
                            assert(mv.subrange(0, i as int + 1).last() == mv[i as int]);
                            assert(context_tokens(mv.subrange(0, i as int + 1)) == start
                                + message_tokens(mv[i as int]));
                            lemma_context_tokens_monotone(mv, i as int + 1, mv.len() as int);
                            assert(mv.subrange(0, mv.len() as int) =~= mv);
                        }
                        return false;
                    }
                    total = total + a + b;
                    j = j + 1;
                }
                proof {
                    assert(tv.subrange(0, tv.len() as int) =~= tv);
                }
            },
            None => {},
        }
        i = i + 1;
    }
    proof {
        assert(mv.subrange(0, mv.len() as int) =~= mv);
    }
    true
}

// ---------------------------------------------------------------------------
// Snip compaction
// ---------------------------------------------------------------------------

/// Indices of the user messages: the starts of the conversation's turns.
pub open spec fn user_starts(ms: Seq<MessageView>) -> Seq<int>
    decreases ms.len(),
{
    if ms.len() == 0 {
        Seq::empty()
    } else {
        let r = user_starts(ms.drop_last());
        if ms.last().role == MessageRole::User {
            r.push(ms.len() - 1)
        } else {
            r
        }
    }
}

/// Tokens that dropping a message frees: its content and 4 of overhead,
/// nothing for a message without content.
pub open spec fn drop_cost(m: MessageView) -> nat {
    match m.content {
        Some(c) => tokens_of(content_text(c)) as nat + 4,
        None => 0,
    }
}

/// Saturating subtraction on naturals.
pub open spec fn sat_sub(a: nat, b: nat) -> nat {
    if a > b {
        (a - b) as nat
    } else {
        0
    }
}

/// The estimate after dropping messages `lo..hi`, one at a time, each
/// subtraction saturating at zero.
pub open spec fn drain(est: nat, ms: Seq<MessageView>, lo: int, hi: int) -> nat
    decreases hi - lo,
{
    if lo >= hi {
        est
    } else {
        drain(sat_sub(est, drop_cost(ms[lo])), ms, lo + 1, hi)
    }
}

/// End (exclusive) of turn `t`: the start of the next turn, or the end.
pub open spec fn turn_end(ms: Seq<MessageView>, t: int) -> int {
    let starts = user_starts(ms);
    if t + 1 < starts.len() {
        starts[t + 1]
    } else {
        ms.len() as int
    }
}

/// Turns are dropped oldest first, from turn `t` on, while the estimate is
/// above the budget and fewer than `limit` turns were dropped. Returns the
/// number of dropped turns and the estimate left.
pub open spec fn snip_plan(ms: Seq<MessageView>, budget: nat, est: nat, t: int, limit: int) -> (
    nat,
    nat,
)
    decreases limit - t,
{
    if t >= limit || est <= budget || t < 0 {
        (t as nat, est)
    } else {
        snip_plan(
            ms,
            budget,
            drain(est, ms, user_starts(ms)[t], turn_end(ms, t)),
            t + 1,
            limit,
        )
    }
}

/// Text of the notice that replaces dropped turns.
pub open spec fn snip_notice(dropped: nat, turns: nat) -> Seq<char> {
    "["@ + decimal(dropped) + " earlier messages omitted to fit context window. "@ + decimal(
        turns,
    ) + " turn(s) removed.]"@
}

/// The context after snip compaction, with the estimate it returns.
pub open spec fn snip_result(ms: Seq<MessageView>, budget: nat, min_keep: nat) -> (
    Seq<MessageView>,
    nat,
) {
    let est = context_tokens(ms);
    let starts = user_starts(ms);
    if est <= budget || starts.len() <= min_keep {
        (ms, est)
    } else {
        let (k, left) = snip_plan(ms, budget, est, 0, starts.len() - min_keep);
        if k == 0 {
            (ms, left)
        } else {
            let cut_start = starts[0];
            let cut_end = if (k as int) < starts.len() {
                starts[k as int]
            } else {
                ms.len() as int
            };
            (
                ms.subrange(0, cut_start) + seq![
                    text_message(
                        MessageRole::System,
                        snip_notice((cut_end - cut_start) as nat, k),
                    ),
                ] + ms.subrange(cut_end, ms.len() as int),
                left,
            )
        }
    }
}

proof fn lemma_snip_plan_bound(ms: Seq<MessageView>, budget: nat, est: nat, t: int, limit: int)
    requires
        0 <= t <= limit,
    ensures
        t <= snip_plan(ms, budget, est, t, limit).0 <= limit,
    decreases limit - t,
{
    if t >= limit || est <= budget {
    } else {
        lemma_snip_plan_bound(
            ms,
            budget,
            drain(est, ms, user_starts(ms)[t], turn_end(ms, t)),
            t + 1,
            limit,
        );
    }
}

proof fn lemma_user_starts(ms: Seq<MessageView>)
    ensures
        forall|a: int, b: int|
            0 <= a < b < user_starts(ms).len() ==> user_starts(ms)[a] < user_starts(ms)[b],
        forall|a: int|
            0 <= a < user_starts(ms).len() ==> 0 <= #[trigger] user_starts(ms)[a] < ms.len(),
        forall|a: int|
            0 <= a < user_starts(ms).len() ==> ms[#[trigger] user_starts(ms)[a]].role
                == MessageRole::User,
        user_starts(ms).len() <= ms.len(),
    decreases ms.len(),
{
    if ms.len() > 0 {
        lemma_user_starts(ms.drop_last());
    }
}

/// Snip compaction keeps what comes before the first user message (the
/// system prompt) and the last `min_keep` turns as they were: the result
/// starts with the first and ends with the second.
pub proof fn lemma_snip_keeps_edges(ms: Seq<MessageView>, budget: nat, min_keep: nat)
    requires
        min_keep >= 1,
    ensures
        ({
            let r = snip_result(ms, budget, min_keep).0;
            let starts = user_starts(ms);
            let head = if starts.len() > 0 {
                starts[0]
            } else {
                ms.len() as int
            };
            &&& head <= r.len()
            &&& r.subrange(0, head) == ms.subrange(0, head)
            &&& starts.len() >= min_keep ==> {
                let from = starts[starts.len() - min_keep];
                &&& ms.len() - from <= r.len()
                &&& r.subrange(r.len() - (ms.len() - from), r.len() as int) == ms.subrange(
                    from,
                    ms.len() as int,
                )
            }
        }),
{
    let starts = user_starts(ms);
    lemma_user_starts(ms);
    let est = context_tokens(ms);
    if est <= budget || starts.len() <= min_keep {
        assert(ms.subrange(0, ms.len() as int) =~= ms);
    } else {
        let limit = starts.len() - min_keep;
        lemma_snip_plan_bound(ms, budget, est, 0, limit);
        let k = snip_plan(ms, budget, est, 0, limit).0;
        if k > 0 {
            let cs = starts[0];
            let ce = starts[k as int];
            let from = starts[limit];
            let r = snip_result(ms, budget, min_keep).0;
            let notice = seq![
                text_message(
                    MessageRole::System,
                    snip_notice((ce - cs) as nat, k),
                ),
            ];
            assert(r == ms.subrange(0, cs) + notice + ms.subrange(ce, ms.len() as int));
            if (k as int) < limit {
                assert(ce < from);
            }
            assert(r.subrange(0, cs) =~= ms.subrange(0, cs));
            assert(r.subrange(r.len() - (ms.len() - from), r.len() as int) =~= ms.subrange(
                from,
                ms.len() as int,
            ));
        }
    }
}

/// Indices of the user messages of a context.
fn user_turn_starts(messages: &Vec<ChatMessage>) -> (r: Vec<usize>)
    ensures
        r@.map_values(|x: usize| x as int) == user_starts(messages_view(messages@)),
{
    let ghost mv = messages_view(messages@);
    let mut r: Vec<usize> = Vec::new();
    let mut i: usize = 0;
    while i < messages.len()
        invariant
            i <= messages.len(),
            mv == messages_view(messages@),
            r@.map_values(|x: usize| x as int) == user_starts(mv.subrange(0, i as int)),
        decreases messages.len() - i,
    {
        proof {
            assert(mv.subrange(0, i as int + 1).drop_last() =~= mv.subrange(0, i as int));
            assert(mv[i as int] == messages@[i as int]@);
        }
        if messages[i].role == MessageRole::User {
            let ghost before = r@;
            r.push(i);
            proof {
                assert(r@.map_values(|x: usize| x as int) =~= before.map_values(|x: usize| x as int).push(
                    i as int,
                ));
            }
        }
        i = i + 1;
    }
    proof {
        assert(mv.subrange(0, mv.len() as int) =~= mv);
    }
    r
}

/// Drop the oldest complete turns (a user message and everything up to the
/// next user message) until the estimate fits within `budget`. The messages
/// before the first user message (the system prompt) and the last
/// `min_keep_turns` turns are always kept; the dropped turns are replaced by
/// one system notice. With `min_keep_turns == 0` every turn may go, and the
/// notice then ends the context. Returns the estimate after dropping.
pub fn snip_compact(messages: &mut Vec<ChatMessage>, budget: u32, min_keep_turns: usize) -> (r: u32)
    requires
        context_tokens(messages_view(old(messages)@)) <= u32::MAX,
    ensures
        messages_view(final(messages)@) == snip_result(
            messages_view(old(messages)@),
            budget as nat,
            min_keep_turns as nat,
        ).0,
        r == snip_result(messages_view(old(messages)@), budget as nat, min_keep_turns as nat).1,
{
    let ghost mv = messages_view(messages@);
    let estimated = estimate_context_tokens(messages.as_slice());
    if estimated <= budget {
        return estimated;
    }
    let starts = user_turn_starts(messages);
    proof {
        lemma_user_starts(mv);
        assert(starts@.len() == user_starts(mv).len());
        assert forall|a: int| 0 <= a < starts@.len() implies starts@[a] as int == user_starts(
            mv,
        )[a] by {
            assert(starts@.map_values(|x: usize| x as int)[a] == starts@[a] as int);
        }
    }
    if starts.len() <= min_keep_turns {
        return estimated;
    }
    let droppable = starts.len() - min_keep_turns;
    let mut est: u32 = estimated;
    let mut t: usize = 0;
    while t < droppable && est > budget
        invariant
            mv == messages_view(messages@),
            mv.len() == messages.len(),
            t <= droppable <= starts.len(),
            starts@.len() == user_starts(mv).len(),
            forall|a: int| 0 <= a < starts@.len() ==> starts@[a] as int == user_starts(mv)[a],
            forall|a: int, b: int|
                0 <= a < b < user_starts(mv).len() ==> user_starts(mv)[a] < user_starts(mv)[b],
            forall|a: int|
                0 <= a < user_starts(mv).len() ==> 0 <= #[trigger] user_starts(mv)[a] < mv.len(),
            snip_plan(mv, budget as nat, est as nat, t as int, droppable as int) == snip_plan(
                mv,
                budget as nat,
                context_tokens(mv),
                0,
                droppable as int,
            ),
        decreases droppable - t,
    {
        let lo = starts[t];
        let hi = if t + 1 < starts.len() {
            starts[t + 1]
        } else {
            messages.len()
        };
        let ghost est0 = est as nat;
        let mut i = lo;
        while i < hi
            invariant
                mv == messages_view(messages@),
                mv.len() == messages.len(),
                lo <= i <= hi <= messages.len(),
                drain(est as nat, mv, i as int, hi as int) == drain(est0, mv, lo as int, hi as int),
            decreases hi - i,
        {
            let ct = message_content_tokens(&messages[i]);
            proof {
                assert(mv[i as int] == messages@[i as int]@);
            }
            if messages[i].content.is_some() {
                let c = ct + 4;
                if (est as u64) > c {
                    est = ((est as u64) - c) as u32;
                } else {
                    est = 0;
                }
            }
            i = i + 1;
        }
        proof {
            assert(lo as int == user_starts(mv)[t as int]);
            assert(hi as int == turn_end(mv, t as int));
        }
        t = t + 1;
    }
    proof {
        assert(snip_plan(mv, budget as nat, est as nat, t as int, droppable as int) == (
        t as nat, est as nat));
        lemma_snip_plan_bound(mv, budget as nat, context_tokens(mv), 0, droppable as int);
    }
    if t > 0 {
        let cut_start = starts[0];
        let cut_end = if t < starts.len() {
            starts[t]
        } else {
            messages.len()
        };
        proof {
            assert(cut_start <= cut_end) by {
                if t < starts.len() {
                    assert(user_starts(mv)[0] < user_starts(mv)[t as int]);
                }
            }
        }
        let dropped = cut_end - cut_start;
        let mut notice = owned("[");
        notice.append(decimal_string(dropped as u64).as_str());
        notice.append(" earlier messages omitted to fit context window. ");
        notice.append(decimal_string(t as u64).as_str());
        notice.append(" turn(s) removed.]");
        let mut tail = messages.split_off(cut_end);
        messages.truncate(cut_start);
        messages.push(ChatMessage::text(MessageRole::System, notice));
        messages.append(&mut tail);
        proof {
            assert(messages_view(messages@) =~= mv.subrange(0, cut_start as int) + seq![
                text_message(MessageRole::System, snip_notice(dropped as nat, t as nat)),
            ] + mv.subrange(cut_end as int, mv.len() as int));
        }
    }
    est
}


// ---------------------------------------------------------------------------
// Stored messages and pruning of stale tool results
// ---------------------------------------------------------------------------

/// A persisted agent message, with its tool calls already decoded.
#[derive(Debug)]
pub struct StoredMessage {
    pub role: String,
    pub content: Option<String>,
    pub tool_calls: Option<Vec<ToolCall>>,
    pub tool_call_id: Option<String>,
    pub tool_name: Option<String>,
    pub reasoning_content: Option<String>,
}

/// Abstract value of a [`StoredMessage`].
pub struct StoredView {
    pub role: Seq<char>,
    pub content: Option<Seq<char>>,
    pub tool_calls: Option<Seq<ToolCallView>>,
    pub tool_call_id: Option<Seq<char>>,
    pub tool_name: Option<Seq<char>>,
    pub reasoning_content: Option<Seq<char>>,
}

impl View for StoredMessage {
    type V = StoredView;

    open spec fn view(&self) -> StoredView {
        StoredView {
            role: self.role@,
            content: opt_view(self.content),
            tool_calls: match self.tool_calls {
                Some(t) => Some(tool_calls_view(t@)),
                None => None,
            },
            tool_call_id: opt_view(self.tool_call_id),
            tool_name: opt_view(self.tool_name),
            reasoning_content: opt_view(self.reasoning_content),
        }
    }
}

/// Views of a sequence of stored messages.
pub open spec fn stored_view(rows: Seq<StoredMessage>) -> Seq<StoredView> {
    rows.map_values(|r: StoredMessage| r@)
}

/// The message role named by a stored role string; unknown names map to `Other`.
pub open spec fn role_from_name(name: Seq<char>) -> MessageRole {
    if name == "system"@ {
        MessageRole::System
    } else if name == "user"@ {
        MessageRole::User
    } else if name == "assistant"@ {
        MessageRole::Assistant
    } else if name == "tool"@ {
        MessageRole::Tool
    } else {
        MessageRole::Other
    }
}

/// The in-memory message for a stored one.
pub open spec fn stored_to_message(m: StoredView) -> MessageView {
    MessageView {
        role: role_from_name(m.role),
        content: match m.content {
            Some(c) => Some(ContentView::Text(c)),
            None => None,
        },
        name: None,
        tool_calls: m.tool_calls,
        tool_call_id: m.tool_call_id,
        reasoning_content: m.reasoning_content,
    }
}

/// Map a stored role name to a message role.
pub fn role_from_str(name: &str) -> (r: MessageRole)
    ensures
        r == role_from_name(name@),
{
    if str_eq(name, "system") {
        MessageRole::System
    } else if str_eq(name, "user") {
        MessageRole::User
    } else if str_eq(name, "assistant") {
        MessageRole::Assistant
    } else if str_eq(name, "tool") {
        MessageRole::Tool
    } else {
        MessageRole::Other
    }
}

/// Convert a persisted message to an in-memory chat message.
pub fn db_message_to_chat_message(msg: &StoredMessage) -> (r: ChatMessage)
    ensures
        r@ == stored_to_message(msg@),
{
    let tool_calls = match &msg.tool_calls {
        Some(tcs) => Some(clone_tool_calls(tcs)),
        None => None,
    };
    ChatMessage {
        role: role_from_str(msg.role.as_str()),
        content: match &msg.content {
            Some(c) => Some(MessageContent::Text(c.clone())),
            None => None,
        },
        name: None,
        tool_calls,
        tool_call_id: clone_opt(&msg.tool_call_id),
        reasoning_content: clone_opt(&msg.reasoning_content),
    }
}

/// Indices of the stored user messages.
pub open spec fn stored_user_starts(rows: Seq<StoredView>) -> Seq<int>
    decreases rows.len(),
{
    if rows.len() == 0 {
        Seq::empty()
    } else {
        let r = stored_user_starts(rows.drop_last());
        if rows.last().role == "user"@ {
            r.push(rows.len() - 1)
        } else {
            r
        }
    }
}

/// Index from which messages count as fresh: the start of the turn
/// `freshness_turns` turns before the last, or 0 when there is no such turn.
pub open spec fn fresh_from(rows: Seq<StoredView>, freshness_turns: nat) -> int {
    let starts = stored_user_starts(rows);
    let cutoff = sat_sub(starts.len(), freshness_turns);
    if cutoff < starts.len() {
        starts[cutoff as int]
    } else {
        0
    }
}

/// Text that replaces a stale tool result.
pub open spec fn stale_notice(tool: Seq<char>) -> Seq<char> {
    "[Tool result from "@ + tool
        + " omitted \u{2014} data may be stale. Re-call the tool if needed.]"@
}

/// The message that stands for a stale tool result.
pub open spec fn stale_tool_message(m: StoredView) -> MessageView {
    MessageView {
        role: MessageRole::Tool,
        content: Some(
            ContentView::Text(
                stale_notice(
                    match m.tool_name {
                        Some(n) => n,
                        None => "unknown"@,
                    },
                ),
            ),
        ),
        name: None,
        tool_calls: None,
        tool_call_id: m.tool_call_id,
        reasoning_content: None,
    }
}

/// The pruned history: tool results older than the fresh turns are stubbed.
pub open spec fn pruned(rows: Seq<StoredView>, freshness_turns: nat) -> Seq<MessageView> {
    Seq::new(
        rows.len(),
        |i: int|
            if i >= fresh_from(rows, freshness_turns) || rows[i].role != "tool"@ {
                stored_to_message(rows[i])
            } else {
                stale_tool_message(rows[i])
            },
    )
}

/// Pruning replaces only stale tool results: the history keeps its length;
/// every stored message that is not a tool result comes out converted as it
/// is, whatever its turn; a tool result comes out converted as it is or, when
/// older than the fresh turns, as the stale notice for its tool, still
/// answering the same call; and the tool results of the last
/// `freshness_turns` user turns are always kept.
pub proof fn lemma_prune_only_stale_tools(rows: Seq<StoredView>, freshness_turns: nat)
    ensures
        pruned(rows, freshness_turns).len() == rows.len(),
        forall|i: int|
            0 <= i < rows.len() && rows[i].role != "tool"@ ==> #[trigger] pruned(
                rows,
                freshness_turns,
            )[i] == stored_to_message(rows[i]),
        forall|i: int|
            0 <= i < rows.len() && rows[i].role == "tool"@ ==> {
                let m = #[trigger] pruned(rows, freshness_turns)[i];
                m == stored_to_message(rows[i]) || (m.role == MessageRole::Tool
                    && m.tool_call_id == rows[i].tool_call_id && m.content == Some(
                    ContentView::Text(
                        stale_notice(
                            match rows[i].tool_name {
                                Some(n) => n,
                                None => "unknown"@,
                            },
                        ),
                    ),
                ))
            },
        forall|i: int, j: int|
            #![trigger pruned(rows, freshness_turns)[i], rows[j]]
            0 <= j <= i < rows.len() && rows[j].role == "user"@ && (forall|k: int|
                j < k < rows.len() ==> (#[trigger] rows[k]).role != "user"@) && freshness_turns >= 1
                ==> pruned(rows, freshness_turns)[i] == stored_to_message(rows[i]),
{
    lemma_stored_user_starts(rows);
    let starts = stored_user_starts(rows);
    assert forall|i: int, j: int|
        #![trigger pruned(rows, freshness_turns)[i], rows[j]]
        0 <= j <= i < rows.len() && rows[j].role == "user"@ && (forall|k: int|
            j < k < rows.len() ==> (#[trigger] rows[k]).role != "user"@) && freshness_turns >= 1
            implies pruned(rows, freshness_turns)[i] == stored_to_message(rows[i]) by {
        lemma_last_user_start(rows, j);
        let cutoff = sat_sub(starts.len(), freshness_turns);
        if cutoff < starts.len() {
            assert(starts[cutoff as int] <= starts[starts.len() - 1]);
        }
    }
}

proof fn lemma_stored_user_starts(rows: Seq<StoredView>)
    ensures
        forall|a: int, b: int|
            0 <= a < b < stored_user_starts(rows).len() ==> stored_user_starts(rows)[a]
                < stored_user_starts(rows)[b],
        forall|a: int|
            0 <= a < stored_user_starts(rows).len() ==> 0 <= #[trigger] stored_user_starts(rows)[a]
                < rows.len(),
    decreases rows.len(),
{
    if rows.len() > 0 {
        let p = rows.drop_last();
        lemma_stored_user_starts(p);
        let r = stored_user_starts(p);
        let s = stored_user_starts(rows);
        if rows.last().role == "user"@ {
            assert(s == r.push(rows.len() - 1));
            assert forall|a: int| 0 <= a < r.len() implies #[trigger] s[a] == r[a] && r[a]
                < rows.len() - 1 by {}
        } else {
            assert(s == r);
        }
    }
}

proof fn lemma_last_user_start(rows: Seq<StoredView>, j: int)
    requires
        0 <= j < rows.len(),
        rows[j].role == "user"@,
        forall|k: int| j < k < rows.len() ==> (#[trigger] rows[k]).role != "user"@,
    ensures
        stored_user_starts(rows).len() > 0,
        stored_user_starts(rows)[stored_user_starts(rows).len() - 1] == j,
    decreases rows.len(),
{
    if rows.last().role != "user"@ {
        let p = rows.drop_last();
        assert(j < rows.len() - 1);
        assert forall|k: int| j < k < p.len() implies (#[trigger] p[k]).role != "user"@ by {
            assert(p[k] == rows[k]);
        }
        lemma_last_user_start(p, j);
    } else {
        assert(j == rows.len() - 1);
    }
}

/// Indices of the stored user messages, computed.
fn stored_turn_starts(rows: &[StoredMessage]) -> (r: Vec<usize>)
    ensures
        r@.map_values(|x: usize| x as int) == stored_user_starts(stored_view(rows@)),
{
    let ghost rv = stored_view(rows@);
    let mut r: Vec<usize> = Vec::new();
    let mut i: usize = 0;
    while i < rows.len()
        invariant
            i <= rows.len(),
            rv == stored_view(rows@),
            r@.map_values(|x: usize| x as int) == stored_user_starts(rv.subrange(0, i as int)),
        decreases rows.len() - i,
    {
        proof {
            assert(rv.subrange(0, i as int + 1).drop_last() =~= rv.subrange(0, i as int));
            assert(rv[i as int] == rows@[i as int]@);
        }
        if str_eq(rows[i].role.as_str(), "user") {
            let ghost before = r@;
            r.push(i);
            proof {
                assert(r@.map_values(|x: usize| x as int) =~= before.map_values(|x: usize| x as int).push(
                    i as int,
                ));
            }
        }
        i = i + 1;
    }
    proof {
        assert(rv.subrange(0, rv.len() as int) =~= rv);
    }
    r
}

/// Convert stored messages to chat messages, replacing the content of tool
/// results older than the last `freshness_turns` user turns with a notice
/// that the data may be stale.
pub fn prune_stale_tool_results(rows: &[StoredMessage], freshness_turns: usize) -> (r: Vec<ChatMessage>)
    ensures
        messages_view(r@) == pruned(stored_view(rows@), freshness_turns as nat),
{
    let ghost rv = stored_view(rows@);
    let starts = stored_turn_starts(rows);
    proof {
        assert(starts@.len() == stored_user_starts(rv).len());
        assert forall|a: int| 0 <= a < starts@.len() implies starts@[a] as int
            == stored_user_starts(rv)[a] by {
            assert(starts@.map_values(|x: usize| x as int)[a] == starts@[a] as int);
        }
    }
    let total = starts.len();
    let cutoff = if total > freshness_turns {
        total - freshness_turns
    } else {
        0
    };
    let fresh = if cutoff < total {
        starts[cutoff]
    } else {
        0
    };
    let mut out: Vec<ChatMessage> = Vec::new();
    let mut i: usize = 0;
    while i < rows.len()
        invariant
            i <= rows.len(),
            rv == stored_view(rows@),
            fresh as int == fresh_from(rv, freshness_turns as nat),
            messages_view(out@) =~= pruned(rv, freshness_turns as nat).subrange(0, i as int),
        decreases rows.len() - i,
    {
        let msg = &rows[i];
        proof {
            assert(rv[i as int] == msg@);
        }
        let m = if i >= fresh || !str_eq(msg.role.as_str(), "tool") {
            db_message_to_chat_message(msg)
        } else {
            let mut text = owned("[Tool result from ");
            match &msg.tool_name {
                Some(n) => text.append(n.as_str()),
                None => text.append("unknown"),
            }
            text.append(" omitted \u{2014} data may be stale. Re-call the tool if needed.]");
            ChatMessage {
                role: MessageRole::Tool,
                content: Some(MessageContent::Text(text)),
                name: None,
                tool_calls: None,
                tool_call_id: clone_opt(&msg.tool_call_id),
                reasoning_content: None,
            }
        };
        proof {
            assert(m@ == pruned(rv, freshness_turns as nat)[i as int]);
        }
        let ghost before = out@;
        out.push(m);
        proof {
            assert(messages_view(before.push(m)) =~= messages_view(before).push(m@));
        }
        i = i + 1;
    }
    out
}


// ---------------------------------------------------------------------------
// Repair of orphaned tool messages
// ---------------------------------------------------------------------------

/// Text of the tool result that stands for a call that was never answered.
pub open spec fn interrupted_notice() -> Seq<char> {
    "[Tool result unavailable \u{2014} execution was interrupted. Re-call the tool if needed.]"@
}

/// The tool message injected for an unanswered call with id `id`.
pub open spec fn stub_for(id: Seq<char>) -> MessageView {
    MessageView {
        role: MessageRole::Tool,
        content: Some(ContentView::Text(interrupted_notice())),
        name: None,
        tool_calls: None,
        tool_call_id: Some(id),
        reasoning_content: None,
    }
}

/// Whether one of the calls has id `id`.
pub open spec fn has_call_id(tcs: Seq<ToolCallView>, id: Seq<char>) -> bool {
    exists|j: int| 0 <= j < tcs.len() && #[trigger] tcs[j].id == id
}

/// Whether a message is an assistant message that carries tool calls.
pub open spec fn is_calling(m: MessageView) -> bool {
    m.role == MessageRole::Assistant && m.tool_calls is Some
}

/// Ids of all tool calls made by assistant messages.
pub open spec fn known_ids(ms: Seq<MessageView>) -> Set<Seq<char>> {
    Set::new(
        |id: Seq<char>|
            exists|i: int|
                0 <= i < ms.len() && is_calling(#[trigger] ms[i]) && has_call_id(
                    ms[i].tool_calls->0,
                    id,
                ),
    )
}

/// Ids answered by tool messages.
pub open spec fn answered_ids(ms: Seq<MessageView>) -> Set<Seq<char>> {
    Set::new(
        |id: Seq<char>|
            exists|i: int|
                0 <= i < ms.len() && (#[trigger] ms[i]).role == MessageRole::Tool && ms[i].tool_call_id
                    == Some(id),
    )
}

/// A message survives the orphan filter unless it is a tool message whose
/// call id no assistant message made.
pub open spec fn keeps(m: MessageView, known: Set<Seq<char>>) -> bool {
    m.role != MessageRole::Tool || m.tool_call_id is None || known.contains(m.tool_call_id->0)
}

/// The messages that survive the orphan filter, in order.
pub open spec fn retained(ms: Seq<MessageView>, known: Set<Seq<char>>) -> Seq<MessageView>
    decreases ms.len(),
{
    if ms.len() == 0 {
        Seq::empty()
    } else {
        let r = retained(ms.drop_last(), known);
        if keeps(ms.last(), known) {
            r.push(ms.last())
        } else {
            r
        }
    }
}

/// Whether every call has been answered.
pub open spec fn all_answered(tcs: Seq<ToolCallView>, answered: Set<Seq<char>>) -> bool {
    forall|j: int| 0 <= j < tcs.len() ==> answered.contains(#[trigger] tcs[j].id)
}

/// Trailing assistant messages with unanswered calls are removed.
pub open spec fn trimmed(ms: Seq<MessageView>, answered: Set<Seq<char>>) -> Seq<MessageView>
    decreases ms.len(),
{
    if ms.len() > 0 && is_calling(ms.last()) && !all_answered(ms.last().tool_calls->0, answered) {
        trimmed(ms.drop_last(), answered)
    } else {
        ms
    }
}

/// Ids of the calls not yet answered, in order.
pub open spec fn unanswered_ids(tcs: Seq<ToolCallView>, answered: Set<Seq<char>>) -> Seq<
    Seq<char>,
>
    decreases tcs.len(),
{
    if tcs.len() == 0 {
        Seq::empty()
    } else {
        let r = unanswered_ids(tcs.drop_last(), answered);
        if answered.contains(tcs.last().id) {
            r
        } else {
            r.push(tcs.last().id)
        }
    }
}

/// Number of tool messages at the front.
pub open spec fn leading_tools(ms: Seq<MessageView>) -> nat
    decreases ms.len(),
{
    if ms.len() > 0 && ms[0].role == MessageRole::Tool {
        1 + leading_tools(ms.drop_first())
    } else {
        0
    }
}

/// The run of leading tool messages is no longer than the history.
pub proof fn lemma_leading_tools_bound(ms: Seq<MessageView>)
    ensures
        leading_tools(ms) <= ms.len(),
    decreases ms.len(),
{
    if ms.len() > 0 && ms[0].role == MessageRole::Tool {
        lemma_leading_tools_bound(ms.drop_first());
    }
}

/// The set with the given ids added.
pub open spec fn with_ids(a: Set<Seq<char>>, ids: Seq<Seq<char>>) -> Set<Seq<char>> {
    Set::new(|id: Seq<char>| a.contains(id) || ids.contains(id))
}

/// After each assistant message with unanswered calls (and the tool
/// messages that directly follow it), one stub result per unanswered call.
pub open spec fn insert_stubs(ms: Seq<MessageView>, answered: Set<Seq<char>>) -> Seq<MessageView>
    decreases ms.len(),
{
    if ms.len() == 0 {
        Seq::empty()
    } else if is_calling(ms[0]) && unanswered_ids(ms[0].tool_calls->0, answered).len() > 0 {
        let rest = ms.drop_first();
        let n = leading_tools(rest);
        let u = unanswered_ids(ms[0].tool_calls->0, answered);
        proof {
            lemma_leading_tools_bound(rest);
        }
        seq![ms[0]] + rest.take(n as int) + u.map_values(|id: Seq<char>| stub_for(id))
            + insert_stubs(rest.skip(n as int), with_ids(answered, u))
    } else {
        seq![ms[0]] + insert_stubs(ms.drop_first(), answered)
    }
}

/// The repaired history.
pub open spec fn orphan_repair(ms: Seq<MessageView>) -> Seq<MessageView> {
    let r = retained(ms, known_ids(ms));
    let a = answered_ids(r);
    insert_stubs(trimmed(r, a), a)
}

/// Whether the list holds the id.
fn ids_contain(ids: &Vec<String>, id: &String) -> (r: bool)
    ensures
        r == exists|k: int| 0 <= k < ids@.len() && (#[trigger] ids@[k])@ == id@,
{
    let mut k: usize = 0;
    while k < ids.len()
        invariant
            k <= ids.len(),
            forall|q: int| 0 <= q < k ==> (#[trigger] ids@[q])@ != id@,
        decreases ids.len() - k,
    {
        if ids[k] == *id {
            return true;
        }
        k = k + 1;
    }
    false
}

/// Whether every call has an id in the list.
fn calls_answered(tcs: &Vec<ToolCall>, ids: &Vec<String>, Ghost(a): Ghost<Set<Seq<char>>>) -> (r:
    bool)
    requires
        forall|id: Seq<char>|
            a.contains(id) <==> exists|k: int| 0 <= k < ids@.len() && (#[trigger] ids@[k])@ == id,
    ensures
        r == all_answered(tool_calls_view(tcs@), a),
{
    let ghost tv = tool_calls_view(tcs@);
    let mut j: usize = 0;
    while j < tcs.len()
        invariant
            j <= tcs.len(),
            tv == tool_calls_view(tcs@),
            forall|id: Seq<char>|
                a.contains(id) <==> exists|k: int| 0 <= k < ids@.len() && (#[trigger] ids@[k])@ == id,
            forall|q: int| 0 <= q < j ==> a.contains(#[trigger] tv[q].id),
        decreases tcs.len() - j,
    {
        proof {
            assert(tv[j as int] == tcs@[j as int]@);
        }
        if !ids_contain(ids, &tcs[j].id) {
            proof {
                assert(!a.contains(tv[j as int].id));
            }
            return false;
        }
        j = j + 1;
    }
    true
}

/// Ids of the calls not in the list, in order.
fn unanswered_calls(tcs: &Vec<ToolCall>, ids: &Vec<String>, Ghost(a): Ghost<Set<Seq<char>>>) -> (r:
    Vec<String>)
    requires
        forall|id: Seq<char>|
            a.contains(id) <==> exists|k: int| 0 <= k < ids@.len() && (#[trigger] ids@[k])@ == id,
    ensures
        r@.map_values(|s: String| s@) == unanswered_ids(tool_calls_view(tcs@), a),
{
    let ghost tv = tool_calls_view(tcs@);
    let mut out: Vec<String> = Vec::new();
    let mut j: usize = 0;
    while j < tcs.len()
        invariant
            j <= tcs.len(),
            tv == tool_calls_view(tcs@),
            forall|id: Seq<char>|
                a.contains(id) <==> exists|k: int| 0 <= k < ids@.len() && (#[trigger] ids@[k])@ == id,
            out@.map_values(|s: String| s@) == unanswered_ids(tv.subrange(0, j as int), a),
        decreases tcs.len() - j,
    {
        proof {
            assert(tv[j as int] == tcs@[j as int]@);
            assert(tv.subrange(0, j as int + 1).drop_last() =~= tv.subrange(0, j as int));
        }
        if !ids_contain(ids, &tcs[j].id) {
            let ghost before = out@;
            out.push(tcs[j].id.clone());
            proof {
                assert(out@.map_values(|s: String| s@) =~= before.map_values(|s: String| s@).push(
                    tcs@[j as int].id@,
                ));
            }
        }
        j = j + 1;
    }
    proof {
        assert(tv.subrange(0, tv.len() as int) =~= tv);
    }
    out
}

proof fn lemma_leading_tools_step(ms: Seq<MessageView>, lo: int)
    requires
        0 <= lo < ms.len(),
        ms[lo].role == MessageRole::Tool,
    ensures
        leading_tools(ms.subrange(lo, ms.len() as int)) == 1 + leading_tools(
            ms.subrange(lo + 1, ms.len() as int),
        ),
{
    assert(ms.subrange(lo, ms.len() as int).drop_first() =~= ms.subrange(lo + 1, ms.len() as int));
}

/// Remove tool messages whose assistant call was not loaded, remove trailing
/// assistant messages whose calls are not all answered, and, for assistant
/// messages in the middle of the history whose calls are only partly
/// answered, inject stub tool results, so that the LLM API never receives an
/// invalid sequence.
pub fn drop_orphaned_tool_messages(messages: &mut Vec<ChatMessage>)
    ensures
        messages_view(final(messages)@) == orphan_repair(messages_view(old(messages)@)),
{
    let ghost mv = messages_view(messages@);
    // Ids of all calls made by assistant messages.
    let mut known: Vec<String> = Vec::new();
    let mut i: usize = 0;
    while i < messages.len()
        invariant
            i <= messages.len(),
            mv == messages_view(messages@),
            forall|id: Seq<char>|
                known_ids(mv.subrange(0, i as int)).contains(id) <==> exists|k: int|
                    0 <= k < known@.len() && (#[trigger] known@[k])@ == id,
        decreases messages.len() - i,
    {
        proof {
            assert(mv[i as int] == messages@[i as int]@);
        }
        let ghost before = known@;
        if messages[i].role == MessageRole::Assistant {
            match &messages[i].tool_calls {
                Some(tcs) => {
                    let ghost tv = tool_calls_view(tcs@);
                    let mut j: usize = 0;
                    while j < tcs.len()
                        invariant
                            j <= tcs.len(),
                            tv == tool_calls_view(tcs@),
                            known@.len() == before.len() + j,
                            forall|k: int| 0 <= k < before.len() ==> known@[k] == before[k],
                            forall|k: int|
                                0 <= k < j ==> (#[trigger] known@[before.len() + k])@ == tv[k].id,
                        decreases tcs.len() - j,
                    {
                        known.push(tcs[j].id.clone());
                        j = j + 1;
                    }
                    proof {
                        let p = mv.subrange(0, i as int + 1);
                        assert forall|id: Seq<char>|
                            known_ids(p).contains(id) <==> exists|k: int|
                                0 <= k < known@.len() && (#[trigger] known@[k])@ == id by {
                            if known_ids(p).contains(id) {
                                let q = choose|q: int|
                                    0 <= q < p.len() && is_calling(#[trigger] p[q]) && has_call_id(
                                        p[q].tool_calls->0,
                                        id,
                                    );
                                if q < i {
                                    assert(mv.subrange(0, i as int)[q] == p[q]);
                                    assert(known_ids(mv.subrange(0, i as int)).contains(id));
                                    let k = choose|k: int|
                                        0 <= k < before.len() && (#[trigger] before[k])@ == id;
                                    assert(known@[k] == before[k]);
                                } else {
                                    let jj = choose|jj: int|
                                        0 <= jj < tv.len() && #[trigger] tv[jj].id == id;
                                    assert(known@[before.len() + jj]@ == id);
                                }
                            }
                            if exists|k: int| 0 <= k < known@.len() && (#[trigger] known@[k])@ == id {
                                let k = choose|k: int|
                                    0 <= k < known@.len() && (#[trigger] known@[k])@ == id;
                                if k < before.len() {
                                    assert(known@[k] == before[k]);
                                    assert(known_ids(mv.subrange(0, i as int)).contains(id));
                                    let q = choose|q: int|
                                        0 <= q < i && is_calling(
                                            #[trigger] mv.subrange(0, i as int)[q],
                                        ) && has_call_id(
                                            mv.subrange(0, i as int)[q].tool_calls->0,
                                            id,
                                        );
                                    assert(p[q] == mv.subrange(0, i as int)[q]);
                                } else {
                                    let jj = k - before.len();
                                    assert(known@[before.len() + jj]@ == tv[jj].id);
                                    assert(p[i as int] == mv[i as int]);
                                    assert(has_call_id(p[i as int].tool_calls->0, id));
                                }
                            }
                        }
                    }
                },
                None => {
                    proof {
                        let p = mv.subrange(0, i as int + 1);
                        assert forall|id: Seq<char>|
                            known_ids(p).contains(id) <==> known_ids(
                                mv.subrange(0, i as int),
                            ).contains(id) by {
                            if known_ids(p).contains(id) {
                                let q = choose|q: int|
                                    0 <= q < p.len() && is_calling(#[trigger] p[q]) && has_call_id(
                                        p[q].tool_calls->0,
                                        id,
                                    );
                                assert(mv.subrange(0, i as int)[q] == p[q]);
                            }
                            if known_ids(mv.subrange(0, i as int)).contains(id) {
                                let q = choose|q: int|
                                    0 <= q < i && is_calling(
                                        #[trigger] mv.subrange(0, i as int)[q],
                                    ) && has_call_id(mv.subrange(0, i as int)[q].tool_calls->0, id);
                                assert(p[q] == mv.subrange(0, i as int)[q]);
                            }
                        }
                    }
                },
            }
        } else {
            proof {
                let p = mv.subrange(0, i as int + 1);
                assert forall|id: Seq<char>|
                    known_ids(p).contains(id) <==> known_ids(mv.subrange(0, i as int)).contains(
                        id,
                    ) by {
                    if known_ids(p).contains(id) {
                        let q = choose|q: int|
                            0 <= q < p.len() && is_calling(#[trigger] p[q]) && has_call_id(
                                p[q].tool_calls->0,
                                id,
                            );
                        assert(mv.subrange(0, i as int)[q] == p[q]);
                    }
                    if known_ids(mv.subrange(0, i as int)).contains(id) {
                        let q = choose|q: int|
                            0 <= q < i && is_calling(#[trigger] mv.subrange(0, i as int)[q])
                                && has_call_id(mv.subrange(0, i as int)[q].tool_calls->0, id);
                        assert(p[q] == mv.subrange(0, i as int)[q]);
                    }
                }
            }
        }
        i = i + 1;
    }
    proof {
        assert(mv.subrange(0, mv.len() as int) =~= mv);
    }
    let ghost known_set = known_ids(mv);
    // Keep everything but tool messages whose call id is unknown.
    let mut kept: Vec<ChatMessage> = Vec::new();
    let mut i: usize = 0;
    while i < messages.len()
        invariant
            i <= messages.len(),
            mv == messages_view(messages@),
            known_set == known_ids(mv),
            forall|id: Seq<char>|
                known_set.contains(id) <==> exists|k: int|
                    0 <= k < known@.len() && (#[trigger] known@[k])@ == id,
            messages_view(kept@) == retained(mv.subrange(0, i as int), known_set),
        decreases messages.len() - i,
    {
        proof {
            assert(mv[i as int] == messages@[i as int]@);
            assert(mv.subrange(0, i as int + 1).drop_last() =~= mv.subrange(0, i as int));
        }
        let keep = if messages[i].role != MessageRole::Tool {
            true
        } else {
            match &messages[i].tool_call_id {
                Some(id) => ids_contain(&known, id),
                None => true,
            }
        };
        if keep {
            let ghost before = kept@;
            let c = messages[i].clone();
            kept.push(c);
            proof {
                assert(messages_view(kept@) =~= messages_view(before).push(c@));
            }
        }
        i = i + 1;
    }
    proof {
        assert(mv.subrange(0, mv.len() as int) =~= mv);
    }
    let ghost rv = messages_view(kept@);
    // Ids answered by the remaining tool messages.
    let mut answered: Vec<String> = Vec::new();
    let mut i: usize = 0;
    while i < kept.len()
        invariant
            i <= kept.len(),
            rv == messages_view(kept@),
            forall|id: Seq<char>|
                answered_ids(rv.subrange(0, i as int)).contains(id) <==> exists|k: int|
                    0 <= k < answered@.len() && (#[trigger] answered@[k])@ == id,
        decreases kept.len() - i,
    {
        proof {
            assert(rv[i as int] == kept@[i as int]@);
        }
        let ghost before = answered@;
        if kept[i].role == MessageRole::Tool {
            match &kept[i].tool_call_id {
                Some(id) => {
                    answered.push(id.clone());
                },
                None => {},
            }
        }
        proof {
            let p = rv.subrange(0, i as int + 1);
            let p0 = rv.subrange(0, i as int);
            assert forall|id: Seq<char>|
                answered_ids(p).contains(id) <==> exists|k: int|
                    0 <= k < answered@.len() && (#[trigger] answered@[k])@ == id by {
                if answered_ids(p).contains(id) {
                    let q = choose|q: int|
                        0 <= q < p.len() && (#[trigger] p[q]).role == MessageRole::Tool
                            && p[q].tool_call_id == Some(id);
                    if q < i {
                        assert(p0[q] == p[q]);
                        assert(answered_ids(p0).contains(id));
                        let k = choose|k: int| 0 <= k < before.len() && (#[trigger] before[k])@ == id;
                        assert(answered@[k] == before[k]);
                    } else {
                        assert(answered@[before.len() as int]@ == id);
                    }
                }
                if exists|k: int| 0 <= k < answered@.len() && (#[trigger] answered@[k])@ == id {
                    let k = choose|k: int| 0 <= k < answered@.len() && (#[trigger] answered@[k])@ == id;
                    if k < before.len() {
                        assert(answered@[k] == before[k]);
                        assert(answered_ids(p0).contains(id));
                        let q = choose|q: int|
                            0 <= q < p0.len() && (#[trigger] p0[q]).role == MessageRole::Tool
                                && p0[q].tool_call_id == Some(id);
                        assert(p[q] == p0[q]);
                    } else {
                        assert(p[i as int] == rv[i as int]);
                    }
                }
            }
        }
        i = i + 1;
    }
    proof {
        assert(rv.subrange(0, rv.len() as int) =~= rv);
    }
    let ghost aset = answered_ids(rv);
    // Drop trailing assistant messages whose calls are not all answered.
    let mut done = false;
    while !done && kept.len() > 0
        invariant
            trimmed(messages_view(kept@), aset) == trimmed(rv, aset),
            forall|id: Seq<char>|
                aset.contains(id) <==> exists|k: int|
                    0 <= k < answered@.len() && (#[trigger] answered@[k])@ == id,
            done ==> trimmed(messages_view(kept@), aset) == messages_view(kept@),
        decreases kept.len() + if done { 0int } else { 1int },
    {
        let last = kept.len() - 1;
        proof {
            assert(messages_view(kept@).last() == kept@[last as int]@);
        }
        let drop = if kept[last].role == MessageRole::Assistant {
            match &kept[last].tool_calls {
                Some(tcs) => !calls_answered(tcs, &answered, Ghost(aset)),
                None => false,
            }
        } else {
            false
        };
        if drop {
            let ghost before = kept@;
            kept.pop();
            proof {
                assert(messages_view(kept@) =~= messages_view(before).drop_last());
            }
        } else {
            done = true;
        }
    }
    let ghost tv = messages_view(kept@);
    // Inject stub results for unanswered calls.
    let mut out: Vec<ChatMessage> = Vec::new();
    let ghost mut acur = aset;
    let mut i: usize = 0;
    proof {
        assert(tv.subrange(0, tv.len() as int) =~= tv);
        assert(messages_view(out@) =~= Seq::<MessageView>::empty());
        assert(messages_view(out@) + tv =~= tv);
    }
    while i < kept.len()
        invariant
            i <= kept.len(),
            tv == messages_view(kept@),
            forall|id: Seq<char>|
                acur.contains(id) <==> exists|k: int|
                    0 <= k < answered@.len() && (#[trigger] answered@[k])@ == id,
            insert_stubs(tv, aset) == messages_view(out@) + insert_stubs(
                tv.subrange(i as int, tv.len() as int),
                acur,
            ),
        decreases kept.len() - i,
    {
        let ghost rest_i = tv.subrange(i as int, tv.len() as int);
        proof {
            assert(rest_i[0] == kept@[i as int]@);
            assert(rest_i.drop_first() =~= tv.subrange(i as int + 1, tv.len() as int));
        }
        let unanswered: Vec<String> = if kept[i].role == MessageRole::Assistant {
            match &kept[i].tool_calls {
                Some(tcs) => unanswered_calls(tcs, &answered, Ghost(acur)),
                None => Vec::new(),
            }
        } else {
            Vec::new()
        };
        proof {
            if !is_calling(rest_i[0]) {
                assert(unanswered@.map_values(|s: String| s@).len() == 0);
            }
        }
        if unanswered.len() > 0 {
            let ghost u = unanswered@.map_values(|s: String| s@);
            let mut j = i + 1;
            while j < kept.len() && kept[j].role == MessageRole::Tool
                invariant
                    i + 1 <= j <= kept.len(),
                    tv == messages_view(kept@),
                    leading_tools(tv.subrange(i as int + 1, tv.len() as int)) == (j - i - 1)
                        + leading_tools(tv.subrange(j as int, tv.len() as int)),
                decreases kept.len() - j,
            {
                proof {
                    assert(tv[j as int] == kept@[j as int]@);
                    lemma_leading_tools_step(tv, j as int);
                }
                j = j + 1;
            }
            proof {
                if j < kept.len() {
                    assert(tv[j as int] == kept@[j as int]@);
                }
                assert(leading_tools(tv.subrange(j as int, tv.len() as int)) == 0);
            }
            let ghost before = out@;
            let mut k = i;
            while k < j
                invariant
                    i <= k <= j <= kept.len(),
                    tv == messages_view(kept@),
                    messages_view(out@) == messages_view(before) + tv.subrange(i as int, k as int),
                decreases j - k,
            {
                let c = kept[k].clone();
                let ghost o = out@;
                out.push(c);
                proof {
                    assert(tv[k as int] == kept@[k as int]@);
                    assert(messages_view(out@) =~= messages_view(o).push(c@));
                    assert(tv.subrange(i as int, k as int + 1) =~= tv.subrange(i as int, k as int).push(
                        tv[k as int],
                    ));
                }
                k = k + 1;
            }
            let ghost mid = out@;
            let mut q: usize = 0;
            while q < unanswered.len()
                invariant
                    q <= unanswered.len(),
                    u == unanswered@.map_values(|s: String| s@),
                    messages_view(out@) == messages_view(mid) + u.subrange(0, q as int).map_values(
                        |id: Seq<char>| stub_for(id),
                    ),
                decreases unanswered.len() - q,
            {
                let stub = ChatMessage {
                    role: MessageRole::Tool,
                    content: Some(
                        MessageContent::Text(
                            owned(
                                "[Tool result unavailable \u{2014} execution was interrupted. Re-call the tool if needed.]",
                            ),
                        ),
                    ),
                    name: None,
                    tool_calls: None,
                    tool_call_id: Some(unanswered[q].clone()),
                    reasoning_content: None,
                };
                let ghost o = out@;
                out.push(stub);
                proof {
                    assert(stub@ == stub_for(u[q as int]));
                    assert(messages_view(out@) =~= messages_view(o).push(stub@));
                    assert(u.subrange(0, q as int + 1).map_values(|id: Seq<char>| stub_for(id))
                        =~= u.subrange(0, q as int).map_values(|id: Seq<char>| stub_for(id)).push(
                        stub_for(u[q as int]),
                    ));
                }
                q = q + 1;
            }
            let ghost old_acur = acur;
            let ghost old_len = answered@.len();
            let mut q: usize = 0;
            while q < unanswered.len()
                invariant
                    q <= unanswered.len(),
                    u == unanswered@.map_values(|s: String| s@),
                    answered@.len() == old_len + q,
                    forall|id: Seq<char>|
                        old_acur.contains(id) <==> exists|k: int|
                            0 <= k < old_len && (#[trigger] answered@[k])@ == id,
                    forall|k: int| 0 <= k < q ==> (#[trigger] answered@[old_len + k])@ == u[k],
                decreases unanswered.len() - q,
            {
                let ghost a0 = answered@;
                answered.push(unanswered[q].clone());
                proof {
                    assert forall|id: Seq<char>|
                        old_acur.contains(id) <==> exists|k: int|
                            0 <= k < old_len && (#[trigger] answered@[k])@ == id by {
                        if old_acur.contains(id) {
                            let k = choose|k: int| 0 <= k < old_len && (#[trigger] a0[k])@ == id;
                            assert(answered@[k] == a0[k]);
                        }
                        if exists|k: int| 0 <= k < old_len && (#[trigger] answered@[k])@ == id {
                            let k = choose|k: int| 0 <= k < old_len && (#[trigger] answered@[k])@ == id;
                            assert(answered@[k] == a0[k]);
                        }
                    }
                    assert forall|k: int| 0 <= k < q + 1 implies (#[trigger] answered@[old_len + k])@
                        == u[k] by {
                        if k < q {
                            assert(answered@[old_len + k] == a0[old_len + k]);
                        }
                    }
                }
                q = q + 1;
            }
            proof {
                acur = with_ids(old_acur, u);
                assert forall|id: Seq<char>|
                    acur.contains(id) <==> exists|k: int|
                        0 <= k < answered@.len() && (#[trigger] answered@[k])@ == id by {
                    if acur.contains(id) {
                        if old_acur.contains(id) {
                            let k = choose|k: int| 0 <= k < old_len && (#[trigger] answered@[k])@ == id;
                        } else {
                            let w = choose|w: int| 0 <= w < u.len() && u[w] == id;
                            assert(answered@[old_len + w]@ == u[w]);
                        }
                    }
                    if exists|k: int| 0 <= k < answered@.len() && (#[trigger] answered@[k])@ == id {
                        let k = choose|k: int| 0 <= k < answered@.len() && (#[trigger] answered@[k])@ == id;
                        if k >= old_len {
                            assert(answered@[old_len + (k - old_len)]@ == u[k - old_len]);
                            assert(u.contains(id));
                        }
                    }
                }
                let rest = rest_i.drop_first();
                let n = leading_tools(rest);
                assert(n == j - i - 1);
                assert(rest.take(n as int) =~= tv.subrange(i as int + 1, j as int));
                assert(rest.skip(n as int) =~= tv.subrange(j as int, tv.len() as int));
                assert(u.subrange(0, u.len() as int) =~= u);
                assert(tv.subrange(i as int, j as int) =~= seq![rest_i[0]] + tv.subrange(
                    i as int + 1,
                    j as int,
                ));
                assert(messages_view(out@) =~= messages_view(before) + seq![rest_i[0]]
                    + rest.take(n as int) + u.map_values(|id: Seq<char>| stub_for(id)));
            }
            i = j;
        } else {
            let c = kept[i].clone();
            let ghost o = out@;
            out.push(c);
            proof {
                assert(messages_view(out@) =~= messages_view(o).push(c@));
                assert(messages_view(out@) =~= messages_view(o) + seq![rest_i[0]]);
            }
            i = i + 1;
        }
    }
    proof {
        assert(tv.subrange(kept.len() as int, tv.len() as int) =~= Seq::<MessageView>::empty());
        assert(messages_view(out@) =~= insert_stubs(tv, aset));
    }
    *messages = out;
}


// ─── Summarizing dropped turns ─────────────────────────────────────────────

/// Whether a message is the notice left where old turns were dropped.
pub open spec fn is_snip_notice(m: MessageView) -> bool {
    m.role == MessageRole::System && match m.content {
        Some(c) => has_substring(content_text(c), "earlier messages omitted"@),
        None => false,
    }
}

/// Position of the first notice of dropped turns.
pub open spec fn first_snip_notice(ms: Seq<MessageView>) -> Option<nat>
    decreases ms.len(),
{
    if ms.len() == 0 {
        None
    } else {
        match first_snip_notice(ms.drop_last()) {
            Some(i) => Some(i),
            None => if is_snip_notice(ms.last()) {
                Some((ms.len() - 1) as nat)
            } else {
                None
            },
        }
    }
}

proof fn lemma_first_snip_prefix(ms: Seq<MessageView>, j: int)
    requires
        0 <= j <= ms.len(),
        first_snip_notice(ms.subrange(0, j)) is Some,
    ensures
        first_snip_notice(ms) == first_snip_notice(ms.subrange(0, j)),
    decreases ms.len() - j,
{
    if j < ms.len() {
        assert(ms.subrange(0, j + 1).drop_last() =~= ms.subrange(0, j));
        lemma_first_snip_prefix(ms, j + 1);
    } else {
        assert(ms.subrange(0, j) =~= ms);
    }
}

/// Find the notice of dropped turns.
pub fn find_snip_notice(messages: &Vec<ChatMessage>) -> (r: Option<usize>)
    ensures
        match r {
            Some(i) => first_snip_notice(messages_view(messages@)) == Some(i as nat),
            None => first_snip_notice(messages_view(messages@)) is None,
        },
{
    let ghost mv = messages_view(messages@);
    let mut i: usize = 0;
    while i < messages.len()
        invariant
            i <= messages.len(),
            mv == messages_view(messages@),
            first_snip_notice(mv.subrange(0, i as int)) is None,
        decreases messages.len() - i,
    {
        let m = &messages[i];
        let hit = match m.role {
            MessageRole::System => match &m.content {
                Some(c) => str_contains(c.as_text().as_str(), "earlier messages omitted"),
                None => false,
            },
            _ => false,
        };
        proof {
            assert(mv.subrange(0, i as int + 1).drop_last() =~= mv.subrange(0, i as int));
            assert(mv.subrange(0, i as int + 1).last() == m@);
        }
        if hit {
            proof {
                lemma_first_snip_prefix(mv, i as int + 1);
            }
            return Some(i);
        }
        i = i + 1;
    }
    proof {
        assert(mv.subrange(0, mv.len() as int) =~= mv);
    }
    None
}

/// How a role is named in a summary source.
pub open spec fn role_label(r: MessageRole) -> Seq<char> {
    match r {
        MessageRole::User => "User"@,
        MessageRole::Assistant => "Assistant"@,
        MessageRole::System => "System"@,
        MessageRole::Tool => "Tool"@,
        MessageRole::Other => "Other"@,
    }
}

fn role_label_str(r: MessageRole) -> (s: &'static str)
    ensures
        s@ == role_label(r),
{
    match r {
        MessageRole::User => "User",
        MessageRole::Assistant => "Assistant",
        MessageRole::System => "System",
        MessageRole::Tool => "Tool",
        MessageRole::Other => "Other",
    }
}

/// One line per message with content: its role, a colon and its text.
pub open spec fn summary_lines(ms: Seq<MessageView>) -> Seq<Seq<char>>
    decreases ms.len(),
{
    if ms.len() == 0 {
        Seq::empty()
    } else {
        let rest = summary_lines(ms.drop_last());
        match ms.last().content {
            Some(c) => rest.push(role_label(ms.last().role) + ": "@ + content_text(c)),
            None => rest,
        }
    }
}

/// The messages a summary is made from: those before the notice at `stub`
/// and the four after it.
pub open spec fn summary_window(ms: Seq<MessageView>, stub: int) -> Seq<MessageView> {
    let end = if stub + 5 < ms.len() {
        stub + 5
    } else {
        ms.len() as int
    };
    ms.subrange(0, stub) + ms.subrange(stub + 1, end)
}

/// The text a summary is made from.
pub open spec fn summary_source_text(ms: Seq<MessageView>, stub: int) -> Seq<char> {
    join_spec(summary_lines(summary_window(ms, stub)), "\n"@)
}

/// The text to summarize around the notice at `stub`.
pub fn summary_source(messages: &Vec<ChatMessage>, stub: usize) -> (r: String)
    requires
        stub < messages.len(),
    ensures
        r@ == summary_source_text(messages_view(messages@), stub as int),
{
    let ghost mv = messages_view(messages@);
    let n = messages.len();
    let end = if n - stub > 5 {
        stub + 5
    } else {
        n
    };
    let ghost win = summary_window(mv, stub as int);
    let mut lines: Vec<String> = Vec::new();
    let mut i: usize = 0;
    let mut k: usize = 0;
    proof {
        assert(strings_view(lines@) =~= summary_lines(win.subrange(0, 0)));
    }
    while i < n
        invariant
            i <= n,
            n == messages.len(),
            end <= n,
            stub < n,
            end as int == if stub + 5 < n { stub + 5 } else { n as int },
            mv == messages_view(messages@),
            win == summary_window(mv, stub as int),
            win.len() == stub + (end - stub - 1),
            k as int == if i <= stub { i as int } else if i <= end { i - 1 } else { end - 1 },
            strings_view(lines@) == summary_lines(win.subrange(0, k as int)),
        decreases n - i,
    {
        if i != stub && i < end {
            let ghost before = lines@;
            proof {
                assert(win[k as int] == mv[i as int]);
                assert(win.subrange(0, k as int + 1).drop_last() =~= win.subrange(0, k as int));
                assert(win.subrange(0, k as int + 1).last() == mv[i as int]);
            }
            match &messages[i].content {
                Some(c) => {
                    let mut line = owned(role_label_str(messages[i].role));
                    line.append(": ");
                    line.append(c.as_text().as_str());
                    lines.push(line);
                    proof {
                        assert(strings_view(lines@) =~= strings_view(before).push(line@));
                    }
                },
                None => {},
            }
            k = k + 1;
        }
        i = i + 1;
    }
    proof {
        assert(win.subrange(0, k as int) =~= win);
    }
    join(&lines, "\n")
}

/// The request for a summary of `source`.
pub open spec fn summary_prompt_text(source: Seq<char>) -> Seq<char> {
    "Summarize this conversation history concisely (max 3 sentences). Focus on what the user asked for and what actions were taken:\n\n"@
        + source
}

/// The request for a summary of `source`.
pub fn summary_prompt(source: &str) -> (r: String)
    ensures
        r@ == summary_prompt_text(source@),
{
    let mut p = owned(
        "Summarize this conversation history concisely (max 3 sentences). Focus on what the user asked for and what actions were taken:\n\n",
    );
    p.append(source);
    p
}

/// The message that replaces the notice once a summary was made.
pub open spec fn summary_message(summary: Seq<char>) -> MessageView {
    text_message(MessageRole::System, "[Conversation summary: "@ + trim_spec(summary) + "]"@)
}

/// Put a summary in place of the notice at `stub`; an empty summary keeps
/// the notice. Returns whether the notice was replaced.
pub fn apply_summary(messages: &mut Vec<ChatMessage>, stub: usize, summary: &str) -> (r: bool)
    requires
        stub < old(messages)@.len(),
    ensures
        r == (summary@.len() > 0),
        messages_view(final(messages)@) == if r {
            messages_view(old(messages)@).update(stub as int, summary_message(summary@))
        } else {
            messages_view(old(messages)@)
        },
{
    if summary.is_empty() {
        return false;
    }
    let mut t = owned("[Conversation summary: ");
    t.append(trim(summary).as_str());
    t.append("]");
    let m = ChatMessage::text(MessageRole::System, t);
    let ghost before = messages@;
    messages.set(stub, m);
    proof {
        assert(messages_view(messages@) =~= messages_view(before).update(stub as int, m@));
    }
    true
}
} // verus!
