//! Session replay: preparing saved requests for another run through the
//! gateway, optionally with a different system prompt.

use vstd::prelude::*;
use vstd::string::*;

use crate::messages::{
    messages_view, text_message, ChatMessage, ContentView, MessageContent, MessageRole, MessageView,
};
use crate::errors::{ApiError, ApiErrorView};
use crate::text::{decimal, decimal_string, owned, str_eq};

verus! {

/// A saved request: its messages as stored (JSON), the response and the model.
pub struct SavedRequest {
    pub request_messages: String,
    pub response_content: String,
    pub gen_ai_request_model: String,
}

/// Outcome of replaying one request through the gateway.
pub struct ReplayedRequest {
    pub content: String,
    pub model: String,
    pub prompt_tokens: u32,
    pub completion_tokens: u32,
    pub latency_ms: u64,
    /// The last user message text (for judge evaluation).
    pub last_user_query: String,
}

/// Messages ready to be sent to the gateway, with extracted metadata.
pub struct PreparedMessages {
    pub messages: Vec<ChatMessage>,
    pub last_user_query: String,
    pub original_model: String,
}

/// Whether a system message occurs.
pub open spec fn has_system(ms: Seq<MessageView>) -> bool {
    exists|i: int| 0 <= i < ms.len() && (#[trigger] ms[i]).role == MessageRole::System
}

/// The messages with the first system message replaced by the override
/// text and later system messages dropped.
pub open spec fn swapped(ms: Seq<MessageView>, t: Seq<char>) -> Seq<MessageView>
    decreases ms.len(),
{
    if ms.len() == 0 {
        Seq::empty()
    } else {
        let r = swapped(ms.drop_last(), t);
        if ms.last().role == MessageRole::System {
            if has_system(ms.drop_last()) {
                r
            } else {
                r.push(text_message(MessageRole::System, t))
            }
        } else {
            r.push(ms.last())
        }
    }
}

/// The messages to replay: unchanged without an override; with one, the
/// system prompt is swapped for it, or put first when there was none.
pub open spec fn replay_messages(ms: Seq<MessageView>, over: Option<Seq<char>>) -> Seq<MessageView> {
    match over {
        None => ms,
        Some(t) => if has_system(ms) {
            swapped(ms, t)
        } else {
            seq![text_message(MessageRole::System, t)] + ms
        },
    }
}

/// The text of the last user message with plain-text content, or nothing.
pub open spec fn last_user_text(ms: Seq<MessageView>) -> Seq<char>
    decreases ms.len(),
{
    if ms.len() == 0 {
        Seq::empty()
    } else {
        match ms.last().content {
            Some(ContentView::Text(t)) if ms.last().role == MessageRole::User => t,
            _ => last_user_text(ms.drop_last()),
        }
    }
}

/// Without system messages, swapping changes nothing.
proof fn lemma_swapped_no_system(ms: Seq<MessageView>, t: Seq<char>)
    requires
        !has_system(ms),
    ensures
        swapped(ms, t) == ms,
    decreases ms.len(),
{
    if ms.len() > 0 {
        assert(!has_system(ms.drop_last())) by {
            if has_system(ms.drop_last()) {
                let i = choose|i: int|
                    0 <= i < ms.drop_last().len() && (#[trigger] ms.drop_last()[i]).role
                        == MessageRole::System;
                assert(ms[i] == ms.drop_last()[i]);
            }
        }
        lemma_swapped_no_system(ms.drop_last(), t);
        assert(ms.last() == ms[ms.len() - 1]);
        assert(ms.drop_last().push(ms.last()) =~= ms);
    }
}

/// Number of system messages.
pub open spec fn system_count(ms: Seq<MessageView>) -> nat
    decreases ms.len(),
{
    if ms.len() == 0 {
        0
    } else {
        system_count(ms.drop_last()) + if ms.last().role == MessageRole::System {
            1nat
        } else {
            0nat
        }
    }
}

proof fn lemma_system_count_concat(a: Seq<MessageView>, b: Seq<MessageView>)
    ensures
        system_count(a + b) == system_count(a) + system_count(b),
    decreases b.len(),
{
    if b.len() == 0 {
        assert(a + b =~= a);
    } else {
        lemma_system_count_concat(a, b.drop_last());
        assert((a + b).drop_last() =~= a + b.drop_last());
        assert((a + b).last() == b.last());
    }
}

proof fn lemma_has_system_last(ms: Seq<MessageView>)
    requires
        ms.len() > 0,
    ensures
        has_system(ms) == (has_system(ms.drop_last()) || ms.last().role == MessageRole::System),
{
    let d = ms.drop_last();
    if has_system(ms) && ms.last().role != MessageRole::System {
        let i = choose|i: int| 0 <= i < ms.len() && (#[trigger] ms[i]).role == MessageRole::System;
        assert(d[i] == ms[i]);
    }
    if has_system(d) {
        let i = choose|i: int| 0 <= i < d.len() && (#[trigger] d[i]).role == MessageRole::System;
        assert(ms[i] == d[i]);
    }
    if ms.last().role == MessageRole::System {
        assert(ms[ms.len() - 1].role == MessageRole::System);
    }
}

proof fn lemma_no_system_count(ms: Seq<MessageView>)
    requires
        !has_system(ms),
    ensures
        system_count(ms) == 0,
    decreases ms.len(),
{
    if ms.len() > 0 {
        lemma_has_system_last(ms);
        lemma_no_system_count(ms.drop_last());
    }
}

proof fn lemma_swapped_systems(ms: Seq<MessageView>, t: Seq<char>)
    ensures
        system_count(swapped(ms, t)) == if has_system(ms) {
            1nat
        } else {
            0nat
        },
        forall|i: int|
            0 <= i < swapped(ms, t).len() && (#[trigger] swapped(ms, t)[i]).role
                == MessageRole::System ==> swapped(ms, t)[i] == text_message(MessageRole::System, t),
    decreases ms.len(),
{
    if ms.len() == 0 {
        assert(!has_system(ms));
    } else {
        let d = ms.drop_last();
        lemma_swapped_systems(d, t);
        lemma_has_system_last(ms);
        let r = swapped(d, t);
        if ms.last().role == MessageRole::System {
            if !has_system(d) {
                let x = text_message(MessageRole::System, t);
                assert(r.push(x).drop_last() =~= r);
                assert forall|i: int|
                    0 <= i < r.push(x).len() && (#[trigger] r.push(x)[i]).role == MessageRole::System
                        implies r.push(x)[i] == x by {
                    if i < r.len() {
                        assert(r.push(x)[i] == r[i]);
                    }
                }
            }
        } else {
            let x = ms.last();
            assert(r.push(x).drop_last() =~= r);
            assert forall|i: int|
                0 <= i < r.push(x).len() && (#[trigger] r.push(x)[i]).role == MessageRole::System
                    implies r.push(x)[i] == text_message(MessageRole::System, t) by {
                assert(r.push(x)[i] == r[i]);
            }
        }
    }
}

/// With a system prompt override, the replayed request holds exactly one
/// system message, and it carries the override.
pub proof fn lemma_replay_one_system(ms: Seq<MessageView>, t: Seq<char>)
    ensures
        system_count(replay_messages(ms, Some(t))) == 1,
        forall|i: int|
            0 <= i < replay_messages(ms, Some(t)).len() && (#[trigger] replay_messages(
                ms,
                Some(t),
            )[i]).role == MessageRole::System ==> replay_messages(ms, Some(t))[i] == text_message(
                MessageRole::System,
                t,
            ),
{
    if has_system(ms) {
        lemma_swapped_systems(ms, t);
    } else {
        let x = text_message(MessageRole::System, t);
        lemma_system_count_concat(seq![x], ms);
        lemma_no_system_count(ms);
        assert(seq![x].drop_last() =~= Seq::<MessageView>::empty());
        assert(system_count(seq![x].drop_last()) == 0);
        assert(seq![x].last() == x);
        assert(system_count(seq![x]) == 1);
        assert forall|i: int|
            0 <= i < (seq![x] + ms).len() && (#[trigger] (seq![x] + ms)[i]).role
                == MessageRole::System implies (seq![x] + ms)[i] == x by {
            if i > 0 {
                assert((seq![x] + ms)[i] == ms[i - 1]);
                assert(ms[i - 1].role == MessageRole::System);
            }
        }
    }
}

/// Prepare parsed stored messages for replay with an optional system prompt
/// override; the last user query and the original model come along.
pub fn prepare_parsed(stored: Vec<ChatMessage>, system_prompt_override: Option<&str>, model: &str) -> (r:
    PreparedMessages)
    ensures
        messages_view(r.messages@) == replay_messages(
            messages_view(stored@),
            match system_prompt_override {
                Some(t) => Some(t@),
                None => None,
            },
        ),
        r.last_user_query@ == last_user_text(messages_view(stored@)),
        r.original_model@ == model@,
{
    let ghost sv = messages_view(stored@);
    let mut messages: Vec<ChatMessage> = Vec::new();
    let mut last_user_query = String::new();
    let mut system_replaced = false;
    let mut rest = stored;
    let mut taken: Vec<ChatMessage> = Vec::new();
    let total = rest.len();
    let ghost n = sv.len();
    let ghost t: Seq<char> = match system_prompt_override {
        Some(o) => o@,
        None => Seq::empty(),
    };
    proof {
        assert(sv.subrange(0, n as int) =~= sv);
    }
    let mut i: usize = 0;
    while rest.len() > 0
        invariant
            n == sv.len(),
            n == total,
            i + rest@.len() == n,
            messages_view(rest@) == sv.subrange(i as int, n as int),
            last_user_query@ == last_user_text(sv.subrange(0, i as int)),
            system_replaced == has_system(sv.subrange(0, i as int)),
            t == (match system_prompt_override {
                Some(o) => o@,
                None => Seq::<char>::empty(),
            }),
            system_prompt_override is None ==> messages_view(messages@) == sv.subrange(0, i as int),
            system_prompt_override is Some ==> messages_view(messages@) == swapped(
                sv.subrange(0, i as int),
                t,
            ),
        decreases rest.len(),
    {
        let ghost rest0 = rest@;
        let msg = rest.remove(0);
        let ghost pre = sv.subrange(0, i as int);
        let ghost post = sv.subrange(0, i as int + 1);
        proof {
            assert(messages_view(rest0)[0] == rest0[0]@);
            assert(msg@ == sv[i as int]);
            assert(post.drop_last() =~= pre);
            assert(post.last() == sv[i as int]);
            assert forall|k: int| 0 <= k < rest@.len() implies messages_view(rest@)[k] == sv.subrange(i as int + 1, n as int)[k] by {
                assert(rest@[k] == rest0[k + 1]);
                assert(messages_view(rest0)[k + 1] == rest0[k + 1]@);
            }
            assert(messages_view(rest@) =~= sv.subrange(i as int + 1, n as int));
            assert(has_system(post) == (has_system(pre) || msg@.role == MessageRole::System)) by {
                if has_system(post) && !has_system(pre) {
                    let j = choose|j: int| 0 <= j < post.len() && (#[trigger] post[j]).role == MessageRole::System;
                    if j < i {
                        assert(pre[j] == post[j]);
                    }
                }
                if has_system(pre) {
                    let j = choose|j: int| 0 <= j < pre.len() && (#[trigger] pre[j]).role == MessageRole::System;
                    assert(post[j] == pre[j]);
                }
                if msg@.role == MessageRole::System {
                    assert(post[i as int].role == MessageRole::System);
                }
            }
        }
        if msg.role == MessageRole::User {
            if let Some(MessageContent::Text(text)) = &msg.content {
                last_user_query = text.clone();
            }
        }
        let is_system = msg.role == MessageRole::System;
        match system_prompt_override {
            Some(o) => {
                if is_system {
                    if !system_replaced {
                        let ghost before = messages@;
                        let s = ChatMessage::text(MessageRole::System, owned(o));
                        messages.push(s);
                        proof {
                            assert(messages_view(messages@) =~= messages_view(before).push(s@));
                        }
                        system_replaced = true;
                    }
                } else {
                    let ghost before = messages@;
                    let ghost mv = msg@;
                    messages.push(msg);
                    proof {
                        assert(messages_view(messages@) =~= messages_view(before).push(mv));
                    }
                }
            },
            None => {
                if is_system {
                    system_replaced = true;
                }
                let ghost before = messages@;
                let ghost mv = msg@;
                messages.push(msg);
                proof {
                    assert(messages_view(messages@) =~= messages_view(before).push(mv));
                }
            },
        }
        i = i + 1;
    }
    proof {
        assert(sv.subrange(0, n as int) =~= sv);
    }
    if let Some(o) = system_prompt_override {
        if !system_replaced {
            proof {
                lemma_swapped_no_system(sv, t);
            }
            let ghost before = messages@;
            let s = ChatMessage::text(MessageRole::System, owned(o));
            messages.insert(0, s);
            proof {
                assert(messages_view(messages@) =~= seq![s@] + messages_view(before));
            }
        }
    }
    PreparedMessages { messages, last_user_query, original_model: owned(model) }
}


// ---------------------------------------------------------------------------
// Replaying a whole session
// ---------------------------------------------------------------------------

/// Check a session replay: the session must have stored requests, and the
/// replay must fork from one of them.
pub fn check_fork(session_id: &str, request_count: usize, fork_from_index: usize) -> (r: Result<
    (),
    ApiError,
>)
    ensures
        request_count == 0 ==> (r matches Err(e) && e@ == ApiErrorView::NotFound(
            "No request content found for session: "@ + session_id@,
        )),
        request_count > 0 && fork_from_index >= request_count ==> (r matches Err(e) && e@
            == ApiErrorView::Validation(
            "fork_from_index "@ + decimal(fork_from_index as nat) + " exceeds session length "@
                + decimal(request_count as nat),
        )),
        request_count > 0 && fork_from_index < request_count ==> r is Ok,
{
    if request_count == 0 {
        let mut m = owned("No request content found for session: ");
        m.append(session_id);
        return Err(ApiError::NotFound(m));
    }
    if fork_from_index >= request_count {
        let mut m = owned("fork_from_index ");
        m.append(decimal_string(fork_from_index as u64).as_str());
        m.append(" exceeds session length ");
        m.append(decimal_string(request_count as u64).as_str());
        return Err(ApiError::Validation(m));
    }
    Ok(())
}

/// A message with an earlier response replaced: an assistant message whose
/// text is `original` gets the text `replayed`.
pub open spec fn with_response(m: MessageView, original: Seq<char>, replayed: Seq<char>) -> MessageView {
    if m.role == MessageRole::Assistant && m.content == Some(ContentView::Text(original)) {
        MessageView { content: Some(ContentView::Text(replayed)), ..m }
    } else {
        m
    }
}

/// The messages with the replayed responses substituted, pair by pair in
/// the order the pairs were recorded.
pub open spec fn cascaded(ms: Seq<MessageView>, pairs: Seq<(Seq<char>, Seq<char>)>) -> Seq<
    MessageView,
>
    decreases pairs.len(),
{
    if pairs.len() == 0 {
        ms
    } else {
        let prev = cascaded(ms, pairs.drop_last());
        prev.map_values(|m: MessageView| with_response(m, pairs.last().0, pairs.last().1))
    }
}

/// Views of recorded response pairs.
pub open spec fn pairs_view(pairs: Seq<(String, String)>) -> Seq<(Seq<char>, Seq<char>)> {
    pairs.map_values(|p: (String, String)| (p.0@, p.1@))
}

/// Replace, in the messages of a later request, each earlier response of
/// the session by its replayed counterpart.
pub fn cascade_responses(messages: &mut Vec<ChatMessage>, pairs: &Vec<(String, String)>)
    ensures
        messages_view(final(messages)@) == cascaded(messages_view(old(messages)@), pairs_view(pairs@)),
{
    let ghost start = messages_view(messages@);
    let mut k: usize = 0;
    proof {
        assert(pairs_view(pairs@).subrange(0, 0) =~= Seq::<(Seq<char>, Seq<char>)>::empty());
    }
    while k < pairs.len()
        invariant
            k <= pairs@.len(),
            messages_view(messages@) == cascaded(start, pairs_view(pairs@).subrange(0, k as int)),
        decreases pairs.len() - k,
    {
        let ghost before = messages_view(messages@);
        let original = &pairs[k].0;
        let replayed = &pairs[k].1;
        let mut i: usize = 0;
        while i < messages.len()
            invariant
                i <= messages@.len(),
                messages@.len() == before.len(),
                forall|j: int| 0 <= j < i ==> #[trigger] messages@[j]@ == with_response(before[j], original@, replayed@),
                forall|j: int| i <= j < messages@.len() ==> #[trigger] messages@[j]@ == before[j],
            decreases messages.len() - i,
        {
            let hit = match (&messages[i].role, &messages[i].content) {
                (MessageRole::Assistant, Some(MessageContent::Text(t))) => str_eq(t.as_str(), original.as_str()),
                _ => false,
            };
            if hit {
                let mut m = messages[i].clone();
                m.content = Some(MessageContent::Text(replayed.clone()));
                messages.set(i, m);
            }
            proof {
                assert(messages@[i as int]@ == with_response(before[i as int], original@, replayed@));
            }
            i = i + 1;
        }
        proof {
            let pv = pairs_view(pairs@);
            assert(pv.subrange(0, k as int + 1).drop_last() =~= pv.subrange(0, k as int));
            assert(pv.subrange(0, k as int + 1).last() == (original@, replayed@));
            assert(messages_view(messages@) =~= before.map_values(
                |m: MessageView| with_response(m, original@, replayed@),
            ));
        }
        k = k + 1;
    }
    proof {
        assert(pairs_view(pairs@).subrange(0, pairs@.len() as int) =~= pairs_view(pairs@));
    }
}

/// The progress of a session replay: the request to replay next and the
/// responses replayed so far, each with the original it replaces (empty
/// when its replay failed).
pub struct SessionReplay {
    pub next: usize,
    pub pairs: Vec<(String, String)>,
}

impl SessionReplay {
    /// A replay that forks from request `fork_from_index`.
    pub fn new(fork_from_index: usize) -> (r: Self)
        ensures
            r.next == fork_from_index,
            r.pairs@.len() == 0,
    {
        SessionReplay { next: fork_from_index, pairs: Vec::new() }
    }

    /// Whether request `next` remains to be replayed.
    pub fn has_next(&self, request_count: usize) -> (r: bool)
        ensures
            r == (self.next < request_count),
    {
        self.next < request_count
    }

    /// Request `next` was replayed (its new response, or `None` when the
    /// replay failed); the next request follows.
    pub fn record(&mut self, original_response: &str, replayed: Option<&str>)
        requires
            old(self).next < usize::MAX,
        ensures
            final(self).next == old(self).next + 1,
            pairs_view(final(self).pairs@) == pairs_view(old(self).pairs@).push(
                (
                    original_response@,
                    match replayed {
                        Some(t) => t@,
                        None => Seq::empty(),
                    },
                ),
            ),
    {
        let ghost before = self.pairs@;
        let new_text = match replayed {
            Some(t) => owned(t),
            None => String::new(),
        };
        self.pairs.push((owned(original_response), new_text));
        proof {
            assert(pairs_view(self.pairs@) =~= pairs_view(before).push(
                (
                    original_response@,
                    match replayed {
                        Some(t) => t@,
                        None => Seq::empty(),
                    },
                ),
            ));
        }
        self.next = self.next + 1;
    }

    /// A request whose stored messages could not be read is skipped.
    pub fn skip(&mut self)
        requires
            old(self).next < usize::MAX,
        ensures
            final(self).next == old(self).next + 1,
            final(self).pairs@ == old(self).pairs@,
    {
        self.next = self.next + 1;
    }
}
} // verus!
