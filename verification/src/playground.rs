//! The model playground: its message format, the chat messages built from
//! it, and how gateway errors are answered.

use vstd::prelude::*;
use vstd::string::*;

use crate::errors::{ApiError, ApiErrorView};
use crate::gateway::{GatewayCallError, GatewayErrorView};
use crate::messages::{
    messages_view, parts_text, text_message, ChatMessage, ContentPart, ContentPartView, ContentView,
    MessageContent, MessageRole, MessageView,
};
use crate::text::{chars_of, chars_range, find_char, join, join_spec, owned, str_eq, strings_view};

verus! {

/// Content of a playground message: plain text or multimodal parts.
#[derive(Debug)]
pub enum PlaygroundContent {
    Text(String),
    Parts(Vec<ContentPart>),
}

/// Abstract value of [`PlaygroundContent`].
pub open spec fn playground_content_view(c: PlaygroundContent) -> ContentView {
    match c {
        PlaygroundContent::Text(s) => ContentView::Text(s@),
        PlaygroundContent::Parts(ps) => ContentView::Parts(ps@.map_values(|p: ContentPart| p@)),
    }
}

impl PlaygroundContent {
    /// Plain-text rendering for evaluation prompts: the text, or the text
    /// parts joined without separator.
    pub fn as_text(&self) -> (r: String)
        ensures
            r@ == match self {
                PlaygroundContent::Text(s) => s@,
                PlaygroundContent::Parts(ps) => parts_text(ps@.map_values(|p: ContentPart| p@)),
            },
    {
        match self {
            PlaygroundContent::Text(s) => s.clone(),
            PlaygroundContent::Parts(ps) => {
                let c = MessageContent::Parts(clone_parts(ps));
                c.as_text()
            },
        }
    }
}

fn clone_parts(ps: &Vec<ContentPart>) -> (r: Vec<ContentPart>)
    ensures
        r@.map_values(|p: ContentPart| p@) == ps@.map_values(|p: ContentPart| p@),
{
    let mut out: Vec<ContentPart> = Vec::new();
    let mut i: usize = 0;
    while i < ps.len()
        invariant
            i <= ps.len(),
            out@.map_values(|p: ContentPart| p@) == ps@.subrange(0, i as int).map_values(
                |p: ContentPart| p@,
            ),
        decreases ps.len() - i,
    {
        let c = ps[i].clone();
        let ghost before = out@;
        out.push(c);
        proof {
            assert(out@.map_values(|p: ContentPart| p@) =~= before.map_values(|p: ContentPart| p@).push(
                c@,
            ));
            assert(ps@.subrange(0, i as int + 1).map_values(|p: ContentPart| p@) =~= ps@.subrange(
                0,
                i as int,
            ).map_values(|p: ContentPart| p@).push(ps@[i as int]@));
        }
        i = i + 1;
    }
    proof {
        assert(ps@.subrange(0, ps@.len() as int) =~= ps@);
    }
    out
}

/// A playground message.
#[derive(Debug)]
pub struct PlaygroundMessage {
    pub role: String,
    pub content: PlaygroundContent,
}

/// The plain text of playground content.
pub open spec fn playground_text(c: PlaygroundContent) -> Seq<char> {
    match c {
        PlaygroundContent::Text(s) => s@,
        PlaygroundContent::Parts(ps) => parts_text(ps@.map_values(|p: ContentPart| p@)),
    }
}

/// The texts of the user messages, in order.
pub open spec fn user_texts(msgs: Seq<PlaygroundMessage>) -> Seq<Seq<char>>
    decreases msgs.len(),
{
    if msgs.len() == 0 {
        Seq::empty()
    } else {
        user_texts(msgs.drop_last()) + if msgs.last().role@ == "user"@ {
            seq![playground_text(msgs.last().content)]
        } else {
            Seq::empty()
        }
    }
}

/// What the judge of a playground response is told the user asked: the texts
/// of the user messages, one per line.
pub fn judge_query(msgs: &[PlaygroundMessage]) -> (r: String)
    ensures
        r@ == join_spec(user_texts(msgs@), "\n"@),
{
    let mut texts: Vec<String> = Vec::new();
    let mut i: usize = 0;
    while i < msgs.len()
        invariant
            i <= msgs@.len(),
            strings_view(texts@) == user_texts(msgs@.subrange(0, i as int)),
        decreases msgs.len() - i,
    {
        let ghost pre = msgs@.subrange(0, i as int);
        proof {
            assert(msgs@.subrange(0, i as int + 1).drop_last() =~= pre);
            assert(msgs@.subrange(0, i as int + 1).last() == msgs@[i as int]);
        }
        let ghost before = texts@;
        if str_eq(msgs[i].role.as_str(), "user") {
            let t = msgs[i].content.as_text();
            texts.push(t);
            proof {
                assert(strings_view(texts@) =~= strings_view(before).push(t@));
            }
        } else {
            proof {
                assert(strings_view(texts@) =~= strings_view(before) + Seq::<Seq<char>>::empty());
            }
        }
        i = i + 1;
    }
    proof {
        assert(msgs@.subrange(0, i as int) =~= msgs@);
    }
    join(&texts, "\n")
}

/// Token usage of a playground run.
#[derive(Debug, Clone, Copy, PartialEq, Eq, Structural)]
pub struct PlaygroundUsage {
    pub prompt_tokens: u32,
    pub completion_tokens: u32,
    pub total_tokens: u32,
}

/// The chat role of a playground role name.
pub open spec fn playground_role(name: Seq<char>) -> MessageRole {
    if name == "system"@ {
        MessageRole::System
    } else if name == "user"@ {
        MessageRole::User
    } else if name == "assistant"@ {
        MessageRole::Assistant
    } else {
        MessageRole::Other
    }
}

/// The chat message of a playground message.
pub open spec fn playground_chat_message(m: PlaygroundMessage) -> MessageView {
    MessageView {
        role: playground_role(m.role@),
        content: Some(playground_content_view(m.content)),
        name: None,
        tool_calls: None,
        tool_call_id: None,
        reasoning_content: None,
    }
}

/// The chat messages with a compiled system prompt: merged in front of an
/// opening system message (`prompt`, a blank line, then its text; the
/// prompt alone when that message is not plain text), else put first.
pub open spec fn with_system_prompt(ms: Seq<MessageView>, prompt: Option<Seq<char>>) -> Seq<MessageView> {
    match prompt {
        None => ms,
        Some(p) => if ms.len() > 0 && ms[0].role == MessageRole::System {
            ms.update(
                0,
                MessageView {
                    content: Some(
                        ContentView::Text(
                            match ms[0].content {
                                Some(ContentView::Text(e)) => p + "\n\n"@ + e,
                                _ => p,
                            },
                        ),
                    ),
                    ..ms[0]
                },
            )
        } else {
            seq![text_message(MessageRole::System, p)] + ms
        },
    }
}

fn role_of(name: &str) -> (r: MessageRole)
    ensures
        r == playground_role(name@),
{
    if str_eq(name, "system") {
        MessageRole::System
    } else if str_eq(name, "user") {
        MessageRole::User
    } else if str_eq(name, "assistant") {
        MessageRole::Assistant
    } else {
        MessageRole::Other
    }
}

/// The chat messages of a playground request, with the compiled system
/// prompt (if the prompt config has one) merged in.
pub fn playground_messages(msgs: &[PlaygroundMessage], system_prompt: Option<&str>) -> (r: Vec<
    ChatMessage,
>)
    ensures
        messages_view(r@) == with_system_prompt(
            msgs@.map_values(|m: PlaygroundMessage| playground_chat_message(m)),
            match system_prompt {
                Some(p) => Some(p@),
                None => None,
            },
        ),
{
    let ghost mv = msgs@.map_values(|m: PlaygroundMessage| playground_chat_message(m));
    let mut out: Vec<ChatMessage> = Vec::new();
    let mut i: usize = 0;
    while i < msgs.len()
        invariant
            i <= msgs.len(),
            mv == msgs@.map_values(|m: PlaygroundMessage| playground_chat_message(m)),
            messages_view(out@) == mv.subrange(0, i as int),
        decreases msgs.len() - i,
    {
        let m = &msgs[i];
        let content = match &m.content {
            PlaygroundContent::Text(s) => MessageContent::Text(s.clone()),
            PlaygroundContent::Parts(ps) => MessageContent::Parts(clone_parts(ps)),
        };
        let c = ChatMessage {
            role: role_of(m.role.as_str()),
            content: Some(content),
            name: None,
            tool_calls: None,
            tool_call_id: None,
            reasoning_content: None,
        };
        let ghost before = out@;
        out.push(c);
        proof {
            assert(c@ == mv[i as int]);
            assert(messages_view(out@) =~= messages_view(before).push(c@));
            assert(mv.subrange(0, i as int + 1) =~= mv.subrange(0, i as int).push(mv[i as int]));
        }
        i = i + 1;
    }
    proof {
        assert(mv.subrange(0, mv.len() as int) =~= mv);
    }
    if let Some(p) = system_prompt {
        if out.len() > 0 && out[0].role == MessageRole::System {
            let ghost before = out@;
            let merged = match &out[0].content {
                Some(MessageContent::Text(existing)) => {
                    let mut t = owned(p);
                    t.append("\n\n");
                    t.append(existing.as_str());
                    t
                },
                _ => owned(p),
            };
            let first = out.remove(0);
            let ChatMessage { role, content: _, name, tool_calls, tool_call_id, reasoning_content } = first;
            let updated = ChatMessage {
                role,
                content: Some(MessageContent::Text(merged)),
                name,
                tool_calls,
                tool_call_id,
                reasoning_content,
            };
            out.insert(0, updated);
            proof {
                assert(messages_view(out@) =~= messages_view(before).update(0, updated@));
            }
        } else {
            let ghost before = out@;
            let s = ChatMessage::text(MessageRole::System, owned(p));
            out.insert(0, s);
            proof {
                assert(messages_view(out@) =~= seq![s@] + messages_view(before));
            }
        }
    }
    out
}

/// The provider of a model: the one its prefix names (`prefix_provider`,
/// as the gateway recognises it), else the model's first `/`-separated
/// segment.
pub fn provider_from_model(model: &str, prefix_provider: Option<&str>) -> (r: String)
    ensures
        prefix_provider is Some ==> r@ == prefix_provider->0@,
        prefix_provider is None ==> exists|k: int|
            #![trigger model@.subrange(0, k)]
            0 <= k <= model@.len() && r@ == model@.subrange(0, k) && (k == model@.len()
                || model@[k] == '/') && forall|j: int| 0 <= j < k ==> model@[j] != '/',
{
    if let Some(p) = prefix_provider {
        let r = owned(p);
        proof {
            assert(r@ == p@);
        }
        return r;
    }
    let cs = chars_of(model);
    match find_char(&cs, '/') {
        Some(k) => {
            let r = chars_range(&cs, 0, k);
            proof {
                assert(r@ == model@.subrange(0, k as int) && model@[k as int] == '/');
                assert(forall|j: int| 0 <= j < k ==> model@[j] != '/');
            }
            r
        },
        None => {
            let r = chars_range(&cs, 0, cs.len());
            proof {
                assert(r@ == model@.subrange(0, model@.len() as int));
                assert(forall|j: int| 0 <= j < model@.len() ==> model@[j] != '/');
            }
            r
        },
    }
}

/// What introspection adds to a playground request for the model's provider.
#[derive(Debug, Clone, Copy, PartialEq, Eq, Structural)]
pub enum Introspection {
    /// Extended thinking with this token budget.
    Thinking { budget_tokens: u32 },
    /// Medium reasoning effort.
    ReasoningMedium,
    Nothing,
}

/// The provider families introspection knows.
#[derive(Debug, Clone, Copy, PartialEq, Eq, Structural)]
pub enum ProviderFamily {
    Anthropic,
    OpenAi,
    Other,
}

/// Whether a model name is an OpenAI reasoning model: `o` then a digit.
pub open spec fn is_reasoning_model(model: Seq<char>) -> bool {
    model.len() >= 2 && model[0] == 'o' && '0' <= model[1] && model[1] <= '9'
}

/// Introspection for a model: Anthropic models think with a 10 000-token
/// budget, OpenAI reasoning models get medium effort, others nothing.
pub fn apply_introspection(model: &str, provider: ProviderFamily) -> (r: Introspection)
    ensures
        r == match provider {
            ProviderFamily::Anthropic => Introspection::Thinking { budget_tokens: 10_000 },
            ProviderFamily::OpenAi => if is_reasoning_model(model@) {
                Introspection::ReasoningMedium
            } else {
                Introspection::Nothing
            },
            ProviderFamily::Other => Introspection::Nothing,
        },
{
    match provider {
        ProviderFamily::Anthropic => Introspection::Thinking { budget_tokens: 10_000 },
        ProviderFamily::OpenAi => {
            let cs = chars_of(model);
            if cs.len() >= 2 && cs[0] == 'o' && '0' <= cs[1] && cs[1] <= '9' {
                Introspection::ReasoningMedium
            } else {
                Introspection::Nothing
            }
        },
        ProviderFamily::Other => Introspection::Nothing,
    }
}

/// The API error answered for a gateway call error.
pub open spec fn app_error_for(e: GatewayErrorView) -> ApiErrorView {
    match e {
        GatewayErrorView::RateLimited { .. } => ApiErrorView::External(
            "Rate limited by provider. Please try again."@,
        ),
        GatewayErrorView::ContextTooLong => ApiErrorView::BadRequest(
            "Context too long for the selected model."@,
        ),
        GatewayErrorView::Overloaded { .. } => ApiErrorView::External(
            "Provider overloaded. Please try again later."@,
        ),
        GatewayErrorView::Transient { body, .. } => ApiErrorView::External(body),
        GatewayErrorView::Fatal { status, body } => if status < 500 {
            ApiErrorView::BadRequest(body)
        } else {
            ApiErrorView::External(body)
        },
        GatewayErrorView::PaymentRequired { message } => ApiErrorView::BadRequest(message),
        GatewayErrorView::ProviderBillingError { message } => ApiErrorView::External(message),
        GatewayErrorView::Network(t) => ApiErrorView::External(t),
    }
}

/// Convert a gateway call error into the API error answered to the caller.
pub fn gateway_call_err_to_app_err(err: GatewayCallError) -> (r: ApiError)
    ensures
        r@ == app_error_for(err@),
{
    match err {
        GatewayCallError::RateLimited { .. } => ApiError::External(
            owned("Rate limited by provider. Please try again."),
        ),
        GatewayCallError::ContextTooLong => ApiError::BadRequest(
            owned("Context too long for the selected model."),
        ),
        GatewayCallError::Overloaded { .. } => ApiError::External(
            owned("Provider overloaded. Please try again later."),
        ),
        GatewayCallError::Transient { body, .. } => ApiError::External(body),
        GatewayCallError::Fatal { status, body } => if status < 500 {
            ApiError::BadRequest(body)
        } else {
            ApiError::External(body)
        },
        GatewayCallError::PaymentRequired { message } => ApiError::BadRequest(message),
        GatewayCallError::ProviderBillingError { message } => ApiError::External(message),
        GatewayCallError::Network(t) => ApiError::External(t),
    }
}

} // verus!
