//! Chat message model shared by the agent, the context manager and replay.

use vstd::prelude::*;
use vstd::string::*;
use vstd::utf8::encode_utf8;

verus! {

/// Role of a chat message.
#[derive(Debug, Clone, Copy, PartialEq, Eq, Structural)]
pub enum MessageRole {
    System,
    User,
    Assistant,
    Tool,
    Other,
}

/// The function part of a tool call: its name and JSON arguments.
#[derive(Debug)]
pub struct FunctionCall {
    pub name: String,
    pub arguments: String,
}

/// Abstract value of a [`FunctionCall`].
pub struct FunctionCallView {
    pub name: Seq<char>,
    pub arguments: Seq<char>,
}

impl View for FunctionCall {
    type V = FunctionCallView;

    open spec fn view(&self) -> FunctionCallView {
        FunctionCallView { name: self.name@, arguments: self.arguments@ }
    }
}

impl Clone for FunctionCall {
    fn clone(&self) -> (r: Self)
        ensures
            r@ == self@,
    {
        FunctionCall { name: self.name.clone(), arguments: self.arguments.clone() }
    }
}

/// Kind of a tool: only functions exist.
#[derive(Debug, Clone, Copy, PartialEq, Eq, Structural)]
pub enum ToolType {
    Function,
}

/// A tool call requested by the assistant.
#[derive(Debug)]
pub struct ToolCall {
    pub index: Option<u32>,
    pub id: String,
    pub tool_type: ToolType,
    pub function: FunctionCall,
}

/// Abstract value of a [`ToolCall`].
pub struct ToolCallView {
    pub index: Option<u32>,
    pub id: Seq<char>,
    pub tool_type: ToolType,
    pub function: FunctionCallView,
}

impl View for ToolCall {
    type V = ToolCallView;

    open spec fn view(&self) -> ToolCallView {
        ToolCallView {
            index: self.index,
            id: self.id@,
            tool_type: self.tool_type,
            function: self.function@,
        }
    }
}

impl Clone for ToolCall {
    fn clone(&self) -> (r: Self)
        ensures
            r@ == self@,
    {
        ToolCall {
            index: self.index,
            id: self.id.clone(),
            tool_type: self.tool_type,
            function: self.function.clone(),
        }
    }
}

/// Token usage reported for one model call.
#[derive(Debug, Clone, Copy, PartialEq, Eq, Structural)]
pub struct Usage {
    pub prompt_tokens: u32,
    pub completion_tokens: u32,
    pub total_tokens: u32,
}

/// Views of a sequence of tool calls.
pub open spec fn tool_calls_view(tcs: Seq<ToolCall>) -> Seq<ToolCallView> {
    tcs.map_values(|t: ToolCall| t@)
}

/// Copy a list of tool calls.
pub fn clone_tool_calls(tcs: &Vec<ToolCall>) -> (r: Vec<ToolCall>)
    ensures
        tool_calls_view(r@) == tool_calls_view(tcs@),
{
    let mut out: Vec<ToolCall> = Vec::new();
    let mut i: usize = 0;
    while i < tcs.len()
        invariant
            i <= tcs.len(),
            tool_calls_view(out@) == tool_calls_view(tcs@.subrange(0, i as int)),
        decreases tcs.len() - i,
    {
        let c = tcs[i].clone();
        let ghost old_out = out@;
        out.push(c);
        proof {
            assert(out@ == old_out.push(c));
            assert(c@ == tcs@[i as int]@);
            assert(tool_calls_view(old_out.push(c)) =~= tool_calls_view(old_out).push(c@));
            assert(tcs@.subrange(0, i as int + 1) =~= tcs@.subrange(0, i as int).push(tcs@[i as int]));
            assert(tool_calls_view(tcs@.subrange(0, i as int).push(tcs@[i as int])) =~= tool_calls_view(tcs@.subrange(0, i as int)).push(tcs@[i as int]@));
            assert(tool_calls_view(out@) =~= tool_calls_view(tcs@.subrange(0, i as int + 1)));
        }
        i = i + 1;
    }
    proof {
        assert(tcs@.subrange(0, tcs@.len() as int) =~= tcs@);
    }
    out
}

/// A multimodal content part.
#[derive(Debug)]
pub enum ContentPart {
    Text { text: String },
    ImageUrl { url: String, detail: Option<String> },
}

/// Abstract value of a [`ContentPart`].
pub enum ContentPartView {
    Text { text: Seq<char> },
    ImageUrl { url: Seq<char>, detail: Option<Seq<char>> },
}

/// View of an optional string.
pub open spec fn opt_view(s: Option<String>) -> Option<Seq<char>> {
    match s {
        Some(t) => Some(t@),
        None => None,
    }
}

impl View for ContentPart {
    type V = ContentPartView;

    open spec fn view(&self) -> ContentPartView {
        match self {
            ContentPart::Text { text } => ContentPartView::Text { text: text@ },
            ContentPart::ImageUrl { url, detail } => ContentPartView::ImageUrl {
                url: url@,
                detail: opt_view(*detail),
            },
        }
    }
}

/// Copy an optional string.
pub fn clone_opt(s: &Option<String>) -> (r: Option<String>)
    ensures
        opt_view(r) == opt_view(*s),
{
    match s {
        Some(t) => Some(t.clone()),
        None => None,
    }
}

impl Clone for ContentPart {
    fn clone(&self) -> (r: Self)
        ensures
            r@ == self@,
    {
        match self {
            ContentPart::Text { text } => ContentPart::Text { text: text.clone() },
            ContentPart::ImageUrl { url, detail } => ContentPart::ImageUrl {
                url: url.clone(),
                detail: clone_opt(detail),
            },
        }
    }
}

/// Message content: plain text or a list of parts.
#[derive(Debug)]
pub enum MessageContent {
    Text(String),
    Parts(Vec<ContentPart>),
}

/// Abstract value of [`MessageContent`].
pub enum ContentView {
    Text(Seq<char>),
    Parts(Seq<ContentPartView>),
}

impl View for MessageContent {
    type V = ContentView;

    open spec fn view(&self) -> ContentView {
        match self {
            MessageContent::Text(s) => ContentView::Text(s@),
            MessageContent::Parts(ps) => ContentView::Parts(ps@.map_values(|p: ContentPart| p@)),
        }
    }
}

impl Clone for MessageContent {
    fn clone(&self) -> (r: Self)
        ensures
            r@ == self@,
    {
        match self {
            MessageContent::Text(s) => MessageContent::Text(s.clone()),
            MessageContent::Parts(ps) => {
                let mut out: Vec<ContentPart> = Vec::new();
                let mut i: usize = 0;
                while i < ps.len()
                    invariant
                        i <= ps.len(),
                        out@.map_values(|p: ContentPart| p@) =~= ps@.subrange(0, i as int).map_values(
                            |p: ContentPart| p@,
                        ),
                    decreases ps.len() - i,
                {
                    let c = ps[i].clone();
                    let ghost old_out = out@;
                    out.push(c);
                    proof {
                        assert(out@ == old_out.push(c));
                        assert(c@ == ps@[i as int]@);
                        assert(old_out.push(c).map_values(|p: ContentPart| p@) =~= old_out.map_values(|p: ContentPart| p@).push(c@));
                        assert(ps@.subrange(0, i as int + 1) =~= ps@.subrange(0, i as int).push(ps@[i as int]));
                        assert(ps@.subrange(0, i as int).push(ps@[i as int]).map_values(|p: ContentPart| p@) =~= ps@.subrange(0, i as int).map_values(|p: ContentPart| p@).push(ps@[i as int]@));
                        assert(out@.map_values(|p: ContentPart| p@) =~= ps@.subrange(0, i as int + 1).map_values(
                            |p: ContentPart| p@,
                        ));
                    }
                    i = i + 1;
                }
                proof {
                    assert(ps@.subrange(0, ps@.len() as int) =~= ps@);
                }
                MessageContent::Parts(out)
            },
        }
    }
}

/// The text carried by a sequence of content parts: the text parts joined
/// together, in order, with nothing between them.
pub open spec fn parts_text(parts: Seq<ContentPartView>) -> Seq<char>
    decreases parts.len(),
{
    if parts.len() == 0 {
        Seq::empty()
    } else {
        let rest = parts_text(parts.drop_last());
        match parts.last() {
            ContentPartView::Text { text } => rest + text,
            ContentPartView::ImageUrl { .. } => rest,
        }
    }
}

/// The plain-text rendering of message content.
pub open spec fn content_text(c: ContentView) -> Seq<char> {
    match c {
        ContentView::Text(s) => s,
        ContentView::Parts(ps) => parts_text(ps),
    }
}

impl MessageContent {
    /// Plain-text rendering: the text itself, or the text parts joined.
    pub fn as_text(&self) -> (r: String)
        ensures
            r@ == content_text(self@),
    {
        match self {
            MessageContent::Text(s) => s.clone(),
            MessageContent::Parts(ps) => {
                let ghost pv = ps@.map_values(|p: ContentPart| p@);
                let mut out = String::new();
                let mut i: usize = 0;
                while i < ps.len()
                    invariant
                        i <= ps.len(),
                        pv == ps@.map_values(|p: ContentPart| p@),
                        out@ == parts_text(pv.subrange(0, i as int)),
                    decreases ps.len() - i,
                {
                    proof {
                        assert(pv.subrange(0, i as int + 1).drop_last() =~= pv.subrange(0, i as int));
                    }
                    match &ps[i] {
                        ContentPart::Text { text } => {
                            out.append(text.as_str());
                        },
                        ContentPart::ImageUrl { .. } => {},
                    }
                    i = i + 1;
                }
                proof {
                    assert(pv.subrange(0, pv.len() as int) =~= pv);
                }
                out
            },
        }
    }
}

/// A chat message as exchanged with the LLM gateway.
#[derive(Debug)]
pub struct ChatMessage {
    pub role: MessageRole,
    pub content: Option<MessageContent>,
    pub name: Option<String>,
    pub tool_calls: Option<Vec<ToolCall>>,
    pub tool_call_id: Option<String>,
    pub reasoning_content: Option<String>,
}

/// Abstract value of a [`ChatMessage`].
pub struct MessageView {
    pub role: MessageRole,
    pub content: Option<ContentView>,
    pub name: Option<Seq<char>>,
    pub tool_calls: Option<Seq<ToolCallView>>,
    pub tool_call_id: Option<Seq<char>>,
    pub reasoning_content: Option<Seq<char>>,
}

impl View for ChatMessage {
    type V = MessageView;

    open spec fn view(&self) -> MessageView {
        MessageView {
            role: self.role,
            content: match self.content {
                Some(c) => Some(c@),
                None => None,
            },
            name: opt_view(self.name),
            tool_calls: match self.tool_calls {
                Some(t) => Some(tool_calls_view(t@)),
                None => None,
            },
            tool_call_id: opt_view(self.tool_call_id),
            reasoning_content: opt_view(self.reasoning_content),
        }
    }
}

impl Clone for ChatMessage {
    fn clone(&self) -> (r: Self)
        ensures
            r@ == self@,
    {
        let tool_calls = match &self.tool_calls {
            Some(tcs) => Some(clone_tool_calls(tcs)),
            None => None,
        };
        let content = match &self.content {
            Some(c) => Some(c.clone()),
            None => None,
        };
        ChatMessage {
            role: self.role,
            content,
            name: clone_opt(&self.name),
            tool_calls,
            tool_call_id: clone_opt(&self.tool_call_id),
            reasoning_content: clone_opt(&self.reasoning_content),
        }
    }
}

/// Views of a sequence of messages.
pub open spec fn messages_view(ms: Seq<ChatMessage>) -> Seq<MessageView> {
    ms.map_values(|m: ChatMessage| m@)
}

/// A plain-text message view with no other fields set.
pub open spec fn text_message(role: MessageRole, text: Seq<char>) -> MessageView {
    MessageView {
        role,
        content: Some(ContentView::Text(text)),
        name: None,
        tool_calls: None,
        tool_call_id: None,
        reasoning_content: None,
    }
}

impl ChatMessage {
    /// A message with the given role and plain-text content and no other fields.
    pub fn text(role: MessageRole, text: String) -> (r: Self)
        ensures
            r@ == text_message(role, text@),
    {
        ChatMessage {
            role,
            content: Some(MessageContent::Text(text)),
            name: None,
            tool_calls: None,
            tool_call_id: None,
            reasoning_content: None,
        }
    }
}

/// Number of UTF-8 bytes of a text, as `str::len` reports it.
pub open spec fn byte_len(s: Seq<char>) -> usize {
    encode_utf8(s).len() as usize
}

/// Token estimate of a text: its UTF-8 byte length divided by four.
pub open spec fn tokens_of(s: Seq<char>) -> usize {
    (byte_len(s) / 4) as usize
}

/// Estimate the number of tokens in a text (bytes / 4 heuristic).
pub fn estimate_tokens(text: &str) -> (r: usize)
    ensures
        r == tokens_of(text@),
{
    text.len() / 4
}

} // verus!
