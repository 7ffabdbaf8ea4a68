use std::collections::HashSet;

use flow_api::context::{
    apply_summary, drop_orphaned_tool_messages, estimate_context_tokens, find_snip_notice,
    prune_stale_tool_results, snip_compact, summary_prompt, summary_source, StoredMessage,
};
use flow_api::messages::{
    ChatMessage, FunctionCall, MessageContent, MessageRole, ToolCall, ToolType,
};

fn user_msg(text: &str) -> ChatMessage {
    ChatMessage {
        role: MessageRole::User,
        content: Some(MessageContent::Text(text.into())),
        name: None,
        tool_calls: None,
        tool_call_id: None,
        reasoning_content: None,
    }
}

fn assistant_text(text: &str) -> ChatMessage {
    ChatMessage {
        role: MessageRole::Assistant,
        content: Some(MessageContent::Text(text.into())),
        name: None,
        tool_calls: None,
        tool_call_id: None,
        reasoning_content: None,
    }
}

fn assistant_tool_calls(ids: &[&str]) -> ChatMessage {
    ChatMessage {
        role: MessageRole::Assistant,
        content: None,
        name: None,
        tool_calls: Some(
            ids.iter()
                .map(|id| ToolCall {
                    index: None,
                    id: id.to_string(),
                    tool_type: ToolType::Function,
                    function: FunctionCall {
                        name: "test_tool".into(),
                        arguments: "{}".into(),
                    },
                })
                .collect(),
        ),
        tool_call_id: None,
        reasoning_content: None,
    }
}

fn tool_result(call_id: &str) -> ChatMessage {
    ChatMessage {
        role: MessageRole::Tool,
        content: Some(MessageContent::Text("result".into())),
        name: None,
        tool_calls: None,
        tool_call_id: Some(call_id.into()),
        reasoning_content: None,
    }
}

fn text_of(m: &ChatMessage) -> String {
    m.content.as_ref().map(|c| c.as_text()).unwrap_or_default()
}

/// Every tool message must follow an assistant message with a matching
/// tool_call_id, and every assistant tool call must be answered before the
/// next user or assistant message.
fn assert_valid_message_sequence(messages: &[ChatMessage]) {
    let mut pending: HashSet<String> = HashSet::new();
    for (i, msg) in messages.iter().enumerate() {
        match msg.role {
            MessageRole::Assistant => {
                assert!(pending.is_empty(), "At message {i}: unanswered {:?}", pending);
                if let Some(tcs) = &msg.tool_calls {
                    for tc in tcs {
                        pending.insert(tc.id.clone());
                    }
                }
            }
            MessageRole::Tool => {
                let id = msg.tool_call_id.as_deref().unwrap_or("");
                assert!(pending.remove(id), "At message {i}: no pending call '{id}'");
            }
            MessageRole::User => {
                assert!(pending.is_empty(), "At message {i}: unanswered {:?}", pending);
            }
            _ => {}
        }
    }
}

#[test]
fn test_drop_orphaned_removes_tool_without_assistant() {
    let mut messages = vec![tool_result("orphan_tc"), user_msg("hello"), assistant_text("hi")];
    drop_orphaned_tool_messages(&mut messages);
    assert_eq!(messages.len(), 2);
    assert_eq!(messages[0].role, MessageRole::User);
    assert_valid_message_sequence(&messages);
}

#[test]
fn test_drop_orphaned_removes_tail_assistant_with_unanswered() {
    let mut messages = vec![user_msg("do something"), assistant_tool_calls(&["tc1", "tc2"])];
    drop_orphaned_tool_messages(&mut messages);
    assert_eq!(messages.len(), 1);
    assert_eq!(messages[0].role, MessageRole::User);
    assert_valid_message_sequence(&messages);
}

#[test]
fn test_drop_orphaned_injects_stubs_for_partial_mid_history() {
    let mut messages = vec![
        user_msg("check both"),
        assistant_tool_calls(&["tc1", "tc2"]),
        tool_result("tc1"),
        user_msg("followup"),
        assistant_text("answer"),
    ];
    drop_orphaned_tool_messages(&mut messages);
    assert_eq!(messages.len(), 6);
    assert_eq!(messages[3].role, MessageRole::Tool);
    assert_eq!(messages[3].tool_call_id.as_deref(), Some("tc2"));
    assert!(text_of(&messages[3]).contains("unavailable"));
    assert_valid_message_sequence(&messages);
}

#[test]
fn test_drop_orphaned_injects_stubs_all_unanswered_mid_history() {
    let mut messages = vec![
        user_msg("question"),
        assistant_tool_calls(&["tc1", "tc2"]),
        user_msg("another question"),
        assistant_text("response"),
    ];
    drop_orphaned_tool_messages(&mut messages);
    assert_eq!(messages.len(), 6);
    assert_eq!(messages[2].role, MessageRole::Tool);
    assert_eq!(messages[2].tool_call_id.as_deref(), Some("tc1"));
    assert_eq!(messages[3].role, MessageRole::Tool);
    assert_eq!(messages[3].tool_call_id.as_deref(), Some("tc2"));
    assert_valid_message_sequence(&messages);
}

#[test]
fn test_drop_orphaned_valid_sequence_unchanged() {
    let mut messages = vec![
        user_msg("question"),
        assistant_tool_calls(&["tc1"]),
        tool_result("tc1"),
        assistant_text("done"),
        user_msg("thanks"),
    ];
    let original_len = messages.len();
    drop_orphaned_tool_messages(&mut messages);
    assert_eq!(messages.len(), original_len);
    assert_valid_message_sequence(&messages);
}

#[test]
fn test_drop_orphaned_multiple_incomplete_turns() {
    let mut messages = vec![
        user_msg("first"),
        assistant_tool_calls(&["tc1", "tc2"]),
        tool_result("tc1"),
        user_msg("second"),
        assistant_tool_calls(&["tc3", "tc4"]),
        tool_result("tc3"),
        user_msg("third"),
    ];
    drop_orphaned_tool_messages(&mut messages);
    assert_valid_message_sequence(&messages);
    let tool_ids: Vec<String> = messages
        .iter()
        .filter(|m| m.role == MessageRole::Tool)
        .map(|m| m.tool_call_id.clone().unwrap_or_default())
        .collect();
    for id in ["tc1", "tc2", "tc3", "tc4"] {
        assert!(tool_ids.iter().any(|t| t == id));
    }
}

#[test]
fn drop_orphaned_keeps_leading_system_prompt() {
    let mut messages = vec![
        ChatMessage::text(MessageRole::System, "sys".into()),
        tool_result("x"),
        user_msg("hi"),
    ];
    drop_orphaned_tool_messages(&mut messages);
    assert_eq!(messages.len(), 2);
    assert_eq!(messages[0].role, MessageRole::System);
    assert_eq!(messages[1].role, MessageRole::User);
}

#[test]
fn context_tokens_count_bytes_and_calls() {
    // 12 bytes of text -> 3 tokens, plus the 4-token overhead of a message.
    let ms = vec![user_msg("hello world!")];
    assert_eq!(estimate_context_tokens(&ms), 7);
}

#[test]
fn snip_drops_oldest_turns_and_leaves_notice() {
    let long = "x".repeat(400);
    let mut messages = vec![
        ChatMessage::text(MessageRole::System, "sys".into()),
        user_msg(&long),
        assistant_text(&long),
        user_msg(&long),
        assistant_text(&long),
        user_msg("last"),
    ];
    let before = estimate_context_tokens(&messages);
    let after = snip_compact(&mut messages, 150, 1);
    assert!(after < before);
    assert_eq!(messages[0].role, MessageRole::System);
    assert!(messages
        .iter()
        .any(|m| m.role == MessageRole::System && text_of(m).contains("earlier messages omitted")));
    assert_eq!(text_of(messages.last().unwrap()), "last");
}

#[test]
fn snip_within_budget_changes_nothing() {
    let mut messages = vec![user_msg("a"), assistant_text("b")];
    let est = snip_compact(&mut messages, 1000, 2);
    assert_eq!(messages.len(), 2);
    assert_eq!(est, estimate_context_tokens(&messages));
}

fn shape(ms: &[ChatMessage]) -> Vec<(MessageRole, Option<String>, String)> {
    ms.iter().map(|m| (m.role.clone(), m.tool_call_id.clone(), text_of(m))).collect()
}

#[test]
fn repairing_twice_changes_nothing() {
    let mut messages = vec![
        user_msg("go"),
        assistant_tool_calls(&["a", "b", "c"]),
        tool_result("a"),
        user_msg("next"),
        assistant_tool_calls(&["d"]),
        tool_result("d"),
        assistant_tool_calls(&["e"]),
    ];
    drop_orphaned_tool_messages(&mut messages);
    let once = shape(&messages);
    assert_eq!(once.len(), 8);
    drop_orphaned_tool_messages(&mut messages);
    assert_eq!(shape(&messages), once);
    assert_valid_message_sequence(&messages);
}

#[test]
fn snip_may_drop_every_turn_when_none_must_stay() {
    let mut messages = vec![user_msg("hi")];
    let est = snip_compact(&mut messages, 0, 0);
    assert_eq!(est, 0);
    assert_eq!(messages.len(), 1);
    assert_eq!(messages[0].role, MessageRole::System);
    assert_eq!(
        text_of(&messages[0]),
        "[1 earlier messages omitted to fit context window. 1 turn(s) removed.]"
    );
}

#[test]
fn snip_of_every_turn_keeps_the_system_prompt() {
    let mut messages = vec![
        ChatMessage::text(MessageRole::System, "sys".into()),
        user_msg("a"),
        assistant_text("b"),
        user_msg("c"),
    ];
    snip_compact(&mut messages, 0, 0);
    assert_eq!(messages.len(), 2);
    assert_eq!(text_of(&messages[0]), "sys");
    assert_eq!(
        text_of(&messages[1]),
        "[3 earlier messages omitted to fit context window. 2 turn(s) removed.]"
    );
}

fn stored(role: &str, content: &str, call_id: Option<&str>, tool: Option<&str>) -> StoredMessage {
    StoredMessage {
        role: role.into(),
        content: Some(content.into()),
        tool_calls: None,
        tool_call_id: call_id.map(String::from),
        tool_name: tool.map(String::from),
        reasoning_content: None,
    }
}

#[test]
fn stale_tool_results_are_replaced() {
    let rows = vec![
        stored("user", "q1", None, None),
        stored("tool", "old data", Some("c1"), Some("search")),
        stored("user", "q2", None, None),
        stored("tool", "new data", Some("c2"), Some("search")),
    ];
    let ms = prune_stale_tool_results(&rows, 1);
    assert_eq!(ms.len(), 4);
    assert!(text_of(&ms[1]).contains("stale"));
    assert_eq!(text_of(&ms[3]), "new data");
}

#[test]
fn summary_helpers_follow_the_notice() {
    let mut messages = vec![
        user_msg("first"),
        ChatMessage::text(MessageRole::System, "[3 earlier messages omitted]".into()),
        assistant_text("reply"),
    ];
    let stub = find_snip_notice(&messages).unwrap();
    assert_eq!(stub, 1);
    let source = summary_source(&messages, stub);
    assert_eq!(source, "User: first\nAssistant: reply");
    let prompt = summary_prompt(&source);
    assert!(prompt.ends_with("\n\nUser: first\nAssistant: reply"));
    assert!(!apply_summary(&mut messages, stub, ""));
    assert!(apply_summary(&mut messages, stub, "  They greeted.  "));
    assert_eq!(text_of(&messages[1]), "[Conversation summary: They greeted.]");
}
