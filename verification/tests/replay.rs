use flow_api::messages::{
    ChatMessage, FunctionCall, MessageContent, MessageRole, ToolCall, ToolType,
};
use flow_api::errors::ApiError;
use flow_api::replay::{cascade_responses, check_fork, prepare_parsed, SessionReplay};

fn msg(role: MessageRole, text: &str) -> ChatMessage {
    ChatMessage::text(role, text.to_string())
}

fn system(t: &str) -> ChatMessage {
    msg(MessageRole::System, t)
}
fn user(t: &str) -> ChatMessage {
    msg(MessageRole::User, t)
}
fn assistant(t: &str) -> ChatMessage {
    msg(MessageRole::Assistant, t)
}

fn tool_call_assistant() -> ChatMessage {
    ChatMessage {
        role: MessageRole::Assistant,
        content: None,
        name: None,
        tool_calls: Some(vec![ToolCall {
            index: None,
            id: "call_123".into(),
            tool_type: ToolType::Function,
            function: FunctionCall {
                name: "get_weather".into(),
                arguments: r#"{"city":"Paris"}"#.into(),
            },
        }]),
        tool_call_id: None,
        reasoning_content: None,
    }
}

fn tool_result() -> ChatMessage {
    ChatMessage {
        role: MessageRole::Tool,
        content: Some(MessageContent::Text(r#"{"temp":22}"#.into())),
        name: None,
        tool_calls: None,
        tool_call_id: Some("call_123".into()),
        reasoning_content: None,
    }
}

fn first_text(m: &ChatMessage) -> String {
    match &m.content {
        Some(MessageContent::Text(t)) => t.clone(),
        _ => panic!("expected text content"),
    }
}

#[test]
fn prepare_replaces_system_prompt() {
    let stored = vec![system("original system"), user("hello"), assistant("hi there")];
    let prepared = prepare_parsed(stored, Some("new system"), "gpt-4o");
    assert_eq!(prepared.messages.len(), 3);
    assert_eq!(prepared.messages[0].role, MessageRole::System);
    assert_eq!(first_text(&prepared.messages[0]), "new system");
    assert_eq!(prepared.last_user_query, "hello");
    assert_eq!(prepared.original_model, "gpt-4o");
}

#[test]
fn prepare_keeps_original_when_no_override() {
    let prepared = prepare_parsed(vec![system("original system"), user("hello")], None, "gpt-4o");
    assert_eq!(prepared.messages.len(), 2);
    assert_eq!(first_text(&prepared.messages[0]), "original system");
}

#[test]
fn prepare_inserts_system_when_missing() {
    let prepared = prepare_parsed(vec![user("hello")], Some("injected"), "gpt-4o");
    assert_eq!(prepared.messages.len(), 2);
    assert_eq!(prepared.messages[0].role, MessageRole::System);
    assert_eq!(first_text(&prepared.messages[0]), "injected");
}

#[test]
fn prepare_preserves_tool_messages() {
    let stored = vec![
        system("sys"),
        user("what's the weather?"),
        tool_call_assistant(),
        tool_result(),
        assistant("It's 22°C in Paris."),
    ];
    let prepared = prepare_parsed(stored, Some("new sys"), "gpt-4o");
    assert_eq!(prepared.messages.len(), 5);
    assert_eq!(prepared.messages[0].role, MessageRole::System);
    assert_eq!(prepared.messages[2].role, MessageRole::Assistant);
    assert!(prepared.messages[2].tool_calls.is_some());
    assert_eq!(prepared.messages[3].role, MessageRole::Tool);
    assert_eq!(prepared.messages[3].tool_call_id.as_deref(), Some("call_123"));
    assert_eq!(prepared.last_user_query, "what's the weather?");
}

#[test]
fn prepare_tracks_last_user_query_in_multiturn() {
    let stored = vec![
        system("sys"),
        user("first question"),
        assistant("first answer"),
        user("second question"),
    ];
    let prepared = prepare_parsed(stored, None, "gpt-4o");
    assert_eq!(prepared.last_user_query, "second question");
}

#[test]
fn prepare_with_override_keeps_exactly_one_system_message() {
    let stored = vec![system("a"), user("q"), system("b")];
    let prepared = prepare_parsed(stored, Some("o"), "m");
    let systems = prepared.messages.iter().filter(|m| m.role == MessageRole::System).count();
    assert_eq!(systems, 1);
    assert_eq!(first_text(&prepared.messages[0]), "o");
}

#[test]
fn replay_cascades_earlier_responses() {
    let mut ms = vec![user("q1"), assistant("old answer"), user("q2"), assistant("other")];
    let mut replay = SessionReplay::new(1);
    replay.record("old answer", Some("new answer"));
    replay.record("other", None);
    assert_eq!(replay.next, 3);
    cascade_responses(&mut ms, &replay.pairs);
    assert_eq!(first_text(&ms[1]), "new answer");
    assert_eq!(first_text(&ms[3]), "");
    assert_eq!(first_text(&ms[0]), "q1");
    assert!(!replay.has_next(3));
}

#[test]
fn replay_fork_must_be_inside_the_session() {
    match check_fork("s1", 0, 0) {
        Err(ApiError::NotFound(m)) => assert_eq!(m, "No request content found for session: s1"),
        _ => panic!("expected not found"),
    }
    match check_fork("s1", 3, 3) {
        Err(ApiError::Validation(m)) => assert_eq!(m, "fork_from_index 3 exceeds session length 3"),
        _ => panic!("expected a validation error"),
    }
    assert!(check_fork("s1", 3, 2).is_ok());
}
