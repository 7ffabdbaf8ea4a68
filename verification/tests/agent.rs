use flow_api::agent::{
    check_message_size, conversation_title, gateway_failure, kb_context, max_turns_notice,
    redaction_notice, scrub_secrets, slot_to_watch, AgentChat, KbChunk, PollStep, SecretScrubber,
    SlotWait, StreamedResponse, ToolCallDelta, TurnFailure, MAX_AGENT_TURNS,
};
use flow_api::context::StoredMessage;
use flow_api::errors::ApiError;
use flow_api::executor::ToolOutcome;
use flow_api::gateway::GatewayCallError;
use flow_api::messages::{MessageContent, MessageRole, Usage};

fn delta(index: Option<u32>, id: &str, name: &str, args: &str) -> ToolCallDelta {
    ToolCallDelta { index, id: id.into(), name: name.into(), arguments: args.into() }
}

#[test]
fn stream_merges_tool_call_fragments_by_index() {
    let mut r = StreamedResponse::new();
    r.push_tool_delta(&delta(Some(1), "call_b", "get_", "{\"a\""));
    r.push_tool_delta(&delta(Some(0), "call_a", "search", "{}"));
    r.push_tool_delta(&delta(Some(1), "", "weather", ":1}"));
    assert_eq!(r.tool_calls.len(), 2);
    assert_eq!(r.tool_calls[0].index, Some(0));
    assert_eq!(r.tool_calls[0].id, "call_a");
    assert_eq!(r.tool_calls[1].id, "call_b");
    assert_eq!(r.tool_calls[1].function.name, "get_weather");
    assert_eq!(r.tool_calls[1].function.arguments, "{\"a\":1}");
}

#[test]
fn stream_fragment_without_index_goes_to_slot_zero() {
    let mut r = StreamedResponse::new();
    r.push_tool_delta(&delta(None, "x", "f", "1"));
    r.push_tool_delta(&delta(Some(0), "y", "", "2"));
    assert_eq!(r.tool_calls.len(), 1);
    assert_eq!(r.tool_calls[0].id, "y");
    assert_eq!(r.tool_calls[0].function.arguments, "12");
}

#[test]
fn stream_accumulates_text_model_and_usage() {
    let mut r = StreamedResponse::new();
    assert!(!r.push_content(""));
    assert!(r.push_content("Hel"));
    assert!(r.push_content("lo"));
    r.push_thinking("hmm");
    r.observe_model("");
    r.observe_model("gpt-4o");
    r.observe_model("other");
    r.observe_usage(Usage { prompt_tokens: 3, completion_tokens: 4, total_tokens: 7 });
    r.observe_finish("stop");
    assert_eq!(r.content, "Hello");
    assert_eq!(r.thinking, "hmm");
    assert_eq!(r.model, "gpt-4o");
    assert_eq!(r.usage.total_tokens, 7);
    assert_eq!(r.finish_reason, "stop");
}

fn history() -> Vec<StoredMessage> {
    vec![StoredMessage {
        role: "user".into(),
        content: Some("earlier".into()),
        tool_calls: None,
        tool_call_id: None,
        tool_name: None,
        reasoning_content: None,
    }]
}

#[test]
fn chat_turns_record_tools_and_stop_after_the_limit() {
    let mut chat = AgentChat::new(&history(), MessageContent::Text("now".into()));
    assert_eq!(chat.messages.len(), 2);
    assert_eq!(chat.begin_turn(80_000), Some(false));
    let mut reply = StreamedResponse::new();
    reply.push_tool_delta(&delta(Some(0), "c1", "search", "{}"));
    reply.observe_usage(Usage { prompt_tokens: 10, completion_tokens: 5, total_tokens: 15 });
    reply.observe_model("m1");
    assert!(chat.accept_reply(&reply, "openai"));
    assert_eq!(chat.messages.len(), 3);
    assert!(chat.messages[2].content.is_none());
    let text = chat.push_tool_result("c1", ToolOutcome::Failed("boom".into()));
    assert_eq!(text, "Error: boom");
    assert_eq!(chat.messages[3].role, MessageRole::Tool);
    assert_eq!(chat.messages[3].tool_call_id.as_deref(), Some("c1"));
    assert_eq!(chat.total_input_tokens, 10);
    assert_eq!(chat.total_output_tokens, 5);
    assert_eq!(chat.last_model, "m1");
    assert_eq!(chat.last_provider, "openai");

    let mut final_reply = StreamedResponse::new();
    final_reply.push_content("done");
    assert!(!chat.accept_reply(&final_reply, ""));
    assert_eq!(chat.messages.len(), 4);
    assert_eq!(chat.last_provider, "openai");
}

#[test]
fn chat_warns_on_second_to_last_turn() {
    let mut chat = AgentChat::new(&[], MessageContent::Text("q".into()));
    let mut warned_at = None;
    let mut turns = 0;
    while let Some(_) = chat.begin_turn(80_000) {
        turns += 1;
        let before = chat.messages.len();
        chat.add_turn_warning();
        if chat.messages.len() > before {
            warned_at = Some(turns);
        }
    }
    assert_eq!(turns, MAX_AGENT_TURNS);
    assert_eq!(warned_at, Some(MAX_AGENT_TURNS - 1));
}

#[test]
fn gateway_failures_become_notices_or_errors() {
    match gateway_failure(&GatewayCallError::ContextTooLong) {
        TurnFailure::Notice(n) => assert_eq!(n.status, "context_too_long"),
        _ => panic!("expected a notice"),
    }
    match gateway_failure(&GatewayCallError::ProviderBillingError { message: "no credit".into() }) {
        TurnFailure::Notice(n) => {
            assert_eq!(n.status, "provider_billing_error");
            assert!(n.text.starts_with("The AI provider returned a billing error: no credit. "));
        }
        _ => panic!("expected a notice"),
    }
    match gateway_failure(&GatewayCallError::Network("reset".into())) {
        TurnFailure::Fatal(m) => assert_eq!(m, "Gateway stream failed: network error: reset"),
        _ => panic!("expected a failure"),
    }
    let n = max_turns_notice();
    assert_eq!(n.status, "max_turns");
}

#[test]
fn message_size_and_title() {
    assert!(check_message_size("hello").is_ok());
    let big = "é".repeat(20_000);
    match check_message_size(&big) {
        Err(ApiError::Validation(m)) => assert_eq!(m, "Message too long (40000 bytes, max 32768)"),
        _ => panic!("expected a refusal"),
    }
    let long = "a".repeat(100);
    assert_eq!(conversation_title(&long).chars().count(), 80);
    assert_eq!(conversation_title("short"), "short");
    assert!(redaction_notice().ends_with("I can create one for you.\n\n"));
}

#[test]
fn secrets_are_redacted() {
    let s = SecretScrubber::new().expect("pattern compiles");
    let key = format!("{}-{}", "sk", "abcdefghijklmnopqrstuvwxyz123");
    let input = format!("my key is {} ok", key);
    let (text, hit) = scrub_secrets(&s, &input);
    assert!(hit);
    assert_eq!(text, "my key is [REDACTED] ok");
}

#[test]
fn several_secrets_are_redacted() {
    let s = SecretScrubber::new().expect("pattern compiles");
    let aws = format!("{}{}", "AKIA", "ABCDEFGHIJKLMNOP");
    let github = format!("{}_{}", "ghp", "a".repeat(24));
    let input = format!("{} and {}", aws, github);
    let (text, hit) = scrub_secrets(&s, &input);
    assert!(hit);
    assert_eq!(text, "[REDACTED] and [REDACTED]");
}

#[test]
fn text_without_secrets_is_unchanged() {
    let s = SecretScrubber::new().expect("pattern compiles");
    let (text, hit) = scrub_secrets(&s, "nothing secret here");
    assert!(!hit);
    assert_eq!(text, "nothing secret here");
}

fn chunk(title: &str, content: &str, relevant: bool) -> KbChunk {
    KbChunk { title: title.into(), category: "docs".into(), content: content.into(), relevant }
}

#[test]
fn kb_context_packs_relevant_chunks_within_budget() {
    let rows = vec![chunk("A", "one", true), chunk("B", "two", true), chunk("C", "three", false)];
    assert_eq!(kb_context(&rows), "**A** (docs):\none\n\n---\n\n**B** (docs):\ntwo");
    let huge = "x".repeat(40_000);
    let rows = vec![chunk("Big", &huge, true), chunk("Small", "s", true)];
    let ctx = kb_context(&rows);
    assert!(ctx.starts_with("**Big** (docs):\n"));
    assert!(!ctx.contains("Small"));
    assert_eq!(kb_context(&vec![chunk("A", "x", false)]), "");
}

#[test]
fn slot_wait_polls_until_filled_or_exhausted() {
    let mut w = SlotWait::new();
    for attempt in 0..6 {
        assert_eq!(w.observe(Some(false)), PollStep::Continue { announce: attempt == 6 });
    }
    assert_eq!(w.observe(Some(false)), PollStep::Continue { announce: true });
    assert_eq!(w.observe(Some(true)), PollStep::Deposited);
    let mut w = SlotWait::new();
    let mut last = PollStep::Deposited;
    for _ in 0..60 {
        last = w.observe(Some(false));
    }
    assert_eq!(last, PollStep::Abandoned);
    assert_eq!(SlotWait::new().observe(None), PollStep::Abandoned);
}

#[test]
fn slot_is_watched_only_after_slot_creation() {
    let result = r#"{"slot_id":"67e55044-10b1-426f-9247-bb680e5fe0c8"}"#;
    assert_eq!(
        slot_to_watch("create_secret_slot", result),
        Some(0x67e5_5044_10b1_426f_9247_bb68_0e5f_e0c8u128)
    );
    assert!(slot_to_watch("other_tool", result).is_none());
    assert!(slot_to_watch("create_secret_slot", r#"{"slot_id":"nope"}"#).is_none());
    assert!(slot_to_watch("create_secret_slot", "plain text").is_none());
}
