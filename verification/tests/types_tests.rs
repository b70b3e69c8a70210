use claw_runtime::types::{
    EffortLevel, InputContentBlock, InputMessage, MessageRequest, MessageResponse,
    ThinkingConfig, ToolResultContentBlock, Usage,
};

#[test]
fn usage_total_tokens_includes_cache_tokens() {
    let usage = Usage {
        input_tokens: 10,
        cache_creation_input_tokens: 2,
        cache_read_input_tokens: 3,
        output_tokens: 4,
    };

    assert_eq!(usage.total_tokens(), 19);
    assert_eq!(usage.token_usage().total_tokens(), 19);
}

#[test]
fn test_effort_level_parse() {
    assert_eq!(EffortLevel::parse("low").unwrap(), EffortLevel::Low);
    assert_eq!(EffortLevel::parse("LOW").unwrap(), EffortLevel::Low);
    assert_eq!(EffortLevel::parse("medium").unwrap(), EffortLevel::Medium);
    assert_eq!(EffortLevel::parse("med").unwrap(), EffortLevel::Medium);
    assert_eq!(EffortLevel::parse("Med").unwrap(), EffortLevel::Medium);
    assert_eq!(EffortLevel::parse("high").unwrap(), EffortLevel::High);
    assert_eq!(EffortLevel::parse("HIGH").unwrap(), EffortLevel::High);
    assert_eq!(EffortLevel::parse("max").unwrap(), EffortLevel::Max);
    assert_eq!(EffortLevel::parse("MAX").unwrap(), EffortLevel::Max);
    assert!(EffortLevel::parse("invalid").is_err());
    assert!(EffortLevel::parse("").is_err());
    let err = EffortLevel::parse("turbo").unwrap_err();
    assert!(err.contains("invalid effort level"));
    assert!(err.contains("turbo"));
}

#[test]
fn test_effort_level_budget_tokens() {
    assert_eq!(EffortLevel::Low.budget_tokens(), 1024);
    assert_eq!(EffortLevel::Medium.budget_tokens(), 4096);
    assert_eq!(EffortLevel::High.budget_tokens(), 16384);
    assert_eq!(EffortLevel::Max.budget_tokens(), 32768);
}

#[test]
fn effort_level_error_message_is_lower_cased_name() {
    let err = EffortLevel::parse("TuRbO").unwrap_err();
    assert_eq!(err, "invalid effort level: turbo (expected low/medium/high/max)");
}

#[test]
fn effort_level_maps_to_enabled_thinking() {
    assert_eq!(
        EffortLevel::High.to_thinking_config(),
        ThinkingConfig::Enabled { budget_tokens: 16384 }
    );
    assert_eq!(
        EffortLevel::Low.to_thinking_config(),
        ThinkingConfig::Enabled { budget_tokens: 1024 }
    );
}

#[test]
fn user_text_message_holds_one_text_block() {
    let m = InputMessage::user_text("hello");
    assert_eq!(m.role, "user");
    assert_eq!(m.content, vec![InputContentBlock::Text { text: "hello".to_string() }]);
}

#[test]
fn user_tool_result_message_holds_one_result() {
    let m = InputMessage::user_tool_result("tool-1", "done", true);
    assert_eq!(m.role, "user");
    assert_eq!(
        m.content,
        vec![InputContentBlock::ToolResult {
            tool_use_id: "tool-1".to_string(),
            content: vec![ToolResultContentBlock::Text { text: "done".to_string() }],
            is_error: true,
        }]
    );
}

#[test]
fn with_streaming_sets_only_the_stream_flag() {
    let request = MessageRequest {
        model: "opus-large".to_string(),
        max_tokens: 4096,
        messages: vec![InputMessage::user_text("hello")],
        system: None,
        tools: None,
        tool_choice: None,
        stream: false,
        thinking: None,
    };
    let streamed = request.clone().with_streaming();
    assert!(streamed.stream);
    assert_eq!(streamed.model, request.model);
    assert_eq!(streamed.messages, request.messages);
}

#[test]
fn message_response_total_tokens_sums_usage() {
    let response = MessageResponse {
        id: "msg_cost".to_string(),
        kind: "message".to_string(),
        role: "assistant".to_string(),
        content: Vec::new(),
        model: "sonnet-medium".to_string(),
        stop_reason: Some("end_turn".to_string()),
        stop_sequence: None,
        usage: Usage {
            input_tokens: 1_000_000,
            cache_creation_input_tokens: 100_000,
            cache_read_input_tokens: 200_000,
            output_tokens: 500_000,
        },
        request_id: None,
    };
    assert_eq!(response.total_tokens(), 1_800_000);
}

#[test]
fn default_usage_is_zero() {
    let u = Usage::default();
    assert_eq!(u.total_tokens(), 0);
}
