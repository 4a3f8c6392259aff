use openai_bridge::json::{Fields, Json};
use openai_bridge::request::{
    convert_openai_request, map_openai_tool_choice, OpenAIChatRequest, OpenAIMessage,
};
use openai_bridge::response::map_non_stream_response;
use openai_bridge::stream::convert_stream_body;

#[test]
fn non_stream_mapping_handles_tool_calls() {
    let text = Fields::new().with_str("type", "text").with_str("text", "hello").object();
    let tool_use = Fields::new()
        .with_str("type", "tool_use")
        .with_str("id", "tool_1")
        .with_str("name", "weather")
        .with("input", Fields::new().with_str("city", "shanghai").object())
        .object();
    let usage = Fields::new()
        .with("input_tokens", Json::Int(10))
        .with("output_tokens", Json::Int(5))
        .object();
    let input = Fields::new()
        .with_str("id", "msg_1")
        .with_str("model", "sonnet-5")
        .with_str("stop_reason", "tool_use")
        .with("content", Json::Array(vec![text, tool_use]))
        .with("usage", usage)
        .object();
    let output = map_non_stream_response(input, "sonnet-5").to_value();
    assert_eq!(output["object"], "chat.completion");
    assert_eq!(output["choices"][0]["finish_reason"], "tool_calls");
    assert_eq!(
        output["choices"][0]["message"]["tool_calls"][0]["function"]["name"],
        "weather"
    );
}

#[test]
fn stream_mapping_outputs_done() {
    let sse = "event: message_start\ndata: {\"message\":{\"id\":\"msg_123\"}}\n\n\
event: content_block_delta\ndata: {\"index\":0,\"delta\":{\"type\":\"text_delta\",\"text\":\"Hi\"}}\n\n\
event: message_delta\ndata: {\"delta\":{\"stop_reason\":\"end_turn\"}}\n\n\
event: message_stop\ndata: {\"type\":\"message_stop\"}\n\n";
    let output = convert_stream_body(sse.as_bytes(), "sonnet-5");
    assert!(output.contains("\"chat.completion.chunk\""));
    assert!(output.contains("\"content\":\"Hi\""));
    assert!(output.contains("data: [DONE]"));
}

#[test]
fn stream_mapping_supports_crlf() {
    let sse = "event: message_start\r\ndata: {\"message\":{\"id\":\"msg_abc\"}}\r\n\r\n\
event: content_block_delta\r\ndata: {\"index\":0,\"delta\":{\"type\":\"text_delta\",\"text\":\"Hi\"}}\r\n\r\n";
    let output = convert_stream_body(sse.as_bytes(), "sonnet-5");
    assert!(output.contains("\"content\":\"Hi\""));
    assert!(output.contains("\"id\":\"chatcmpl_msg_abc\""));
}

#[test]
fn tool_choice_is_mapped() {
    assert_eq!(
        map_openai_tool_choice(Some(Json::text("auto"))).unwrap(),
        Some(Fields::new().with_str("type", "auto").object())
    );
    assert_eq!(
        map_openai_tool_choice(Some(Json::text("required"))).unwrap(),
        Some(Fields::new().with_str("type", "any").object())
    );
    let function = Fields::new().with_str("name", "search").object();
    assert_eq!(
        map_openai_tool_choice(Some(
            Fields::new().with_str("type", "function").with("function", function).object()
        ))
        .unwrap(),
        Some(Fields::new().with_str("type", "tool").with_str("name", "search").object())
    );
    assert_eq!(map_openai_tool_choice(Some(Json::text("none"))).unwrap(), None);
}

#[test]
fn reject_non_positive_max_tokens() {
    let req = OpenAIChatRequest {
        model: "sonnet-5".to_string(),
        messages: vec![OpenAIMessage {
            role: "user".to_string(),
            content: Some(Json::text("hello")),
            tool_calls: None,
            tool_call_id: None,
        }],
        stream: false,
        max_tokens: Some(0),
        max_completion_tokens: None,
        tools: None,
        tool_choice: None,
    };
    let err = convert_openai_request(req).unwrap_err();
    assert!(err.contains("max_tokens"));
}
