use openai_bridge::content::{convert_assistant_content, OpenAIFunctionCall, OpenAIToolCall};
use openai_bridge::identity::make_chat_id;
use openai_bridge::json::{Fields, Json};
use openai_bridge::response::{
    make_completion, make_tool_call, map_finish_reason, map_non_stream_response, total_tokens,
};

fn json(text: &str) -> Json {
    Json::parse(text).unwrap()
}

#[test]
fn finish_reasons() {
    assert_eq!(map_finish_reason("tool_use"), "tool_calls");
    assert_eq!(map_finish_reason("max_tokens"), "length");
    assert_eq!(map_finish_reason("model_context_window_exceeded"), "length");
    assert_eq!(map_finish_reason("end_turn"), "stop");
    assert_eq!(map_finish_reason(""), "stop");
}

#[test]
fn completion_of_a_message() {
    let message = json(
        r#"{"id":"msg_1","model":"big","stop_reason":"max_tokens",
            "content":[{"type":"text","text":"a"},{"type":"text","text":"b"},{"type":"text"},
                       {"type":"tool_use","id":"t","name":"f","input":{"x":1}},
                       {"type":"tool_use"},{"type":"thinking","text":"no"}],
            "usage":{"input_tokens":3,"output_tokens":4}}"#,
    );
    let completion = make_completion(&message, "small", Json::text("the id"), 99);
    assert_eq!(
        completion.to_value(),
        json(
            r#"{"id":"the id","object":"chat.completion","created":99,"model":"big",
                "choices":[{"index":0,"finish_reason":"length","message":{
                    "role":"assistant","content":"ab","tool_calls":[
                        {"id":"t","type":"function","function":{"name":"f","arguments":"{\"x\":1}"}},
                        {"id":"","type":"function","function":{"name":"","arguments":"{}"}}]}}],
                "usage":{"prompt_tokens":3,"completion_tokens":4,"total_tokens":7}}"#
        )
        .to_value()
    );
}

#[test]
fn completion_of_an_empty_message() {
    let completion = make_completion(&json("{}"), "small", Json::Null, 0);
    assert_eq!(
        completion.to_value(),
        json(
            r#"{"id":null,"object":"chat.completion","created":0,"model":"small",
                "choices":[{"index":0,"finish_reason":"stop","message":{
                    "role":"assistant","content":null,"tool_calls":null}}],
                "usage":{"prompt_tokens":0,"completion_tokens":0,"total_tokens":0}}"#
        )
        .to_value()
    );
}

#[test]
fn ids_of_completions() {
    let own = map_non_stream_response(json(r#"{"id":"msg-1"}"#), "m");
    assert_eq!(own.get_str("id"), Some("msg-1"));
    let odd = map_non_stream_response(json(r#"{"id":7}"#), "m");
    assert_eq!(odd.get_i64("id"), Some(7));
    let one = map_non_stream_response(json("{}"), "m");
    let two = map_non_stream_response(json("{}"), "m");
    let id = one.get_str("id").unwrap().to_string();
    assert!(id.starts_with("chatcmpl_"));
    assert_eq!(id.len(), 41);
    assert!(id["chatcmpl_".len()..].chars().all(|c| c.is_ascii_hexdigit() && !c.is_ascii_uppercase()));
    assert_eq!(id.as_bytes()[9 + 12], b'4');
    assert!(one.get_str("id") != two.get_str("id"));
    assert!(one.get_i64("created").unwrap() > 1_600_000_000);
}

#[test]
fn hyphens_leave_an_id() {
    assert_eq!(make_chat_id("a-b--c"), "chatcmpl_abc");
    assert_eq!(make_chat_id(""), "chatcmpl_");
}

#[test]
fn tokens_are_added_up() {
    assert_eq!(total_tokens(&json(r#"{"usage":{"input_tokens":3,"output_tokens":4}}"#)), Some(7));
    assert_eq!(total_tokens(&json(r#"{"usage":{"input_tokens":3.5}}"#)), Some(0));
    let many = Fields::new()
        .with("input_tokens", Json::Int(i64::MAX))
        .with("output_tokens", Json::Int(1))
        .object();
    assert_eq!(total_tokens(&Fields::new().with("usage", many).object()), None);
}

#[test]
fn tool_calls_come_back_as_blocks() {
    let block = json(r#"{"type":"tool_use","id":"t","name":"f","input":{"a":[null,"b"]}}"#);
    let arguments = block.get("input").unwrap().to_text();
    let reported = make_tool_call(&block, &arguments);
    let sent = OpenAIToolCall {
        id: reported.get_str("id").unwrap().to_string(),
        call_type: reported.get_str("type").unwrap().to_string(),
        function: OpenAIFunctionCall {
            name: reported.get2_str("function", "name").unwrap().to_string(),
            arguments: reported.get2_str("function", "arguments").unwrap().to_string(),
        },
    };
    let content = convert_assistant_content(None, Some(vec![sent]));
    assert_eq!(content.to_value(), Json::Array(vec![block]).to_value());
}

#[test]
fn turns_come_back_as_blocks() {
    let turns = [
        r#"[{"type":"text","text":"so"},{"type":"tool_use","id":"t","name":"f","input":{}},{"type":"tool_use","id":"u","name":"g","input":{"a":[-1,{"b":null}]}}]"#,
        r#"[{"type":"tool_use","id":"t","name":"f","input":[true]}]"#,
        r#"[{"type":"text","text":"so"}]"#,
    ];
    for blocks in turns {
        let message = Fields::new().with("content", json(blocks)).object();
        let reported = make_completion(&message, "m", Json::Null, 0).to_value();
        let message = &reported["choices"][0]["message"];
        let text = |value: &serde_json::Value| value.as_str().unwrap().to_string();
        let calls = message["tool_calls"].as_array().map(|calls| {
            calls
                .iter()
                .map(|call| OpenAIToolCall {
                    id: text(&call["id"]),
                    call_type: text(&call["type"]),
                    function: OpenAIFunctionCall {
                        name: text(&call["function"]["name"]),
                        arguments: text(&call["function"]["arguments"]),
                    },
                })
                .collect()
        });
        let content = Json::from_value(message["content"].clone());
        let sent = convert_assistant_content(Some(content), calls);
        assert_eq!(sent.to_value(), json(blocks).to_value());
    }
}
