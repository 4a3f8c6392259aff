use openai_bridge::content::{
    convert_assistant_content, convert_data_url_to_image_block, convert_user_content,
    extract_text_content, make_tool_use_block, OpenAIFunctionCall, OpenAIToolCall,
};
use openai_bridge::json::Json;

fn json(text: &str) -> Json {
    Json::parse(text).unwrap()
}

fn call(call_type: &str, arguments: &str) -> OpenAIToolCall {
    OpenAIToolCall {
        id: "call_1".to_string(),
        call_type: call_type.to_string(),
        function: OpenAIFunctionCall {
            name: "search".to_string(),
            arguments: arguments.to_string(),
        },
    }
}

#[test]
fn text_of_contents() {
    assert_eq!(extract_text_content(None), "");
    assert_eq!(extract_text_content(Some(&Json::Null)), "");
    assert_eq!(extract_text_content(Some(&Json::text("hi"))), "hi");
    assert_eq!(extract_text_content(Some(&Json::Int(12))), "12");
    assert_eq!(extract_text_content(Some(&json(r#"{"a":1.5}"#))), r#"{"a":1.5}"#);
    let parts = json(r#"[{"type":"text","text":"a"},{"x":1},"s",{"text":"b"},{"text":3}]"#);
    assert_eq!(extract_text_content(Some(&parts)), "a\nb");
    assert_eq!(extract_text_content(Some(&Json::Array(vec![]))), "");
}

#[test]
fn data_urls_become_images() {
    let block = convert_data_url_to_image_block("data:image/png;base64,iVBO,Rw==").unwrap();
    assert_eq!(
        block.to_text(),
        r#"{"source":{"data":"iVBO,Rw==","media_type":"image/png","type":"base64"},"type":"image"}"#
    );
    let twice = convert_data_url_to_image_block("data:a;base64;base64,d").unwrap();
    assert_eq!(twice.get2_str("source", "media_type"), Some("a"));
}

#[test]
fn other_urls_become_nothing() {
    assert_eq!(convert_data_url_to_image_block("https://example.com/a.png"), None);
    assert_eq!(convert_data_url_to_image_block("data:image/png;base64"), None);
    assert_eq!(convert_data_url_to_image_block("data:image/png,abc"), None);
    assert_eq!(convert_data_url_to_image_block("data"), None);
}

#[test]
fn user_contents() {
    assert_eq!(convert_user_content(None).unwrap(), Json::text(""));
    assert_eq!(convert_user_content(Some(Json::text("x"))).unwrap(), Json::text("x"));
    assert_eq!(convert_user_content(Some(Json::Bool(true))).unwrap(), Json::text("true"));
    assert_eq!(convert_user_content(Some(Json::Null)).unwrap(), Json::text("null"));
    let parts = json(
        r#"[{"type":"text","text":"a"},
            {"type":"image_url","image_url":{"url":"data:image/gif;base64,R0"}},
            {"type":"image_url","image_url":{"url":"http://example.com"}},
            {"type":"image_url"},
            {"type":"text"},
            {"type":"audio","text":"no"},
            {"text":"untyped"}]"#,
    );
    assert_eq!(
        convert_user_content(Some(parts)).unwrap().to_value(),
        json(
            r#"[{"type":"text","text":"a"},
                {"type":"image","source":{"type":"base64","media_type":"image/gif","data":"R0"}}]"#
        )
        .to_value()
    );
}

#[test]
fn assistant_contents() {
    assert_eq!(convert_assistant_content(None, None), Json::text(" "));
    assert_eq!(convert_assistant_content(Some(Json::text("")), Some(vec![])), Json::text(" "));
    let content = convert_assistant_content(
        Some(Json::text("ok")),
        Some(vec![
            call("function", r#"{"q":1}"#),
            call("other", "{}"),
            call("function", "not json"),
        ]),
    );
    assert_eq!(
        content.to_value(),
        json(
            r#"[{"type":"text","text":"ok"},
                {"type":"tool_use","id":"call_1","name":"search","input":{"q":1}},
                {"type":"tool_use","id":"call_1","name":"search","input":{}}]"#
        )
        .to_value()
    );
}

#[test]
fn tool_use_blocks_take_the_parsed_input() {
    let block = make_tool_use_block(&call("function", ""), Some(Json::Int(3)));
    assert_eq!(block.get_i64("input"), Some(3));
    let block = make_tool_use_block(&call("function", ""), None);
    assert_eq!(block.get("input"), Some(&Json::Object(vec![])));
}
