use openai_bridge::gateway::{
    accept_request, answer_body, answer_parsed, read_failure, route_response, Route, StreamRelay,
    Turn, Upstream, MAX_BODY_SIZE,
};
use openai_bridge::json::Json;
use openai_bridge::request::{OpenAIChatRequest, OpenAIMessage};
use openai_bridge::response::make_completion;
use openai_bridge::stream::{convert_stream_body_with, OpenAIStreamMapper};

fn mapper() -> OpenAIStreamMapper {
    OpenAIStreamMapper::with_identity("m", 5, "id".to_string())
}

fn event(choice: &str) -> String {
    format!(
        "data: {{\"choices\":[{}],\"created\":5,\"id\":\"id\",\"model\":\"m\",\"object\":\"chat.completion.chunk\"}}\n\n",
        choice
    )
}

const SSE: &str = "event: message_start\ndata: {\"message\":{\"id\":\"m-1\"}}\n\n\
: a comment\nevent: ping\ndata: {}\n\n\
event: content_block_start\ndata: {\"index\":3,\"content_block\":{\"type\":\"tool_use\",\"id\":\"t\",\"name\":\"f\"}}\n\n\
event: content_block_delta\ndata: {\"index\":3,\"delta\":{\"type\":\"input_json_delta\",\"partial_json\":\"{é\"}}\n\n\
event: message_delta\ndata: {\"delta\":{\"stop_reason\":\"tool_use\"}}\n\n";

#[test]
fn events_become_chunks() {
    let mut mapper = mapper();
    let mut out = Vec::new();
    let data = |text: &str| Json::parse(text).unwrap();
    mapper.handle_event("content_block_delta", &data(r#"{"delta":{"type":"text_delta","text":"Hi"}}"#), &mut out);
    mapper.handle_event("content_block_delta", &data(r#"{"delta":{"type":"text_delta"}}"#), &mut out);
    mapper.handle_event("content_block_delta", &data(r#"{"delta":{"type":"other"}}"#), &mut out);
    mapper.handle_event("content_block_start", &data(r#"{"content_block":{"type":"text"}}"#), &mut out);
    mapper.handle_event("message_stop", &data("{}"), &mut out);
    mapper.handle_event("message_delta", &data("{}"), &mut out);
    mapper.handle_event("message_start", &data("{}"), &mut out);
    assert_eq!(
        out,
        vec![
            event(r#"{"delta":{"content":"Hi"},"finish_reason":null,"index":0}"#),
            event(r#"{"delta":{},"finish_reason":"stop","index":0}"#),
            event(r#"{"delta":{"role":"assistant"},"finish_reason":null,"index":0}"#),
        ]
    );
}

#[test]
fn tool_calls_are_numbered_in_order() {
    let mut mapper = mapper();
    let mut out = Vec::new();
    for (kind, block) in [("start", 4), ("start", 9), ("delta", 4), ("delta", 9), ("delta", 2)] {
        if kind == "start" {
            let text = format!(r#"{{"index":{},"content_block":{{"type":"tool_use"}}}}"#, block);
            mapper.handle_event("content_block_start", &Json::parse(&text).unwrap(), &mut out);
        } else {
            let text = format!(r#"{{"index":{},"delta":{{"type":"input_json_delta"}}}}"#, block);
            mapper.handle_event("content_block_delta", &Json::parse(&text).unwrap(), &mut out);
        }
    }
    let start = |n: u64| {
        event(&format!(
            r#"{{"delta":{{"tool_calls":[{{"function":{{"arguments":"","name":""}},"id":"","index":{},"type":"function"}}]}},"finish_reason":null,"index":0}}"#,
            n
        ))
    };
    let delta = |n: u64| {
        event(&format!(
            r#"{{"delta":{{"tool_calls":[{{"function":{{"arguments":""}},"index":{}}}]}},"finish_reason":null,"index":0}}"#,
            n
        ))
    };
    assert_eq!(out, vec![start(0), start(1), delta(0), delta(1), delta(2)]);
}

#[test]
fn whole_stream() {
    let body = convert_stream_body_with(mapper(), SSE.as_bytes());
    let chunk = |choice: &str| event(choice).replace("\"id\":\"id\"", "\"id\":\"chatcmpl_m1\"");
    let expected = [
        chunk(r#"{"delta":{"role":"assistant"},"finish_reason":null,"index":0}"#),
        chunk(r#"{"delta":{"tool_calls":[{"function":{"arguments":"","name":"f"},"id":"t","index":0,"type":"function"}]},"finish_reason":null,"index":0}"#),
        chunk(r#"{"delta":{"tool_calls":[{"function":{"arguments":"{é"},"index":0}]},"finish_reason":null,"index":0}"#),
        chunk(r#"{"delta":{},"finish_reason":"tool_calls","index":0}"#),
        "data: [DONE]\n\n".to_string(),
    ]
    .concat();
    assert_eq!(body, expected);
}

#[test]
fn pieces_make_no_difference() {
    let whole = convert_stream_body_with(mapper(), SSE.as_bytes());
    for size in 1..40 {
        let mut mapper = mapper();
        let mut body = String::new();
        for piece in SSE.as_bytes().chunks(size) {
            for event in mapper.feed_chunk(piece) {
                body.push_str(&event);
            }
        }
        for event in mapper.finish() {
            body.push_str(&event);
        }
        body.push_str("data: [DONE]\n\n");
        assert_eq!(body, whole);
    }
}

#[test]
fn line_ends_make_no_difference() {
    let crlf = SSE.replace('\n', "\r\n");
    assert_eq!(
        convert_stream_body_with(mapper(), crlf.as_bytes()),
        convert_stream_body_with(mapper(), SSE.as_bytes())
    );
}

#[test]
fn streamed_or_not_a_message_ends_alike() {
    for reason in ["end_turn", "max_tokens", "tool_use", "stop_sequence"] {
        let data = Json::parse(&format!(r#"{{"delta":{{"stop_reason":"{}"}}}}"#, reason)).unwrap();
        let mut out = Vec::new();
        mapper().handle_event("message_delta", &data, &mut out);
        let streamed = Json::parse(out[0].strip_prefix("data: ").unwrap()).unwrap().to_value();
        let message = Json::parse(&format!(r#"{{"stop_reason":"{}"}}"#, reason)).unwrap();
        let whole = make_completion(&message, "m", Json::Null, 0).to_value();
        assert_eq!(streamed["choices"][0]["finish_reason"], whole["choices"][0]["finish_reason"]);
    }
}

#[test]
fn last_record_needs_no_end() {
    let mut mapper = mapper();
    assert!(mapper.feed_chunk(b"event:  message_delta\ndata:{\"delta\":\ndata: {}}\r\r").is_empty());
    assert_eq!(mapper.finish(), vec![event(r#"{"delta":{},"finish_reason":"stop","index":0}"#)]);
    assert!(mapper.finish().is_empty());
}

#[test]
fn records_that_say_nothing() {
    let mut mapper = mapper();
    assert!(mapper.feed_chunk(b"data: {}\n\n").is_empty());
    assert!(mapper.feed_chunk(b"event: message_delta\n\n").is_empty());
    assert!(mapper.feed_chunk(b"event: message_delta\ndata: [DONE]\n\n").is_empty());
    assert!(mapper.feed_chunk(b"event: message_delta\ndata: nonsense\n\n").is_empty());
    assert!(mapper.feed_chunk(b"event: ping\ndata: {}\n\n").is_empty());
    assert!(mapper.feed_chunk(b"event: unknown\ndata: {}\n\n").is_empty());
    assert!(mapper.feed_chunk(b"\n\n:x\nid: 3\n\n").is_empty());
    assert!(mapper.finish().is_empty());
}

#[test]
fn bytes_that_are_no_text_are_replaced() {
    let mut mapper = mapper();
    let mut input = b"event: content_block_delta\ndata: {\"delta\":{\"type\":\"text_delta\",\"text\":\"".to_vec();
    input.extend_from_slice(&[0xff, 0xc3, 0xa9]);
    input.extend_from_slice(b"\"}}\n\n");
    assert_eq!(
        mapper.feed_chunk(&input),
        vec![event("{\"delta\":{\"content\":\"\u{fffd}é\"},\"finish_reason\":null,\"index\":0}")]
    );
}

#[test]
fn white_space_before_a_value_is_left_out() {
    let mut mapper = mapper();
    let mut out = Vec::new();
    mapper.feed_line("event:\u{3000}\u{a0}\t message_delta".as_bytes(), &mut out);
    mapper.feed_line(b"data:{}", &mut out);
    mapper.feed_line(b"", &mut out);
    assert_eq!(out.len(), 1);
}

#[test]
fn values_are_read_one_by_one() {
    let mut mapper = mapper();
    let mut out = Vec::new();
    mapper.read_event(" ping");
    mapper.read_event(" message_delta");
    mapper.read_data("\t{");
    mapper.read_data("}");
    mapper.flush_record(&mut out);
    assert_eq!(out, vec![event(r#"{"delta":{},"finish_reason":"stop","index":0}"#)]);
    mapper.flush_record(&mut out);
    assert_eq!(out.len(), 1);
}

#[test]
fn chunks_tell_the_id_of_the_last_start() {
    let mut mapper = mapper();
    let mut out = Vec::new();
    let mut tell = |event: &str, data: &str| {
        mapper.handle_event(event, &Json::parse(data).unwrap(), &mut out);
        let chunk = Json::parse(out.last().unwrap().strip_prefix("data: ").unwrap()).unwrap();
        chunk.get_str("id").unwrap().to_string()
    };
    assert_eq!(tell("message_delta", "{}"), "id");
    assert_eq!(tell("message_start", r#"{"message":{"id":"a-b"}}"#), "chatcmpl_ab");
    assert_eq!(tell("message_delta", r#"{"message":{"id":"c"}}"#), "chatcmpl_ab");
    assert_eq!(tell("message_start", "{}"), "chatcmpl_ab");
    assert_eq!(tell("message_start", r#"{"message":{"id":"c"}}"#), "chatcmpl_c");
}

#[test]
fn chunks_come_only_with_blank_lines() {
    let mut mapper = mapper();
    assert!(mapper.feed_chunk(b"event: message_del").is_empty());
    assert!(mapper.feed_chunk(b"ta\r\ndata: {}\r\n").is_empty());
    assert!(mapper.feed_chunk(b"\r").is_empty());
    assert_eq!(mapper.feed_chunk(b"\nevent: x").len(), 1);
    assert!(mapper.feed_chunk(b"\n\n\n").is_empty());
}

#[test]
fn line_ends_within_a_line() {
    for cut in 0..SSE.len() {
        let (a, b) = SSE.as_bytes().split_at(cut);
        let mut plain = mapper();
        let mut returned = mapper();
        plain.feed_chunk(a);
        returned.feed_chunk(a);
        let crlf: Vec<u8> = b
            .iter()
            .flat_map(|byte| if *byte == b'\n' { vec![b'\r', b'\n'] } else { vec![*byte] })
            .collect();
        assert_eq!(plain.feed_chunk(b), returned.feed_chunk(&crlf));
    }
}

#[test]
fn comments_and_other_fields_are_ignored() {
    let expected = convert_stream_body_with(mapper(), SSE.as_bytes());
    let lines: [&[u8]; 7] =
        [b":", b": data: {}", b"id: 1", b"retry", b" data: {}", b"\r\r", b"\xff\xfe"];
    for line in lines {
        let mut input = Vec::new();
        for part in SSE.as_bytes().split_inclusive(|byte| *byte == b'\n') {
            input.extend_from_slice(line);
            input.push(b'\n');
            input.extend_from_slice(part);
        }
        assert_eq!(convert_stream_body_with(mapper(), &input), expected);
    }
}

#[test]
fn the_end_is_two_line_ends() {
    for cut in 0..SSE.len() {
        let mut one = mapper();
        let mut two = mapper();
        one.feed_chunk(&SSE.as_bytes()[..cut]);
        two.feed_chunk(&SSE.as_bytes()[..cut]);
        assert_eq!(one.finish(), two.feed_chunk(b"\n\n"));
    }
    let mut one = mapper();
    let mut two = mapper();
    one.feed_chunk(b"event: message_delta\ndata: {}\nevent: ping\r\r");
    two.feed_chunk(b"event: message_delta\ndata: {}\nevent: ping\r\r");
    assert_eq!(one.finish().len(), 0);
    assert_eq!(two.feed_chunk(b"\n\n").len(), 0);
    let mut one = mapper();
    let mut two = mapper();
    one.feed_chunk(b"data: {}\nevent: message_delta\r\r");
    two.feed_chunk(b"data: {}\nevent: message_delta\r\r");
    assert_eq!(one.finish().len(), 1);
    assert_eq!(two.feed_chunk(b"\n\n").len(), 0);
}

#[test]
fn the_end_marker_stands_once() {
    let marker = "data: [DONE]\n\n";
    let input = "event: content_block_delta\n\
data: {\"delta\":{\"type\":\"text_delta\",\"text\":\"data: [DONE]\\n\\n\"}}\n\n\
event: message_delta\ndata: [DONE]\n\n";
    let body = convert_stream_body_with(mapper(), input.as_bytes());
    assert_eq!(body.matches(marker).count(), 1);
    assert!(body.ends_with(marker));
    let mut relay = StreamRelay::with_mapper(mapper());
    relay.receive(Upstream::Bytes(input.as_bytes().to_vec()));
    relay.receive(Upstream::Ended);
    let mut answer = String::new();
    assert!(sent(&mut relay, &mut answer));
    assert_eq!(answer, body);
}

#[test]
fn fresh_mappers_have_fresh_ids() {
    let chunk = |mapper: &OpenAIStreamMapper| mapper.make_chunk(Json::Null, Json::Null);
    let one = chunk(&OpenAIStreamMapper::new("m"));
    let two = chunk(&OpenAIStreamMapper::new("m"));
    assert_eq!(one.get_str("model"), Some("m"));
    assert_eq!(one.get_str("id").unwrap().len(), 41);
    assert!(one.get_str("id") != two.get_str("id"));
}

fn sent(relay: &mut StreamRelay, answer: &mut String) -> bool {
    loop {
        match relay.next_turn() {
            Turn::Send(event) => answer.push_str(&event),
            Turn::Wait => return false,
            Turn::Stop => return true,
        }
    }
}

#[test]
fn relay_answers_the_whole_body() {
    let mut relay = StreamRelay::with_mapper(mapper());
    let mut answer = String::new();
    for piece in SSE.as_bytes().chunks(7) {
        assert!(!sent(&mut relay, &mut answer));
        relay.receive(Upstream::Bytes(piece.to_vec()));
    }
    assert!(!sent(&mut relay, &mut answer));
    relay.receive(Upstream::Ended);
    assert!(sent(&mut relay, &mut answer));
    assert!(sent(&mut relay, &mut answer));
    assert_eq!(answer, convert_stream_body_with(mapper(), SSE.as_bytes()));
}

#[test]
fn relay_ends_a_broken_body() {
    let mut relay = StreamRelay::new("m");
    let mut answer = String::new();
    relay.receive(Upstream::Bytes(b"event: message_delta\ndata: {}".to_vec()));
    relay.receive(Upstream::Failed);
    assert!(sent(&mut relay, &mut answer));
    assert_eq!(answer, "data: [DONE]\n\n");
}

#[test]
fn routes() {
    assert_eq!(route_response(200, true), Route::Stream);
    assert_eq!(route_response(299, false), Route::Collect);
    assert_eq!(route_response(300, true), Route::PassOn);
    assert_eq!(route_response(199, false), Route::PassOn);
    assert_eq!(route_response(429, true), Route::PassOn);
    assert_eq!(MAX_BODY_SIZE, 52_428_800);
}

#[test]
fn accepted_and_refused_requests() {
    let request = |max_tokens: Option<i32>| OpenAIChatRequest {
        model: "m".to_string(),
        messages: vec![OpenAIMessage {
            role: "user".to_string(),
            content: Some(Json::text("a")),
            tool_calls: None,
            tool_call_id: None,
        }],
        stream: true,
        max_tokens,
        max_completion_tokens: None,
        tools: None,
        tool_choice: None,
    };
    let accepted = accept_request(request(None)).unwrap();
    assert_eq!(accepted.model, "m");
    assert!(accepted.stream);
    assert_eq!(accepted.request.messages.len(), 1);
    let refused = accept_request(request(Some(-4))).unwrap_err();
    assert_eq!(refused.status, 400);
    assert_eq!(refused.error_type, "invalid_request_error");
    assert_eq!(refused.message, "max_tokens 必须为正整数");
}

#[test]
fn answers_for_bodies() {
    let answer = answer_body(br#"{"id":"x","stop_reason":"max_tokens"}"#, "m").unwrap().unwrap();
    assert_eq!(answer.get_str("id"), Some("x"));
    assert_eq!(answer.to_value()["choices"][0]["finish_reason"], "length");
    let failed = answer_body(b"oops", "m").unwrap().unwrap_err();
    assert_eq!(failed.status, 502);
    assert_eq!(failed.error_type, "api_error");
    assert_eq!(failed.message, "响应 JSON 解析失败: expected value at line 1 column 1");
    let many = br#"{"usage":{"input_tokens":9223372036854775807,"output_tokens":1}}"#;
    assert!(answer_body(many, "m").is_none());
    let failed = answer_parsed(Err("why".to_string()), "m").unwrap_err();
    assert_eq!(failed.message, "响应 JSON 解析失败: why");
    let failed = read_failure("cut off");
    assert_eq!(failed.status, 502);
    assert_eq!(failed.message, "读取响应失败: cut off");
}
