use openai_bridge::content::{OpenAIFunctionCall, OpenAIToolCall};
use openai_bridge::json::{Fields, Json};
use openai_bridge::notices::{notices, Notice};
use openai_bridge::request::{
    convert_openai_request, map_openai_tool_choice, MessagesRequest, OpenAIChatRequest,
    OpenAIFunctionDefinition, OpenAIMessage, OpenAIToolDefinition,
};

fn message(role: &str, content: &str) -> OpenAIMessage {
    OpenAIMessage {
        role: role.to_string(),
        content: Some(Json::text(content)),
        tool_calls: None,
        tool_call_id: None,
    }
}

fn tool_message(id: Option<&str>, content: &str) -> OpenAIMessage {
    OpenAIMessage { tool_call_id: id.map(|s| s.to_string()), ..message("tool", content) }
}

fn request(messages: Vec<OpenAIMessage>) -> OpenAIChatRequest {
    OpenAIChatRequest {
        model: "m".to_string(),
        messages,
        stream: true,
        max_tokens: None,
        max_completion_tokens: None,
        tools: None,
        tool_choice: None,
    }
}

fn json(text: &str) -> Json {
    Json::parse(text).unwrap()
}

fn turns(request: &MessagesRequest) -> Vec<(String, String)> {
    request.messages.iter().map(|m| (m.role.clone(), m.content.to_text())).collect()
}

fn turn(role: &str, content: &str) -> (String, String) {
    (role.to_string(), content.to_string())
}

#[test]
fn turns_of_one_speaker_are_merged() {
    let converted = convert_openai_request(request(vec![
        message("user", "a"),
        message("user", "b"),
        message("assistant", "c"),
        message("assistant", "d"),
        message("user", ""),
        tool_message(Some("t1"), "r"),
        message("user", "e"),
    ]))
    .unwrap();
    assert_eq!(
        turns(&converted),
        vec![
            turn("user", r#"[{"text":"a","type":"text"},{"text":"b","type":"text"}]"#),
            turn("assistant", r#"[{"text":"c","type":"text"},{"text":"d","type":"text"}]"#),
            turn(
                "user",
                r#"[{"content":"r","tool_use_id":"t1","type":"tool_result"},{"text":"e","type":"text"}]"#
            ),
        ]
    );
    assert_eq!(converted.model, "m");
    assert!(converted.stream);
    assert_eq!(converted.max_tokens, 4096);
    assert!(converted.system.is_none());
    assert!(converted.tools.is_none());
    assert!(converted.tool_choice.is_none());
    assert!(converted.thinking.is_none());
    assert!(converted.output_config.is_none());
    assert!(converted.metadata.is_none());
}

#[test]
fn empty_turns_stay() {
    let converted = convert_openai_request(request(vec![
        message("user", ""),
        message("assistant", ""),
        message("assistant", ""),
    ]))
    .unwrap();
    assert_eq!(turns(&converted), vec![turn("user", "[]"), turn("assistant", "\" \"")]);
    let converted = convert_openai_request(request(vec![
        message("assistant", ""),
        message("assistant", "x"),
    ]))
    .unwrap();
    assert_eq!(turns(&converted), vec![turn("assistant", r#"[{"text":"x","type":"text"}]"#)]);
}

#[test]
fn system_messages_make_the_system_prompt() {
    let converted = convert_openai_request(request(vec![
        message("system", "one"),
        message("user", "a"),
        message("system", ""),
        message("system", "two"),
        message("developer", "ignored"),
        message("user", "b"),
    ]))
    .unwrap();
    let system: Vec<String> = converted.system.as_ref().unwrap().iter().map(|s| s.text.clone()).collect();
    assert_eq!(system, vec!["one".to_string(), "two".to_string()]);
    assert_eq!(
        turns(&converted),
        vec![turn("user", r#"[{"text":"a","type":"text"},{"text":"b","type":"text"}]"#)]
    );
}

#[test]
fn system_messages_may_stand_anywhere() {
    let talk = || {
        vec![
            message("user", "a"),
            message("assistant", "b"),
            tool_message(Some("t"), "r"),
            message("user", "c"),
        ]
    };
    let mut first = vec![message("system", "one"), message("system", "two")];
    first.extend(talk());
    let first = convert_openai_request(request(first)).unwrap();
    for i in 0..5 {
        for j in i..5 {
            let mut mixed = talk();
            mixed.insert(j, message("system", "two"));
            mixed.insert(i, message("system", "one"));
            let mixed = convert_openai_request(request(mixed)).unwrap();
            assert_eq!(turns(&mixed), turns(&first));
            let texts = |request: &MessagesRequest| -> Vec<String> {
                request.system.as_ref().unwrap().iter().map(|s| s.text.clone()).collect()
            };
            assert_eq!(texts(&mixed), texts(&first));
        }
    }
}

#[test]
fn unknown_roles_are_ignored() {
    let plain = convert_openai_request(request(vec![
        message("user", "a"),
        message("assistant", "b"),
        message("user", "c"),
    ]))
    .unwrap();
    let mixed = convert_openai_request(request(vec![
        message("developer", "x"),
        message("user", "a"),
        message("", "x"),
        message("User", "x"),
        message("assistant", "b"),
        message("user", "c"),
        message("function", "x"),
    ]))
    .unwrap();
    assert_eq!(turns(&mixed), turns(&plain));
    assert!(mixed.system.is_none());
    assert!(convert_openai_request(request(vec![message("developer", "x")])).is_err());
}

#[test]
fn what_is_passed_over_is_told() {
    let looks = r#"[{"type":"image_url","image_url":{"url":"http://a"}},{"type":"text","text":"t"},{"type":"image_url","image_url":{"url":"data:image/png;base64,AA"}},{"type":"image_url"},{"type":"image_url","image_url":{"url":"data:b"}}]"#;
    let look = |role: &str| OpenAIMessage { content: Some(json(looks)), ..message(role, "") };
    let all = || {
        vec![
            message("system", "s"),
            message("developer", "d"),
            look("user"),
            look("assistant"),
            message("user", "http://c"),
            tool_message(Some("t"), "r"),
            message("", "e"),
        ]
    };
    let expected = vec![
        Notice::UnknownRole("developer".to_string()),
        Notice::UnreadImage("http://a".to_string()),
        Notice::UnreadImage("data:b".to_string()),
        Notice::UnknownRole("".to_string()),
    ];
    assert_eq!(notices(&request(all())), expected);
    let mut refused = all();
    refused.push(tool_message(None, "r"));
    refused.push(message("function", "f"));
    assert_eq!(notices(&request(refused)), expected);
    let limited = OpenAIChatRequest { max_tokens: Some(0), ..request(all()) };
    assert_eq!(notices(&limited), vec![]);
    assert_eq!(notices(&request(vec![message("user", "a")])), vec![]);
}

#[test]
fn token_limits() {
    let mut limited = request(vec![message("user", "a")]);
    limited.max_tokens = Some(7);
    assert_eq!(convert_openai_request(limited).unwrap().max_tokens, 7);
    let mut limited = request(vec![message("user", "a")]);
    limited.max_tokens = Some(0);
    limited.max_completion_tokens = Some(9);
    assert_eq!(convert_openai_request(limited).unwrap().max_tokens, 9);
    let mut limited = request(vec![message("user", "a")]);
    limited.max_completion_tokens = Some(-1);
    assert_eq!(convert_openai_request(limited).unwrap_err(), "max_tokens 必须为正整数");
}

#[test]
fn refused_messages() {
    assert_eq!(convert_openai_request(request(vec![])).unwrap_err(), "消息列表为空");
    assert_eq!(
        convert_openai_request(request(vec![message("system", "s"), message("x", "y")])).unwrap_err(),
        "消息列表为空"
    );
    assert_eq!(
        convert_openai_request(request(vec![message("user", "a"), tool_message(None, "r")]))
            .unwrap_err(),
        "tool 消息缺少 tool_call_id"
    );
}

#[test]
fn refused_tool_choices() {
    let refused = |choice: Json| map_openai_tool_choice(Some(choice)).unwrap_err();
    assert_eq!(refused(Json::text("maybe")), "不支持的 tool_choice 字符串: maybe");
    assert_eq!(refused(json(r#"{"type":"x"}"#)), "不支持的 tool_choice 类型: x");
    assert_eq!(refused(json(r#"{"type":1}"#)), "tool_choice 对象缺少 type 字段");
    assert_eq!(refused(json("{}")), "tool_choice 对象缺少 type 字段");
    assert_eq!(refused(json(r#"{"type":"function"}"#)), "tool_choice.function.name 不能为空");
    assert_eq!(
        refused(json(r#"{"type":"function","function":{"name":2}}"#)),
        "tool_choice.function.name 不能为空"
    );
    assert_eq!(refused(Json::Bool(true)), "tool_choice 格式不合法");
    assert_eq!(refused(Json::Null), "tool_choice 格式不合法");
    let mut request = request(vec![message("user", "a")]);
    request.tool_choice = Some(Json::text("maybe"));
    assert_eq!(
        convert_openai_request(request).unwrap_err(),
        "不支持的 tool_choice 字符串: maybe"
    );
}

#[test]
fn mapped_tool_choices_settle() {
    assert_eq!(map_openai_tool_choice(None).unwrap(), None);
    for choice in [r#"{"type":"auto"}"#, r#"{"type":"any","x":1}"#, r#"{"type":"tool","name":"n"}"#] {
        assert_eq!(map_openai_tool_choice(Some(json(choice))).unwrap(), Some(json(choice)));
    }
    let once = map_openai_tool_choice(Some(Json::text("required"))).unwrap();
    assert_eq!(map_openai_tool_choice(once.clone()).unwrap(), once);
}

#[test]
fn tools_are_functions() {
    let function = |name: &str, description: Option<&str>, parameters: Option<Json>| {
        Some(OpenAIFunctionDefinition {
            name: name.to_string(),
            description: description.map(|s| s.to_string()),
            parameters,
        })
    };
    let mut offered = request(vec![message("user", "a")]);
    offered.tools = Some(vec![
        OpenAIToolDefinition {
            tool_type: "function".to_string(),
            function: function("f", Some("d"), Some(json(r#"{"type":"object"}"#))),
        },
        OpenAIToolDefinition { tool_type: "retrieval".to_string(), function: function("g", None, None) },
        OpenAIToolDefinition { tool_type: "function".to_string(), function: None },
        OpenAIToolDefinition {
            tool_type: "function".to_string(),
            function: function("h", None, Some(Json::Int(1))),
        },
    ]);
    let tools = convert_openai_request(offered).unwrap().tools.unwrap();
    assert_eq!(tools.len(), 2);
    assert_eq!(tools[0].name, "f");
    assert_eq!(tools[0].description, "d");
    assert_eq!(tools[0].input_schema, vec![("type".to_string(), Json::text("object"))]);
    assert!(tools[0].tool_type.is_none());
    assert!(tools[0].max_uses.is_none());
    assert_eq!(tools[1].name, "h");
    assert_eq!(tools[1].description, "");
    assert!(tools[1].input_schema.is_empty());
}

#[test]
fn tool_calls_of_assistants_become_blocks() {
    let calling = OpenAIMessage {
        role: "assistant".to_string(),
        content: None,
        tool_calls: Some(vec![OpenAIToolCall {
            id: "c".to_string(),
            call_type: "function".to_string(),
            function: OpenAIFunctionCall {
                name: "f".to_string(),
                arguments: r#"{"a":[1]}"#.to_string(),
            },
        }]),
        tool_call_id: None,
    };
    let converted = convert_openai_request(request(vec![message("user", "q"), calling])).unwrap();
    assert_eq!(
        converted.messages[1].content.to_text(),
        r#"[{"id":"c","input":{"a":[1]},"name":"f","type":"tool_use"}]"#
    );
}

#[test]
fn objects_as_content_become_text() {
    let mut odd = message("user", "");
    odd.content = Some(Fields::new().with("k", Json::Int(1)).object());
    let converted = convert_openai_request(request(vec![odd])).unwrap();
    assert_eq!(turns(&converted), vec![turn("user", r#"[{"text":"{\"k\":1}","type":"text"}]"#)]);
}
