//! The conversion of an OpenAI chat request into an Anthropic messages request.

use crate::content::{
    assistant_message_blocks, assistant_turn, convert_assistant_content, convert_user_content,
    extract_text_content, lemma_present_push, make_assistant_turn, make_text_block,
    make_tool_result_block, opt_tool_calls_view, present, text_block, text_content,
    tool_result_block, user_content, OpenAIToolCall, ToolCallView,
};
use crate::json::{
    array_view, as_str, no_fields, object_view, opt_view, Fields, Json, JsonView,
};
use crate::serde_value::printed;
use crate::text::concat;
use vstd::prelude::*;

verus! {

/// A chat request of OpenAI.
#[derive(Debug)]
pub struct OpenAIChatRequest {
    pub model: String,
    pub messages: Vec<OpenAIMessage>,
    pub stream: bool,
    pub max_tokens: Option<i32>,
    pub max_completion_tokens: Option<i32>,
    pub tools: Option<Vec<OpenAIToolDefinition>>,
    pub tool_choice: Option<Json>,
}

/// A message of a chat request.
#[derive(Debug)]
pub struct OpenAIMessage {
    pub role: String,
    pub content: Option<Json>,
    pub tool_calls: Option<Vec<OpenAIToolCall>>,
    pub tool_call_id: Option<String>,
}

/// A tool that a chat request offers.
#[derive(Debug)]
pub struct OpenAIToolDefinition {
    pub tool_type: String,
    pub function: Option<OpenAIFunctionDefinition>,
}

/// A function that a chat request offers as a tool.
#[derive(Debug)]
pub struct OpenAIFunctionDefinition {
    pub name: String,
    pub description: Option<String>,
    pub parameters: Option<Json>,
}

/// A messages request of Anthropic.
#[derive(Debug)]
pub struct MessagesRequest {
    pub model: String,
    pub max_tokens: i32,
    pub messages: Vec<Message>,
    pub stream: bool,
    pub system: Option<Vec<SystemMessage>>,
    pub tools: Option<Vec<Tool>>,
    pub tool_choice: Option<Json>,
    pub thinking: Option<Json>,
    pub output_config: Option<Json>,
    pub metadata: Option<Json>,
}

/// A message of a messages request.
#[derive(Debug)]
pub struct Message {
    pub role: String,
    pub content: Json,
}

/// A part of the system prompt.
#[derive(Debug)]
pub struct SystemMessage {
    pub text: String,
}

/// A tool of a messages request. The fields of its schema stand in the order in
/// which they were given.
#[derive(Debug)]
pub struct Tool {
    pub tool_type: Option<String>,
    pub name: String,
    pub description: String,
    pub input_schema: Vec<(String, Json)>,
    pub max_uses: Option<i32>,
}

/// What an optional string holds.
pub open spec fn opt_text(s: Option<String>) -> Option<Seq<char>> {
    match s {
        Some(s) => Some(s@),
        None => None,
    }
}

/// What a message of a chat request says.
pub struct OpenAIMessageView {
    pub role: Seq<char>,
    pub content: Option<JsonView>,
    pub tool_calls: Option<Seq<ToolCallView>>,
    pub tool_call_id: Option<Seq<char>>,
}

impl View for OpenAIMessage {
    type V = OpenAIMessageView;

    open spec fn view(&self) -> OpenAIMessageView {
        OpenAIMessageView {
            role: self.role@,
            content: opt_view(self.content),
            tool_calls: opt_tool_calls_view(self.tool_calls),
            tool_call_id: opt_text(self.tool_call_id),
        }
    }
}

/// What a function definition says.
pub struct FunctionDefinitionView {
    pub name: Seq<char>,
    pub description: Option<Seq<char>>,
    pub parameters: Option<JsonView>,
}

impl View for OpenAIFunctionDefinition {
    type V = FunctionDefinitionView;

    open spec fn view(&self) -> FunctionDefinitionView {
        FunctionDefinitionView {
            name: self.name@,
            description: opt_text(self.description),
            parameters: opt_view(self.parameters),
        }
    }
}

/// What a tool definition says.
pub struct ToolDefinitionView {
    pub tool_type: Seq<char>,
    pub function: Option<FunctionDefinitionView>,
}

impl View for OpenAIToolDefinition {
    type V = ToolDefinitionView;

    open spec fn view(&self) -> ToolDefinitionView {
        ToolDefinitionView {
            tool_type: self.tool_type@,
            function: match self.function {
                Some(function) => Some(function@),
                None => None,
            },
        }
    }
}

/// What a chat request says.
pub struct OpenAIChatRequestView {
    pub model: Seq<char>,
    pub messages: Seq<OpenAIMessageView>,
    pub stream: bool,
    pub max_tokens: Option<i32>,
    pub max_completion_tokens: Option<i32>,
    pub tools: Option<Seq<ToolDefinitionView>>,
    pub tool_choice: Option<JsonView>,
}

/// What the messages of a chat request say.
pub open spec fn openai_messages_view(messages: Seq<OpenAIMessage>) -> Seq<OpenAIMessageView> {
    messages.map_values(|m: OpenAIMessage| m@)
}

/// What tool definitions say.
pub open spec fn tool_definitions_view(tools: Seq<OpenAIToolDefinition>) -> Seq<
    ToolDefinitionView,
> {
    tools.map_values(|t: OpenAIToolDefinition| t@)
}

impl View for OpenAIChatRequest {
    type V = OpenAIChatRequestView;

    open spec fn view(&self) -> OpenAIChatRequestView {
        OpenAIChatRequestView {
            model: self.model@,
            messages: openai_messages_view(self.messages@),
            stream: self.stream,
            max_tokens: self.max_tokens,
            max_completion_tokens: self.max_completion_tokens,
            tools: match self.tools {
                Some(tools) => Some(tool_definitions_view(tools@)),
                None => None,
            },
            tool_choice: opt_view(self.tool_choice),
        }
    }
}

/// What a message of a messages request says.
#[verifier::ext_equal]
pub struct MessageView {
    pub role: Seq<char>,
    pub content: JsonView,
}

impl View for Message {
    type V = MessageView;

    open spec fn view(&self) -> MessageView {
        MessageView { role: self.role@, content: self.content@ }
    }
}

/// What the messages of a messages request say.
pub open spec fn messages_view(messages: Seq<Message>) -> Seq<MessageView> {
    messages.map_values(|m: Message| m@)
}

/// What a tool of a messages request says.
#[verifier::ext_equal]
pub struct ToolView {
    pub tool_type: Option<Seq<char>>,
    pub name: Seq<char>,
    pub description: Seq<char>,
    pub input_schema: Map<Seq<char>, JsonView>,
    pub max_uses: Option<i32>,
}

impl View for Tool {
    type V = ToolView;

    open spec fn view(&self) -> ToolView {
        ToolView {
            tool_type: opt_text(self.tool_type),
            name: self.name@,
            description: self.description@,
            input_schema: object_view(self.input_schema@),
            max_uses: self.max_uses,
        }
    }
}

/// What the tools of a messages request say.
pub open spec fn tools_view(tools: Seq<Tool>) -> Seq<ToolView> {
    tools.map_values(|t: Tool| t@)
}

/// What the parts of a system prompt say.
pub open spec fn system_view(system: Seq<SystemMessage>) -> Seq<Seq<char>> {
    system.map_values(|s: SystemMessage| s.text@)
}

/// What a messages request says.
pub struct MessagesRequestView {
    pub model: Seq<char>,
    pub max_tokens: i32,
    pub messages: Seq<MessageView>,
    pub stream: bool,
    pub system: Option<Seq<Seq<char>>>,
    pub tools: Option<Seq<ToolView>>,
    pub tool_choice: Option<JsonView>,
    pub thinking: Option<JsonView>,
    pub output_config: Option<JsonView>,
    pub metadata: Option<JsonView>,
}

impl View for MessagesRequest {
    type V = MessagesRequestView;

    open spec fn view(&self) -> MessagesRequestView {
        MessagesRequestView {
            model: self.model@,
            max_tokens: self.max_tokens,
            messages: messages_view(self.messages@),
            stream: self.stream,
            system: match self.system {
                Some(system) => Some(system_view(system@)),
                None => None,
            },
            tools: match self.tools {
                Some(tools) => Some(tools_view(tools@)),
                None => None,
            },
            tool_choice: opt_view(self.tool_choice),
            thinking: opt_view(self.thinking),
            output_config: opt_view(self.output_config),
            metadata: opt_view(self.metadata),
        }
    }
}

/// What a conversion gave, or the message with which it refused.
pub open spec fn opt_result_view(r: Result<Option<Json>, String>) -> Result<
    Option<JsonView>,
    Seq<char>,
> {
    match r {
        Ok(value) => Ok(opt_view(value)),
        Err(message) => Err(message@),
    }
}

/// What a tool choice becomes, or why it is refused.
pub open spec fn tool_choice_of(choice: Option<JsonView>) -> Result<Option<JsonView>, Seq<char>> {
    match choice {
        None => Ok(None),
        Some(JsonView::Str(word)) => if word == "auto"@ {
            Ok(Some(JsonView::Object(map!["type"@ => JsonView::Str("auto"@)])))
        } else if word == "required"@ {
            Ok(Some(JsonView::Object(map!["type"@ => JsonView::Str("any"@)])))
        } else if word == "none"@ {
            Ok(None)
        } else {
            Err("不支持的 tool_choice 字符串: "@ + word)
        },
        Some(JsonView::Object(fields)) => {
            let object = JsonView::Object(fields);
            match as_str(object.get("type"@)) {
                None => Err("tool_choice 对象缺少 type 字段"@),
                Some(kind) => if kind == "function"@ {
                    match as_str(object.get2("function"@, "name"@)) {
                        Some(name) => Ok(
                            Some(
                                JsonView::Object(
                                    map![
                                        "type"@ => JsonView::Str("tool"@),
                                        "name"@ => JsonView::Str(name)
                                    ],
                                ),
                            ),
                        ),
                        None => Err("tool_choice.function.name 不能为空"@),
                    }
                } else if kind == "auto"@ || kind == "any"@ || kind == "tool"@ {
                    Ok(Some(object))
                } else {
                    Err("不支持的 tool_choice 类型: "@ + kind)
                },
            }
        },
        Some(_) => Err("tool_choice 格式不合法"@),
    }
}

/// What a tool choice becomes, or the message with which it is refused.
pub fn map_openai_tool_choice(tool_choice: Option<Json>) -> (r: Result<Option<Json>, String>)
    ensures
        opt_result_view(r) == tool_choice_of(opt_view(tool_choice)),
{
    match tool_choice {
        None => Ok(None),
        Some(Json::Str(word)) => if word.as_str().eq("auto") {
            Ok(Some(Fields::new().with_str("type", "auto").object()))
        } else if word.as_str().eq("required") {
            Ok(Some(Fields::new().with_str("type", "any").object()))
        } else if word.as_str().eq("none") {
            Ok(None)
        } else {
            Err(concat("不支持的 tool_choice 字符串: ", word.as_str()))
        },
        Some(Json::Object(fields)) => {
            let object = Json::Object(fields);
            let kind = match object.get_str("type") {
                Some(kind) => kind.to_owned(),
                None => {
                    return Err("tool_choice 对象缺少 type 字段".to_owned());
                },
            };
            let kind = kind.as_str();
            if kind.eq("function") {
                match object.get2_str("function", "name") {
                    Some(name) => Ok(
                        Some(
                            Fields::new().with_str("type", "tool").with_str("name", name).object(),
                        ),
                    ),
                    None => Err("tool_choice.function.name 不能为空".to_owned()),
                }
            } else if kind.eq("auto") || kind.eq("any") || kind.eq("tool") {
                Ok(Some(object))
            } else {
                Err(concat("不支持的 tool_choice 类型: ", kind))
            }
        },
        Some(_) => Err("tool_choice 格式不合法".to_owned()),
    }
}

/// The schema of a function's parameters: an object as it is, and no fields where
/// the parameters are missing or no object.
pub open spec fn input_schema_of(parameters: Option<JsonView>) -> Map<Seq<char>, JsonView> {
    match parameters {
        Some(JsonView::Object(fields)) => fields,
        _ => no_fields(),
    }
}

/// What a tool definition becomes. Only a function has a tool.
pub open spec fn tool_of(definition: ToolDefinitionView) -> Option<ToolView> {
    match definition.function {
        Some(function) => if definition.tool_type == "function"@ {
            Some(
                ToolView {
                    tool_type: None,
                    name: function.name,
                    description: match function.description {
                        Some(description) => description,
                        None => Seq::empty(),
                    },
                    input_schema: input_schema_of(function.parameters),
                    max_uses: None,
                },
            )
        } else {
            None
        },
        None => None,
    }
}

/// What the tool definitions of a chat request become, in order.
pub open spec fn tools_of(definitions: Seq<ToolDefinitionView>) -> Seq<ToolView> {
    present(definitions.map_values(|d: ToolDefinitionView| tool_of(d)))
}

/// What an optional tool says.
pub open spec fn opt_tool_view(tool: Option<Tool>) -> Option<ToolView> {
    match tool {
        Some(tool) => Some(tool@),
        None => None,
    }
}

/// What a tool definition becomes.
fn convert_tool(definition: OpenAIToolDefinition) -> (r: Option<Tool>)
    ensures
        opt_tool_view(r) == tool_of(definition@),
{
    if !definition.tool_type.as_str().eq("function") {
        return None;
    }
    match definition.function {
        None => None,
        Some(function) => {
            let input_schema = match function.parameters {
                Some(Json::Object(fields)) => fields,
                _ => Vec::new(),
            };
            let description = match function.description {
                Some(description) => description,
                None => String::new(),
            };
            Some(
                Tool {
                    tool_type: None,
                    name: function.name,
                    description,
                    input_schema,
                    max_uses: None,
                },
            )
        },
    }
}

/// What the tool definitions of a chat request become.
fn convert_tools(definitions: Vec<OpenAIToolDefinition>) -> (r: Vec<Tool>)
    ensures
        tools_view(r@) == tools_of(tool_definitions_view(definitions@)),
{
    let ghost all = definitions@;
    let ghost f = |d: ToolDefinitionView| tool_of(d);
    let mut tools: Vec<Tool> = Vec::new();
    for definition in it: definitions
        invariant
            it.seq() == all,
            f == (|d: ToolDefinitionView| tool_of(d)),
            tools_view(tools@) == present(
                tool_definitions_view(all).take(it.index() as int).map_values(f),
            ),
    {
        let ghost i = it.index() as int;
        let ghost before = tools@;
        assert(definition == all[i]);
        let tool = convert_tool(definition);
        proof {
            let seen = tool_definitions_view(all).take(i).map_values(f);
            lemma_present_push(seen, opt_tool_view(tool));
            assert(tool_definitions_view(all).take(i + 1).map_values(f) =~= seen.push(
                opt_tool_view(tool),
            ));
        }
        if let Some(tool) = tool {
            tools.push(tool);
            assert(tools_view(tools@) =~= tools_view(before).push(tool@));
        }
    }
    assert(tool_definitions_view(all).take(all.len() as int) =~= tool_definitions_view(all));
    tools
}

/// The blocks of a user's content.
pub open spec fn user_blocks(content: JsonView) -> Seq<JsonView> {
    match content {
        JsonView::Array(blocks) => blocks,
        JsonView::Str(s) => if s.len() > 0 {
            seq![text_block(s)]
        } else {
            Seq::empty()
        },
        value => seq![text_block(printed(value))],
    }
}

/// The blocks of an assistant's content, in which a single space stands for none.
pub open spec fn assistant_blocks(content: JsonView) -> Seq<JsonView> {
    match content {
        JsonView::Array(blocks) => blocks,
        JsonView::Str(s) => if s != " "@ {
            seq![text_block(s)]
        } else {
            Seq::empty()
        },
        value => seq![text_block(printed(value))],
    }
}

/// The messages with the blocks of a user added: to the last message where it is
/// a user's, and as a message of their own otherwise.
pub open spec fn with_user_blocks(messages: Seq<MessageView>, blocks: Seq<JsonView>) -> Seq<
    MessageView,
> {
    if messages.len() > 0 && messages.last().role == "user"@ {
        messages.drop_last().push(
            MessageView {
                role: "user"@,
                content: JsonView::Array(user_blocks(messages.last().content) + blocks),
            },
        )
    } else {
        messages.push(MessageView { role: "user"@, content: JsonView::Array(blocks) })
    }
}

/// The messages with the blocks of an assistant added: to the last message where
/// it is an assistant's, and as a message of their own otherwise.
pub open spec fn with_assistant_blocks(messages: Seq<MessageView>, blocks: Seq<JsonView>) -> Seq<
    MessageView,
> {
    if messages.len() > 0 && messages.last().role == "assistant"@ {
        messages.drop_last().push(
            MessageView {
                role: "assistant"@,
                content: assistant_turn(assistant_blocks(messages.last().content) + blocks),
            },
        )
    } else {
        messages.push(MessageView { role: "assistant"@, content: assistant_turn(blocks) })
    }
}

/// The blocks of a user's content.
fn into_user_blocks(content: Json) -> (r: Vec<Json>)
    ensures
        array_view(r@) == user_blocks(content@),
{
    match content {
        Json::Array(blocks) => blocks,
        Json::Str(s) => {
            let mut blocks: Vec<Json> = Vec::new();
            if !s.as_str().is_empty() {
                blocks.push(make_text_block(s.as_str()));
            }
            assert(array_view(blocks@) =~= user_blocks(content@));
            blocks
        },
        value => {
            let mut blocks: Vec<Json> = Vec::new();
            blocks.push(make_text_block(value.to_text().as_str()));
            assert(array_view(blocks@) =~= user_blocks(content@));
            blocks
        },
    }
}

/// The blocks of an assistant's content.
fn into_assistant_blocks(content: Json) -> (r: Vec<Json>)
    ensures
        array_view(r@) == assistant_blocks(content@),
{
    match content {
        Json::Array(blocks) => blocks,
        Json::Str(s) => {
            let mut blocks: Vec<Json> = Vec::new();
            if !s.as_str().eq(" ") {
                blocks.push(make_text_block(s.as_str()));
            }
            assert(array_view(blocks@) =~= assistant_blocks(content@));
            blocks
        },
        value => {
            let mut blocks: Vec<Json> = Vec::new();
            blocks.push(make_text_block(value.to_text().as_str()));
            assert(array_view(blocks@) =~= assistant_blocks(content@));
            blocks
        },
    }
}

/// Adds the blocks of a user to the messages.
fn add_user_blocks(messages: &mut Vec<Message>, blocks: Vec<Json>)
    ensures
        messages_view(final(messages)@) == with_user_blocks(
            messages_view(old(messages)@),
            array_view(blocks@),
        ),
{
    let mut blocks = blocks;
    match messages.pop() {
        Some(last) => {
            if last.role.as_str().eq("user") {
                let mut merged = into_user_blocks(last.content);
                let ghost before = array_view(merged@);
                let ghost added = array_view(blocks@);
                merged.append(&mut blocks);
                assert(array_view(merged@) =~= before + added);
                messages.push(Message { role: "user".to_owned(), content: Json::Array(merged) });
            } else {
                messages.push(last);
                messages.push(Message { role: "user".to_owned(), content: Json::Array(blocks) });
            }
        },
        None => {
            messages.push(Message { role: "user".to_owned(), content: Json::Array(blocks) });
        },
    }
}

/// Adds the blocks of an assistant to the messages.
fn add_assistant_blocks(messages: &mut Vec<Message>, blocks: Vec<Json>)
    ensures
        messages_view(final(messages)@) == with_assistant_blocks(
            messages_view(old(messages)@),
            array_view(blocks@),
        ),
{
    let mut blocks = blocks;
    match messages.pop() {
        Some(last) => {
            if last.role.as_str().eq("assistant") {
                let mut merged = into_assistant_blocks(last.content);
                let ghost before = array_view(merged@);
                let ghost added = array_view(blocks@);
                merged.append(&mut blocks);
                assert(array_view(merged@) =~= before + added);
                messages.push(
                    Message { role: "assistant".to_owned(), content: make_assistant_turn(merged) },
                );
            } else {
                messages.push(last);
                messages.push(
                    Message { role: "assistant".to_owned(), content: make_assistant_turn(blocks) },
                );
            }
        },
        None => {
            messages.push(
                Message { role: "assistant".to_owned(), content: make_assistant_turn(blocks) },
            );
        },
    }
}

/// What is read of a conversation: the system prompt, and the turns.
#[verifier::ext_equal]
pub struct ConversationView {
    pub system: Seq<Seq<char>>,
    pub messages: Seq<MessageView>,
}

/// A conversation in which nothing was said.
pub open spec fn no_conversation() -> ConversationView {
    ConversationView { system: Seq::empty(), messages: Seq::empty() }
}

/// A conversation after one message more, or why the message is refused. A
/// message in another role than the four adds nothing.
pub open spec fn said(conversation: ConversationView, message: OpenAIMessageView) -> Result<
    ConversationView,
    Seq<char>,
> {
    let system = conversation.system;
    let messages = conversation.messages;
    if message.role == "system"@ {
        let text = text_content(message.content);
        if text.len() > 0 {
            Ok(ConversationView { system: system.push(text), messages })
        } else {
            Ok(conversation)
        }
    } else if message.role == "tool"@ {
        match message.tool_call_id {
            Some(id) => Ok(
                ConversationView {
                    system,
                    messages: with_user_blocks(
                        messages,
                        seq![tool_result_block(id, text_content(message.content))],
                    ),
                },
            ),
            None => Err("tool 消息缺少 tool_call_id"@),
        }
    } else if message.role == "user"@ {
        Ok(
            ConversationView {
                system,
                messages: with_user_blocks(messages, user_blocks(user_content(message.content))),
            },
        )
    } else if message.role == "assistant"@ {
        Ok(
            ConversationView {
                system,
                messages: with_assistant_blocks(
                    messages,
                    assistant_message_blocks(message.content, message.tool_calls),
                ),
            },
        )
    } else {
        Ok(conversation)
    }
}

/// The conversation that messages make, or why the first refused one is refused.
pub open spec fn conversation_of(messages: Seq<OpenAIMessageView>) -> Result<
    ConversationView,
    Seq<char>,
>
    decreases messages.len(),
{
    if messages.len() == 0 {
        Ok(no_conversation())
    } else {
        match conversation_of(messages.drop_last()) {
            Ok(conversation) => said(conversation, messages.last()),
            Err(message) => Err(message),
        }
    }
}

/// The token limit of a chat request.
pub open spec fn token_limit(request: OpenAIChatRequestView) -> i32 {
    match request.max_completion_tokens {
        Some(n) => n,
        None => match request.max_tokens {
            Some(n) => n,
            None => 4096,
        },
    }
}

impl OpenAIChatRequest {
    /// The token limit of this chat request.
    pub fn allowed_tokens(&self) -> (r: i32)
        ensures
            r == token_limit(self@),
    {
        match self.max_completion_tokens {
            Some(n) => n,
            None => match self.max_tokens {
                Some(n) => n,
                None => 4096,
            },
        }
    }
}

/// What a chat request becomes, or why it is refused.
pub open spec fn converted(request: OpenAIChatRequestView) -> Result<
    MessagesRequestView,
    Seq<char>,
> {
    if token_limit(request) <= 0 {
        Err("max_tokens 必须为正整数"@)
    } else {
        match conversation_of(request.messages) {
            Err(message) => Err(message),
            Ok(conversation) => if conversation.messages.len() == 0 {
                Err("消息列表为空"@)
            } else {
                match tool_choice_of(request.tool_choice) {
                    Err(message) => Err(message),
                    Ok(tool_choice) => Ok(
                        MessagesRequestView {
                            model: request.model,
                            max_tokens: token_limit(request),
                            messages: conversation.messages,
                            stream: request.stream,
                            system: if conversation.system.len() == 0 {
                                None
                            } else {
                                Some(conversation.system)
                            },
                            tools: match request.tools {
                                Some(tools) => Some(tools_of(tools)),
                                None => None,
                            },
                            tool_choice,
                            thinking: None,
                            output_config: None,
                            metadata: None,
                        },
                    ),
                }
            },
        }
    }
}

/// What a conversion of a request gave, or the message with which it refused.
pub open spec fn request_result_view(r: Result<MessagesRequest, String>) -> Result<
    MessagesRequestView,
    Seq<char>,
> {
    match r {
        Ok(request) => Ok(request@),
        Err(message) => Err(message@),
    }
}

/// What was read of a conversation so far.
struct Conversation {
    system: Vec<SystemMessage>,
    messages: Vec<Message>,
}

impl View for Conversation {
    type V = ConversationView;

    closed spec fn view(&self) -> ConversationView {
        ConversationView {
            system: system_view(self.system@),
            messages: messages_view(self.messages@),
        }
    }
}

impl Conversation {
    /// Reads one message more.
    fn say(&mut self, message: OpenAIMessage) -> (r: Result<(), String>)
        ensures
            match r {
                Ok(_) => said(old(self)@, message@) == Ok::<ConversationView, Seq<char>>(
                    final(self)@,
                ),
                Err(reason) => said(old(self)@, message@) == Err::<ConversationView, Seq<char>>(
                    reason@,
                ),
            },
    {
        let OpenAIMessage { role, content, tool_calls, tool_call_id } = message;
        let role = role.as_str();
        if role.eq("system") {
            let text = extract_text_content(content.as_ref());
            if !text.as_str().is_empty() {
                let ghost before = self.system@;
                self.system.push(SystemMessage { text });
                assert(system_view(self.system@) =~= system_view(before).push(text@));
            }
        } else if role.eq("tool") {
            match tool_call_id {
                Some(id) => {
                    let text = extract_text_content(content.as_ref());
                    let mut blocks: Vec<Json> = Vec::new();
                    blocks.push(make_tool_result_block(id.as_str(), text.as_str()));
                    assert(array_view(blocks@) =~= seq![tool_result_block(id@, text@)]);
                    add_user_blocks(&mut self.messages, blocks);
                },
                None => {
                    return Err("tool 消息缺少 tool_call_id".to_owned());
                },
            }
        } else if role.eq("user") {
            let content = convert_user_content(content)?;
            add_user_blocks(&mut self.messages, into_user_blocks(content));
        } else if role.eq("assistant") {
            let content = convert_assistant_content(content, tool_calls);
            add_assistant_blocks(&mut self.messages, into_assistant_blocks(content));
        }
        Ok(())
    }
}

/// What a chat request becomes, or the message with which it is refused.
pub fn convert_openai_request(payload: OpenAIChatRequest) -> (r: Result<MessagesRequest, String>)
    ensures
        request_result_view(r) == converted(payload@),
{
    let ghost request = payload@;
    let max_tokens: i32 = payload.allowed_tokens();
    let OpenAIChatRequest { model, messages, stream, tools, tool_choice, .. } = payload;
    if max_tokens <= 0 {
        return Err("max_tokens 必须为正整数".to_owned());
    }
    let mut conversation = Conversation { system: Vec::new(), messages: Vec::new() };
    let ghost all = messages@;
    assert(conversation@ =~= no_conversation());
    for message in it: messages
        invariant
            it.seq() == all,
            request == payload@,
            token_limit(request) > 0,
            request.messages == openai_messages_view(all),
            conversation_of(openai_messages_view(all).take(it.index() as int)) == Ok::<
                ConversationView,
                Seq<char>,
            >(conversation@),
    {
        let ghost i = it.index() as int;
        let ghost views = openai_messages_view(all);
        assert(views.take(i + 1).drop_last() =~= views.take(i));
        assert(message == all[i]);
        match conversation.say(message) {
            Ok(_) => {},
            Err(reason) => {
                proof {
                    lemma_refused(views, i + 1);
                }
                return Err(reason);
            },
        }
    }
    assert(openai_messages_view(all).take(all.len() as int) =~= openai_messages_view(all));
    if conversation.messages.len() == 0 {
        return Err("消息列表为空".to_owned());
    }
    let tools = match tools {
        Some(tools) => Some(convert_tools(tools)),
        None => None,
    };
    let tool_choice = match map_openai_tool_choice(tool_choice) {
        Ok(tool_choice) => tool_choice,
        Err(reason) => {
            return Err(reason);
        },
    };
    let Conversation { system, messages } = conversation;
    Ok(
        MessagesRequest {
            model,
            max_tokens,
            messages,
            stream,
            system: if system.len() == 0 {
                None
            } else {
                Some(system)
            },
            tools,
            tool_choice,
            thinking: None,
            output_config: None,
            metadata: None,
        },
    )
}

/// Where the first messages are refused, all are, for the same reason.
pub proof fn lemma_refused(messages: Seq<OpenAIMessageView>, n: int)
    requires
        0 <= n <= messages.len(),
        conversation_of(messages.take(n)) is Err,
    ensures
        conversation_of(messages) == conversation_of(messages.take(n)),
    decreases messages.len(),
{
    if n == messages.len() {
        assert(messages.take(n) =~= messages);
    } else {
        assert(messages.drop_last().take(n) =~= messages.take(n));
        lemma_refused(messages.drop_last(), n);
    }
}

} // verus!
