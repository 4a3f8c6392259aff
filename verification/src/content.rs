//! The content of a message: what OpenAI writes, and the Anthropic blocks for it.

use crate::json::{
    array_view, as_str, lemma_array_view_push, no_fields, opt_ref_view, opt_str_view, opt_view,
    Fields, Json, JsonView,
};
use crate::serde_value::{parsed_text, printed};
use crate::text::{
    ends_with, join, joined, split_once, starts_with, strip_prefix, strip_suffix, texts,
    trim_end_matches, trimmed_end,
};
use vstd::prelude::*;

verus! {

/// A call of a function, as an assistant message of OpenAI carries it.
#[derive(Debug)]
pub struct OpenAIToolCall {
    pub id: String,
    pub call_type: String,
    pub function: OpenAIFunctionCall,
}

/// The function that a tool call names, with its arguments as JSON text.
#[derive(Debug)]
pub struct OpenAIFunctionCall {
    pub name: String,
    pub arguments: String,
}

/// What a tool call says.
pub struct ToolCallView {
    pub id: Seq<char>,
    pub call_type: Seq<char>,
    pub name: Seq<char>,
    pub arguments: Seq<char>,
}

impl View for OpenAIToolCall {
    type V = ToolCallView;

    open spec fn view(&self) -> ToolCallView {
        ToolCallView {
            id: self.id@,
            call_type: self.call_type@,
            name: self.function.name@,
            arguments: self.function.arguments@,
        }
    }
}

/// What the tool calls of a message say.
pub open spec fn tool_calls_view(calls: Seq<OpenAIToolCall>) -> Seq<ToolCallView> {
    calls.map_values(|call: OpenAIToolCall| call@)
}

/// What the optional tool calls of a message say.
pub open spec fn opt_tool_calls_view(calls: Option<Vec<OpenAIToolCall>>) -> Option<
    Seq<ToolCallView>,
> {
    match calls {
        Some(calls) => Some(tool_calls_view(calls@)),
        None => None,
    }
}

/// The values that are there, in order.
pub open spec fn present<T>(values: Seq<Option<T>>) -> Seq<T>
    decreases values.len(),
{
    if values.len() == 0 {
        Seq::empty()
    } else {
        match values.last() {
            Some(value) => present(values.drop_last()).push(value),
            None => present(values.drop_last()),
        }
    }
}

/// One value more at the end.
pub proof fn lemma_present_push<T>(values: Seq<Option<T>>, value: Option<T>)
    ensures
        present(values.push(value)) == (match value {
            Some(v) => present(values).push(v),
            None => present(values),
        }),
{
    assert(values.push(value).drop_last() =~= values);
}

/// A block of text.
pub open spec fn text_block(text: Seq<char>) -> JsonView {
    JsonView::Object(map!["type"@ => JsonView::Str("text"@), "text"@ => JsonView::Str(text)])
}

/// A block with an image in base64.
pub open spec fn image_block(media_type: Seq<char>, data: Seq<char>) -> JsonView {
    JsonView::Object(
        map![
            "type"@ => JsonView::Str("image"@),
            "source"@ => JsonView::Object(
                map![
                    "type"@ => JsonView::Str("base64"@),
                    "media_type"@ => JsonView::Str(media_type),
                    "data"@ => JsonView::Str(data)
                ],
            )
        ],
    )
}

/// A block in which the assistant uses a tool.
pub open spec fn tool_use_block(id: Seq<char>, name: Seq<char>, input: JsonView) -> JsonView {
    JsonView::Object(
        map![
            "type"@ => JsonView::Str("tool_use"@),
            "id"@ => JsonView::Str(id),
            "name"@ => JsonView::Str(name),
            "input"@ => input
        ],
    )
}

/// A block with the result of a tool.
pub open spec fn tool_result_block(tool_use_id: Seq<char>, content: Seq<char>) -> JsonView {
    JsonView::Object(
        map![
            "type"@ => JsonView::Str("tool_result"@),
            "tool_use_id"@ => JsonView::Str(tool_use_id),
            "content"@ => JsonView::Str(content)
        ],
    )
}

/// A block of text.
pub(crate) fn make_text_block(text: &str) -> (r: Json)
    ensures
        r@ == text_block(text@),
{
    Fields::new().with_str("type", "text").with_str("text", text).object()
}

/// A block with the result of a tool.
pub(crate) fn make_tool_result_block(tool_use_id: &str, content: &str) -> (r: Json)
    ensures
        r@ == tool_result_block(tool_use_id@, content@),
{
    Fields::new().with_str("type", "tool_result").with_str("tool_use_id", tool_use_id).with_str(
        "content",
        content,
    ).object()
}

/// The texts of the parts of a content, in order.
pub open spec fn part_texts(parts: Seq<JsonView>) -> Seq<Seq<char>> {
    present(parts.map_values(|part: JsonView| as_str(part.get("text"@))))
}

/// The text of a content: a string as it is, the texts of parts one per line,
/// nothing for a missing content, and anything else as JSON text.
pub open spec fn text_content(content: Option<JsonView>) -> Seq<char> {
    match content {
        None => Seq::empty(),
        Some(JsonView::Null) => Seq::empty(),
        Some(JsonView::Str(s)) => s,
        Some(JsonView::Array(parts)) => joined(part_texts(parts), "\n"@),
        Some(value) => printed(value),
    }
}

/// The text of a content.
pub fn extract_text_content(content: Option<&Json>) -> (r: String)
    ensures
        r@ == text_content(opt_ref_view(content)),
{
    match content {
        None => String::new(),
        Some(Json::Str(s)) => s.clone(),
        Some(Json::Array(parts)) => {
            let mut found: Vec<String> = Vec::new();
            let ghost f = |part: JsonView| as_str(part.get("text"@));
            for i in 0..parts.len()
                invariant
                    f == (|part: JsonView| as_str(part.get("text"@))),
                    texts(found@) == present(array_view(parts@).take(i as int).map_values(f)),
            {
                let ghost before = found@;
                let text = parts[i].get_str("text");
                proof {
                    let seen = array_view(parts@).take(i as int).map_values(f);
                    lemma_present_push(seen, opt_str_view(text));
                    assert(array_view(parts@).take(i + 1).map_values(f) =~= seen.push(
                        opt_str_view(text),
                    ));
                }
                if let Some(text) = text {
                    found.push(text.to_owned());
                    assert(texts(found@) =~= texts(before).push(text@));
                }
            }
            assert(array_view(parts@).take(parts@.len() as int) =~= array_view(parts@));
            join(&found, "\n")
        },
        Some(Json::Null) => String::new(),
        Some(value) => value.to_text(),
    }
}

/// What a URL with base64 data embeds: the block for `data:<type>;base64,<data>`.
pub open spec fn data_url_block(url: Seq<char>) -> Option<JsonView> {
    if !starts_with(url, "data:"@) {
        None
    } else {
        let rest = url.skip("data:"@.len() as int);
        match rest.index_of_first(',') {
            None => None,
            Some(comma) => {
                let meta = rest.take(comma);
                if ends_with(meta, ";base64"@) {
                    Some(image_block(trimmed_end(meta, ";base64"@), rest.skip(comma + 1)))
                } else {
                    None
                }
            },
        }
    }
}

/// The image that a data URL embeds; `None` for any other URL.
pub fn convert_data_url_to_image_block(url: &str) -> (r: Option<Json>)
    ensures
        opt_view(r) == data_url_block(url@),
{
    let rest = match strip_prefix(url, "data:") {
        Some(rest) => rest,
        None => {
            return None;
        },
    };
    let (meta, data) = match split_once(rest, ',') {
        Some(halves) => halves,
        None => {
            proof {
                rest@.index_of_first_ensures(',');
            }
            return None;
        },
    };
    proof {
        let comma = meta@.len() as int;
        rest@.index_of_first_ensures(',');
        assert(rest@[comma] == ',');
        let first = rest@.index_of_first(',').unwrap();
        if first < comma {
            assert(meta@[first] == rest@[first]);
        }
        assert(rest@.take(comma) =~= meta@);
        assert(rest@.skip(comma + 1) =~= data@);
    }
    if strip_suffix(meta, ";base64").is_none() {
        return None;
    }
    proof {
        reveal_strlit(";base64");
    }
    let media_type = trim_end_matches(meta, ";base64");
    let source = Fields::new().with_str("type", "base64").with_str(
        "media_type",
        media_type,
    ).with_str("data", data).object();
    Some(Fields::new().with_str("type", "image").with("source", source).object())
}

/// The block for one part of a user's content. A part of another kind than text
/// or image, one without its text or URL, and an image that is not embedded have
/// none.
pub open spec fn user_part_block(part: JsonView) -> Option<JsonView> {
    let kind = as_str(part.get("type"@));
    if kind == Some("text"@) {
        match as_str(part.get("text"@)) {
            Some(text) => Some(text_block(text)),
            None => None,
        }
    } else if kind == Some("image_url"@) {
        match as_str(part.get2("image_url"@, "url"@)) {
            Some(url) => data_url_block(url),
            None => None,
        }
    } else {
        None
    }
}

/// The blocks for the parts of a user's content, in order.
pub open spec fn user_part_blocks(parts: Seq<JsonView>) -> Seq<JsonView> {
    present(parts.map_values(|part: JsonView| user_part_block(part)))
}

/// What a user's content becomes: a string stays one, parts become blocks, and
/// anything else becomes the string of its JSON text.
pub open spec fn user_content(content: Option<JsonView>) -> JsonView {
    match content {
        None => JsonView::Str(Seq::empty()),
        Some(JsonView::Str(s)) => JsonView::Str(s),
        Some(JsonView::Array(parts)) => JsonView::Array(user_part_blocks(parts)),
        Some(value) => JsonView::Str(printed(value)),
    }
}

/// The block for one part of a user's content.
fn convert_user_part(part: &Json) -> (r: Option<Json>)
    ensures
        opt_view(r) == user_part_block(part@),
{
    match part.get_str("type") {
        None => None,
        Some(kind) => if kind.eq("text") {
            match part.get_str("text") {
                Some(text) => Some(make_text_block(text)),
                None => None,
            }
        } else if kind.eq("image_url") {
            match part.get2_str("image_url", "url") {
                Some(url) => convert_data_url_to_image_block(url),
                None => None,
            }
        } else {
            None
        },
    }
}

/// What a user's content becomes. No content is refused.
pub fn convert_user_content(content: Option<Json>) -> (r: Result<Json, String>)
    ensures
        r is Ok,
        r->Ok_0@ == user_content(opt_view(content)),
{
    match content {
        None => Ok(Json::Str(String::new())),
        Some(Json::Str(s)) => Ok(Json::Str(s)),
        Some(Json::Array(parts)) => {
            let mut blocks: Vec<Json> = Vec::new();
            let ghost f = |part: JsonView| user_part_block(part);
            for i in 0..parts.len()
                invariant
                    f == (|part: JsonView| user_part_block(part)),
                    array_view(blocks@) == present(
                        array_view(parts@).take(i as int).map_values(f),
                    ),
            {
                let block = convert_user_part(&parts[i]);
                proof {
                    let seen = array_view(parts@).take(i as int).map_values(f);
                    lemma_present_push(seen, opt_view(block));
                    assert(array_view(parts@).take(i + 1).map_values(f) =~= seen.push(
                        opt_view(block),
                    ));
                }
                if let Some(block) = block {
                    proof {
                        lemma_array_view_push(blocks@, block);
                    }
                    blocks.push(block);
                }
            }
            assert(array_view(parts@).take(parts@.len() as int) =~= array_view(parts@));
            Ok(Json::Array(blocks))
        },
        Some(value) => Ok(Json::Str(value.to_text())),
    }
}

/// The input of a tool: what its arguments denote as JSON, and an empty object
/// where they denote nothing.
pub open spec fn tool_input(arguments: Seq<char>) -> JsonView {
    match parsed_text(arguments) {
        Some(value) => value,
        None => JsonView::Object(no_fields()),
    }
}

/// The block for a tool call. Only a call of a function has one.
pub open spec fn tool_call_block(call: ToolCallView) -> Option<JsonView> {
    if call.call_type == "function"@ {
        Some(tool_use_block(call.id, call.name, tool_input(call.arguments)))
    } else {
        None
    }
}

/// The blocks for the tool calls of a message, in order.
pub open spec fn tool_call_blocks(calls: Seq<ToolCallView>) -> Seq<JsonView> {
    present(calls.map_values(|call: ToolCallView| tool_call_block(call)))
}

/// The blocks of an assistant message: its text, if any, and then its tool calls.
pub open spec fn assistant_message_blocks(
    content: Option<JsonView>,
    calls: Option<Seq<ToolCallView>>,
) -> Seq<JsonView> {
    let text = text_content(content);
    let spoken = if text.len() > 0 {
        seq![text_block(text)]
    } else {
        Seq::empty()
    };
    match calls {
        Some(calls) => spoken + tool_call_blocks(calls),
        None => spoken,
    }
}

/// The content with the blocks of an assistant: a single space where there are
/// none, for a content must not be empty.
pub open spec fn assistant_turn(blocks: Seq<JsonView>) -> JsonView {
    if blocks.len() == 0 {
        JsonView::Str(" "@)
    } else {
        JsonView::Array(blocks)
    }
}

/// The content with the blocks of an assistant.
pub(crate) fn make_assistant_turn(blocks: Vec<Json>) -> (r: Json)
    ensures
        r@ == assistant_turn(array_view(blocks@)),
{
    if blocks.len() == 0 {
        Json::text(" ")
    } else {
        Json::Array(blocks)
    }
}

/// The block in which the assistant makes a tool call, given the value that the
/// arguments of the call denote, if they denote one.
pub fn make_tool_use_block(call: &OpenAIToolCall, parsed: Option<Json>) -> (r: Json)
    ensures
        r@ == tool_use_block(
            call@.id,
            call@.name,
            match parsed {
                Some(input) => input@,
                None => JsonView::Object(no_fields()),
            },
        ),
{
    let input = match parsed {
        Some(input) => input,
        None => Fields::new().object(),
    };
    Fields::new().with_str("type", "tool_use").with_str("id", call.id.as_str()).with_str(
        "name",
        call.function.name.as_str(),
    ).with("input", input).object()
}

/// The block for a tool call.
fn convert_tool_call(call: &OpenAIToolCall) -> (r: Option<Json>)
    ensures
        opt_view(r) == tool_call_block(call@),
{
    if call.call_type.as_str().eq("function") {
        Some(make_tool_use_block(call, Json::parse(call.function.arguments.as_str())))
    } else {
        None
    }
}

/// What the content and the tool calls of an assistant message become.
pub fn convert_assistant_content(
    content: Option<Json>,
    tool_calls: Option<Vec<OpenAIToolCall>>,
) -> (r: Json)
    ensures
        r@ == assistant_turn(
            assistant_message_blocks(opt_view(content), opt_tool_calls_view(tool_calls)),
        ),
{
    let mut blocks: Vec<Json> = Vec::new();
    let text = extract_text_content(content.as_ref());
    if !text.as_str().is_empty() {
        blocks.push(make_text_block(text.as_str()));
    }
    let ghost spoken = array_view(blocks@);
    assert(spoken =~= assistant_message_blocks(opt_view(content), None));
    if let Some(calls) = tool_calls {
        let ghost f = |call: ToolCallView| tool_call_block(call);
        for i in 0..calls.len()
            invariant
                f == (|call: ToolCallView| tool_call_block(call)),
                array_view(blocks@) == spoken + present(
                    tool_calls_view(calls@).take(i as int).map_values(f),
                ),
        {
            let block = convert_tool_call(&calls[i]);
            proof {
                let seen = tool_calls_view(calls@).take(i as int).map_values(f);
                lemma_present_push(seen, opt_view(block));
                assert(tool_calls_view(calls@).take(i + 1).map_values(f) =~= seen.push(
                    opt_view(block),
                ));
            }
            if let Some(block) = block {
                proof {
                    lemma_array_view_push(blocks@, block);
                }
                blocks.push(block);
            }
        }
        assert(tool_calls_view(calls@).take(calls@.len() as int) =~= tool_calls_view(calls@));
    }
    make_assistant_turn(blocks)
}

} // verus!
