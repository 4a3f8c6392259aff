//! The conversion of an Anthropic message into an OpenAI completion.

use crate::content::{lemma_present_push, present};
use crate::identity::{fresh_chat_id, is_fresh_chat_id, now_timestamp};
use crate::json::{
    array_view, as_i64, as_str, lemma_array_view_push, no_fields, opt_str_view, opt_view, Fields,
    Json, JsonView,
};
use crate::serde_value::{printed, readable, reads_back};
use vstd::prelude::*;

verus! {

/// The reason for the end of a completion, told from the reason for the end of a
/// message.
pub open spec fn finish_reason(stop_reason: Seq<char>) -> Seq<char> {
    if stop_reason == "tool_use"@ {
        "tool_calls"@
    } else if stop_reason == "max_tokens"@ || stop_reason == "model_context_window_exceeded"@ {
        "length"@
    } else {
        "stop"@
    }
}

/// The reason for the end of a completion.
pub fn map_finish_reason(stop_reason: &str) -> (r: &'static str)
    ensures
        r@ == finish_reason(stop_reason@),
{
    if stop_reason.eq("tool_use") {
        "tool_calls"
    } else if stop_reason.eq("max_tokens") || stop_reason.eq("model_context_window_exceeded") {
        "length"
    } else {
        "stop"
    }
}

/// A completion ends for one of three reasons.
pub proof fn law_finish_reasons(stop_reason: Seq<char>)
    ensures
        finish_reason(stop_reason) == "tool_calls"@ || finish_reason(stop_reason) == "length"@
            || finish_reason(stop_reason) == "stop"@,
{
}

/// The text, or another where there is none.
pub open spec fn text_or(text: Option<Seq<char>>, default: Seq<char>) -> Seq<char> {
    match text {
        Some(text) => text,
        None => default,
    }
}

/// Whether the arguments of each tool call denote the input of its tool, unless the
/// input holds a float, nests too deeply, or has an object whose first key is the
/// reserved one.
pub open spec fn arguments_read_back(blocks: Seq<JsonView>) -> bool {
    forall|i: int|
        0 <= i < blocks.len() && tool_call(#[trigger] blocks[i]) is Some && readable(
            used_input(blocks[i]),
            127,
        ) ==> reads_back(used_input(blocks[i]))
}

/// Texts put together.
pub open spec fn concatenated(parts: Seq<Seq<char>>) -> Seq<char>
    decreases parts.len(),
{
    if parts.len() == 0 {
        Seq::empty()
    } else {
        concatenated(parts.drop_last()) + parts.last()
    }
}

/// The text of a text block.
pub open spec fn spoken_text(block: JsonView) -> Option<Seq<char>> {
    if as_str(block.get("type"@)) == Some("text"@) {
        as_str(block.get("text"@))
    } else {
        None
    }
}

/// The tool call for a block, given its arguments as text.
pub open spec fn tool_call_with(block: JsonView, arguments: Seq<char>) -> JsonView {
    JsonView::Object(
        map![
            "id"@ => JsonView::Str(text_or(as_str(block.get("id"@)), ""@)),
            "type"@ => JsonView::Str("function"@),
            "function"@ => JsonView::Object(
                map![
                    "name"@ => JsonView::Str(text_or(as_str(block.get("name"@)), ""@)),
                    "arguments"@ => JsonView::Str(arguments)
                ],
            )
        ],
    )
}

/// The input of the tool that a block uses; an empty object where it is missing.
pub open spec fn used_input(block: JsonView) -> JsonView {
    match block.get("input"@) {
        Some(input) => input,
        None => JsonView::Object(no_fields()),
    }
}

/// The tool call for a block. Only a block that uses a tool has one.
pub open spec fn tool_call(block: JsonView) -> Option<JsonView> {
    if as_str(block.get("type"@)) == Some("tool_use"@) {
        Some(tool_call_with(block, printed(used_input(block))))
    } else {
        None
    }
}

/// The blocks of an Anthropic message.
pub open spec fn message_blocks(anthropic: JsonView) -> Seq<JsonView> {
    match anthropic.get("content"@) {
        Some(JsonView::Array(blocks)) => blocks,
        _ => Seq::empty(),
    }
}

/// The texts of blocks, put together.
pub open spec fn all_text(blocks: Seq<JsonView>) -> Seq<char> {
    concatenated(present(blocks.map_values(|block: JsonView| spoken_text(block))))
}

/// The tool calls of blocks, in order.
pub open spec fn all_tool_calls(blocks: Seq<JsonView>) -> Seq<JsonView> {
    present(blocks.map_values(|block: JsonView| tool_call(block)))
}

/// A count of tokens; none are counted where the count is missing.
pub open spec fn token_count(anthropic: JsonView, kind: Seq<char>) -> i64 {
    match as_i64(anthropic.get2("usage"@, kind)) {
        Some(n) => n,
        None => 0,
    }
}

/// All tokens of a message.
pub open spec fn token_sum(anthropic: JsonView) -> int {
    token_count(anthropic, "input_tokens"@) + token_count(anthropic, "output_tokens"@)
}

/// Whether the count of all tokens fits its type.
pub open spec fn tokens_fit(anthropic: JsonView) -> bool {
    i64::MIN <= token_sum(anthropic) <= i64::MAX
}

/// The reason for the end of the completion of a message.
pub open spec fn message_finish_reason(anthropic: JsonView) -> Seq<char> {
    finish_reason(text_or(as_str(anthropic.get("stop_reason"@)), "end_turn"@))
}

/// The message of a completion.
pub open spec fn completion_message(blocks: Seq<JsonView>) -> JsonView {
    JsonView::Object(
        map![
            "role"@ => JsonView::Str("assistant"@),
            "content"@ => if all_text(blocks).len() == 0 {
                JsonView::Null
            } else {
                JsonView::Str(all_text(blocks))
            },
            "tool_calls"@ => if all_tool_calls(blocks).len() == 0 {
                JsonView::Null
            } else {
                JsonView::Array(all_tool_calls(blocks))
            }
        ],
    )
}

/// The completion for a message.
pub open spec fn completion(
    anthropic: JsonView,
    model: Seq<char>,
    id: JsonView,
    created: i64,
) -> JsonView {
    JsonView::Object(
        map![
            "id"@ => id,
            "object"@ => JsonView::Str("chat.completion"@),
            "created"@ => JsonView::Int(created as int),
            "model"@ => JsonView::Str(text_or(as_str(anthropic.get("model"@)), model)),
            "choices"@ => JsonView::Array(
                seq![
                    JsonView::Object(
                        map![
                            "index"@ => JsonView::Int(0),
                            "message"@ => completion_message(message_blocks(anthropic)),
                            "finish_reason"@ => JsonView::Str(message_finish_reason(anthropic))
                        ],
                    ),
                ],
            ),
            "usage"@ => JsonView::Object(
                map![
                    "prompt_tokens"@ => JsonView::Int(
                        token_count(anthropic, "input_tokens"@) as int,
                    ),
                    "completion_tokens"@ => JsonView::Int(
                        token_count(anthropic, "output_tokens"@) as int,
                    ),
                    "total_tokens"@ => JsonView::Int(token_sum(anthropic))
                ],
            )
        ],
    )
}

/// Whether a completion may have this id: that of the message, or, where it has
/// none, a fresh one.
pub open spec fn is_completion_id(anthropic: JsonView, id: JsonView) -> bool {
    match anthropic.get("id"@) {
        Some(own) => id == own,
        None => id matches JsonView::Str(fresh) && is_fresh_chat_id(fresh),
    }
}

/// The tool call for a block, given its arguments as text.
pub fn make_tool_call(block: &Json, arguments: &str) -> (r: Json)
    ensures
        r@ == tool_call_with(block@, arguments@),
{
    let id = match block.get_str("id") {
        Some(id) => id,
        None => "",
    };
    let name = match block.get_str("name") {
        Some(name) => name,
        None => "",
    };
    let function = Fields::new().with_str("name", name).with_str("arguments", arguments).object();
    Fields::new().with_str("id", id).with_str("type", "function").with(
        "function",
        function,
    ).object()
}

/// The text of a text block.
fn block_text(block: &Json) -> (r: Option<&str>)
    ensures
        opt_str_view(r) == spoken_text(block@),
{
    match block.get_str("type") {
        Some(kind) => if kind.eq("text") {
            block.get_str("text")
        } else {
            None
        },
        None => None,
    }
}

/// The tool call for a block.
fn block_tool_call(block: &Json) -> (r: Option<Json>)
    ensures
        opt_view(r) == tool_call(block@),
        r is Some && readable(used_input(block@), 127) ==> reads_back(used_input(block@)),
{
    match block.get_str("type") {
        Some(kind) => if kind.eq("tool_use") {
            let arguments = match block.get("input") {
                Some(input) => input.to_text(),
                None => Fields::new().object().to_text(),
            };
            Some(make_tool_call(block, arguments.as_str()))
        } else {
            None
        },
        None => None,
    }
}

/// The message of a completion.
fn make_completion_message(blocks: &[Json]) -> (r: Json)
    ensures
        r@ == completion_message(array_view(blocks@)),
        arguments_read_back(array_view(blocks@)),
{
    let mut text = String::new();
    let mut tool_calls: Vec<Json> = Vec::new();
    let ghost views = array_view(blocks@);
    let ghost f = |block: JsonView| spoken_text(block);
    let ghost g = |block: JsonView| tool_call(block);
    for i in 0..blocks.len()
        invariant
            views == array_view(blocks@),
            f == (|block: JsonView| spoken_text(block)),
            g == (|block: JsonView| tool_call(block)),
            text@ == concatenated(present(views.take(i as int).map_values(f))),
            array_view(tool_calls@) == present(views.take(i as int).map_values(g)),
            arguments_read_back(views.take(i as int)),
    {
        let spoken = block_text(&blocks[i]);
        let call = block_tool_call(&blocks[i]);
        proof {
            let texts = views.take(i as int).map_values(f);
            let calls = views.take(i as int).map_values(g);
            lemma_present_push(texts, opt_str_view(spoken));
            lemma_present_push(calls, opt_view(call));
            assert(views.take(i + 1).map_values(f) =~= texts.push(opt_str_view(spoken)));
            assert(views.take(i + 1).map_values(g) =~= calls.push(opt_view(call)));
            if let Some(s) = opt_str_view(spoken) {
                assert(present(texts).push(s).drop_last() =~= present(texts));
            }
        }
        if let Some(spoken) = spoken {
            text.append(spoken);
        }
        if let Some(call) = call {
            proof {
                lemma_array_view_push(tool_calls@, call);
            }
            tool_calls.push(call);
        }
    }
    assert(views.take(blocks@.len() as int) =~= views);
    let content = if text.as_str().is_empty() {
        Json::Null
    } else {
        Json::Str(text)
    };
    let tool_calls = if tool_calls.len() == 0 {
        Json::Null
    } else {
        Json::Array(tool_calls)
    };
    Fields::new().with_str("role", "assistant").with("content", content).with(
        "tool_calls",
        tool_calls,
    ).object()
}

/// A count of tokens.
fn count_tokens(anthropic: &Json, kind: &str) -> (r: i64)
    ensures
        r == token_count(anthropic@, kind@),
{
    match anthropic.get2_i64("usage", kind) {
        Some(n) => n,
        None => 0,
    }
}

/// All tokens of a message; `None` where their count does not fit.
pub fn total_tokens(anthropic: &Json) -> (r: Option<i64>)
    ensures
        match r {
            Some(n) => tokens_fit(anthropic@) && n == token_sum(anthropic@),
            None => !tokens_fit(anthropic@),
        },
{
    count_tokens(anthropic, "input_tokens").checked_add(count_tokens(anthropic, "output_tokens"))
}

/// The completion for a message, under a given id and made at a given time.
pub fn make_completion(anthropic: &Json, model: &str, id: Json, created: i64) -> (r: Json)
    requires
        tokens_fit(anthropic@),
    ensures
        r@ == completion(anthropic@, model@, id@, created),
        arguments_read_back(message_blocks(anthropic@)),
{
    let message = match anthropic.get("content") {
        Some(Json::Array(blocks)) => make_completion_message(blocks.as_slice()),
        _ => {
            assert(array_view(Seq::<Json>::empty()) =~= Seq::empty());
            make_completion_message(&[])
        },
    };
    let stop_reason = match anthropic.get_str("stop_reason") {
        Some(stop_reason) => stop_reason,
        None => "end_turn",
    };
    let model = match anthropic.get_str("model") {
        Some(model) => model,
        None => model,
    };
    let prompt_tokens: i64 = count_tokens(anthropic, "input_tokens");
    let completion_tokens: i64 = count_tokens(anthropic, "output_tokens");
    let choice = Fields::new().with("index", Json::Int(0)).with("message", message).with_str(
        "finish_reason",
        map_finish_reason(stop_reason),
    ).object();
    let mut choices: Vec<Json> = Vec::new();
    choices.push(choice);
    assert(array_view(choices@) =~= seq![choice@]);
    let usage = Fields::new().with("prompt_tokens", Json::Int(prompt_tokens)).with(
        "completion_tokens",
        Json::Int(completion_tokens),
    ).with("total_tokens", Json::Int(prompt_tokens + completion_tokens)).object();
    Fields::new().with("id", id).with_str("object", "chat.completion").with(
        "created",
        Json::Int(created),
    ).with_str("model", model).with("choices", Json::Array(choices)).with("usage", usage).object()
}

/// The completion for a message, made now; a message without an id gets one.
pub fn map_non_stream_response(anthropic: Json, model: &str) -> (r: Json)
    requires
        tokens_fit(anthropic@),
    ensures
        exists|id: JsonView, created: i64|
            is_completion_id(anthropic@, id) && r@ == #[trigger] completion(
                anthropic@,
                model@,
                id,
                created,
            ),
        arguments_read_back(message_blocks(anthropic@)),
{
    let id = match anthropic.get("id") {
        Some(id) => id.clone(),
        None => Json::Str(fresh_chat_id()),
    };
    assert(is_completion_id(anthropic@, id@));
    make_completion(&anthropic, model, id, now_timestamp())
}

} // verus!
