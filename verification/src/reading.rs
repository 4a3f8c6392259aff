//! How a reader outside the library reads a JSON value: the words in which the laws
//! speak of fields.

use crate::json::JsonView;
use vstd::prelude::*;

verus! {

/// Whether a value is an object with this field, which holds this.
pub open spec fn holds(value: JsonView, key: Seq<char>, held: JsonView) -> bool {
    value matches JsonView::Object(fields) && fields.contains_key(key) && fields[key] == held
}

/// Whether a value is an object with these keys and no other.
pub open spec fn has_only(value: JsonView, keys: Set<Seq<char>>) -> bool {
    value matches JsonView::Object(fields) && fields.dom() == keys
}

/// Whether a value is no object with a text in this field.
pub open spec fn no_text_at(value: JsonView, key: Seq<char>) -> bool {
    forall|text: Seq<char>| !#[trigger] holds(value, key, JsonView::Str(text))
}

/// Whether a value is no object with this field.
pub open spec fn lacks(value: JsonView, key: Seq<char>) -> bool {
    forall|held: JsonView| !#[trigger] holds(value, key, held)
}

/// What a field of an object holds; null where there is no such field.
pub open spec fn field(value: JsonView, key: Seq<char>) -> JsonView {
    match value {
        JsonView::Object(fields) => if fields.contains_key(key) {
            fields[key]
        } else {
            JsonView::Null
        },
        _ => JsonView::Null,
    }
}

/// The first item of an array; null where there is none.
pub open spec fn first(value: JsonView) -> JsonView {
    match value {
        JsonView::Array(items) => if items.len() > 0 {
            items[0]
        } else {
            JsonView::Null
        },
        _ => JsonView::Null,
    }
}

/// The characters of a text value; none for any other value.
pub open spec fn text_of(value: JsonView) -> Seq<char> {
    match value {
        JsonView::Str(text) => text,
        _ => Seq::empty(),
    }
}

/// The words of the two protocols, told apart.
pub(crate) proof fn lemma_words()
    ensures
        "id"@.len() == 2,
        "object"@.len() == 6,
        "object"@[0] == 'o',
        "created"@.len() == 7,
        "created"@[0] == 'c',
        "created"@[1] == 'r',
        "model"@.len() == 5,
        "model"@[0] == 'm',
        "choices"@.len() == 7,
        "choices"@[0] == 'c',
        "choices"@[1] == 'h',
        "index"@.len() == 5,
        "index"@[0] == 'i',
        "index"@[1] == 'n',
        "index"@[2] == 'd',
        "delta"@.len() == 5,
        "delta"@[0] == 'd',
        "finish_reason"@.len() == 13,
        "finish_reason"@[0] == 'f',
        "role"@.len() == 4,
        "role"@[0] == 'r',
        "content"@.len() == 7,
        "content"@[0] == 'c',
        "content"@[1] == 'o',
        "tool_calls"@.len() == 10,
        "tool_calls"@[0] == 't',
        "tool_calls"@[1] == 'o',
        "type"@.len() == 4,
        "type"@[0] == 't',
        "type"@[1] == 'y',
        "function"@.len() == 8,
        "function"@[0] == 'f',
        "name"@.len() == 4,
        "name"@[0] == 'n',
        "name"@[1] == 'a',
        "arguments"@.len() == 9,
        "arguments"@[0] == 'a',
        "arguments"@[1] == 'r',
        "text"@.len() == 4,
        "text"@[0] == 't',
        "text"@[1] == 'e',
        "source"@.len() == 6,
        "source"@[0] == 's',
        "source"@[1] == 'o',
        "media_type"@.len() == 10,
        "media_type"@[0] == 'm',
        "media_type"@[1] == 'e',
        "data"@.len() == 4,
        "data"@[0] == 'd',
        "tool_use_id"@.len() == 11,
        "tool_use_id"@[0] == 't',
        "tool_use_id"@[5] == 'u',
        "input"@.len() == 5,
        "input"@[0] == 'i',
        "input"@[1] == 'n',
        "input"@[2] == 'p',
        "message"@.len() == 7,
        "message"@[0] == 'm',
        "usage"@.len() == 5,
        "usage"@[0] == 'u',
        "prompt_tokens"@.len() == 13,
        "prompt_tokens"@[0] == 'p',
        "completion_tokens"@.len() == 17,
        "total_tokens"@.len() == 12,
        "total_tokens"@[0] == 't',
        "input_tokens"@.len() == 12,
        "input_tokens"@[0] == 'i',
        "output_tokens"@.len() == 13,
        "output_tokens"@[0] == 'o',
        "stop_reason"@.len() == 11,
        "stop_reason"@[0] == 's',
        "image_url"@.len() == 9,
        "image_url"@[0] == 'i',
        "url"@.len() == 3,
        "url"@[0] == 'u',
        "content_block"@.len() == 13,
        "content_block"@[0] == 'c',
        "partial_json"@.len() == 12,
        "partial_json"@[0] == 'p',
        "assistant"@.len() == 9,
        "assistant"@[0] == 'a',
        "assistant"@[1] == 's',
        "user"@.len() == 4,
        "user"@[0] == 'u',
        "system"@.len() == 6,
        "system"@[0] == 's',
        "system"@[1] == 'y',
        "tool"@.len() == 4,
        "tool"@[0] == 't',
        "tool"@[1] == 'o',
        "tool_use"@.len() == 8,
        "tool_use"@[0] == 't',
        "tool_result"@.len() == 11,
        "tool_result"@[0] == 't',
        "tool_result"@[5] == 'r',
        "text_delta"@.len() == 10,
        "text_delta"@[0] == 't',
        "text_delta"@[1] == 'e',
        "input_json_delta"@.len() == 16,
        "message_start"@.len() == 13,
        "message_start"@[0] == 'm',
        "message_start"@[8] == 's',
        "content_block_start"@.len() == 19,
        "content_block_start"@[14] == 's',
        "content_block_delta"@.len() == 19,
        "content_block_delta"@[14] == 'd',
        "message_delta"@.len() == 13,
        "message_delta"@[0] == 'm',
        "message_delta"@[8] == 'd',
        "image"@.len() == 5,
        "image"@[0] == 'i',
        "image"@[1] == 'm',
        "base64"@.len() == 6,
        "base64"@[0] == 'b',
        "auto"@.len() == 4,
        "auto"@[0] == 'a',
        "any"@.len() == 3,
        "any"@[0] == 'a',
        "required"@.len() == 8,
        "required"@[0] == 'r',
        "none"@.len() == 4,
        "none"@[0] == 'n',
        "none"@[1] == 'o',
        "stop"@.len() == 4,
        "stop"@[0] == 's',
        "length"@.len() == 6,
        "length"@[0] == 'l',
        "max_tokens"@.len() == 10,
        "max_tokens"@[0] == 'm',
        "max_tokens"@[1] == 'a',
        "model_context_window_exceeded"@.len() == 29,
        "end_turn"@.len() == 8,
        "end_turn"@[0] == 'e',
        "chat.completion"@.len() == 15,
        "chat.completion.chunk"@.len() == 21,
        "ping"@.len() == 4,
        "ping"@[0] == 'p',
{
    reveal_strlit("id");
    reveal_strlit("object");
    reveal_strlit("created");
    reveal_strlit("model");
    reveal_strlit("choices");
    reveal_strlit("index");
    reveal_strlit("delta");
    reveal_strlit("finish_reason");
    reveal_strlit("role");
    reveal_strlit("content");
    reveal_strlit("tool_calls");
    reveal_strlit("type");
    reveal_strlit("function");
    reveal_strlit("name");
    reveal_strlit("arguments");
    reveal_strlit("text");
    reveal_strlit("source");
    reveal_strlit("media_type");
    reveal_strlit("data");
    reveal_strlit("tool_use_id");
    reveal_strlit("input");
    reveal_strlit("message");
    reveal_strlit("usage");
    reveal_strlit("prompt_tokens");
    reveal_strlit("completion_tokens");
    reveal_strlit("total_tokens");
    reveal_strlit("input_tokens");
    reveal_strlit("output_tokens");
    reveal_strlit("stop_reason");
    reveal_strlit("image_url");
    reveal_strlit("url");
    reveal_strlit("content_block");
    reveal_strlit("partial_json");
    reveal_strlit("assistant");
    reveal_strlit("user");
    reveal_strlit("system");
    reveal_strlit("tool");
    reveal_strlit("tool_use");
    reveal_strlit("tool_result");
    reveal_strlit("text_delta");
    reveal_strlit("input_json_delta");
    reveal_strlit("message_start");
    reveal_strlit("content_block_start");
    reveal_strlit("content_block_delta");
    reveal_strlit("message_delta");
    reveal_strlit("image");
    reveal_strlit("base64");
    reveal_strlit("auto");
    reveal_strlit("any");
    reveal_strlit("required");
    reveal_strlit("none");
    reveal_strlit("stop");
    reveal_strlit("length");
    reveal_strlit("max_tokens");
    reveal_strlit("model_context_window_exceeded");
    reveal_strlit("end_turn");
    reveal_strlit("chat.completion");
    reveal_strlit("chat.completion.chunk");
    reveal_strlit("ping");
}

} // verus!
