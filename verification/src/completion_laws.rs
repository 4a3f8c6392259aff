//! What a client reads of a completion, told from the message that it answers for.

use crate::content::{lemma_present_push, present};
use crate::identity::is_fresh_chat_id;
use crate::json::JsonView;
use crate::reading::{field, first, has_only, holds, lacks, lemma_words, no_text_at, text_of};
use crate::response::{
    all_text, all_tool_calls, completion, is_completion_id, message_blocks, spoken_text,
    token_count, token_sum, tokens_fit, tool_call, tool_call_with,
};
use crate::serde_value::printed;
use vstd::prelude::*;

verus! {

/// The one choice of a completion.
pub open spec fn only_choice(value: JsonView) -> JsonView {
    first(field(value, "choices"@))
}

/// The message of a completion.
pub open spec fn told_message(value: JsonView) -> JsonView {
    field(only_choice(value), "message"@)
}

/// The text of the message of a completion.
pub open spec fn message_text(value: JsonView) -> Seq<char> {
    text_of(field(told_message(value), "content"@))
}

/// The tool calls of the message of a completion.
pub open spec fn message_calls(value: JsonView) -> Seq<JsonView> {
    match field(told_message(value), "tool_calls"@) {
        JsonView::Array(calls) => calls,
        _ => Seq::empty(),
    }
}

/// A completion has its fields and no other: it keeps the id and the time that it is
/// given, and has one choice, whose message is the assistant's. What that message
/// says is a text or nothing, and the tools that it calls are a list or nothing;
/// neither is ever empty.
pub proof fn law_completion_fields(
    anthropic: JsonView,
    model: Seq<char>,
    id: JsonView,
    created: i64,
)
    ensures
        ({
            let value = completion(anthropic, model, id, created);
            let choice = only_choice(value);
            let message = told_message(value);
            let content = field(message, "content"@);
            let calls = field(message, "tool_calls"@);
            &&& has_only(
                value,
                set!["id"@, "object"@, "created"@, "model"@, "choices"@, "usage"@],
            )
            &&& holds(value, "id"@, id)
            &&& holds(value, "object"@, JsonView::Str("chat.completion"@))
            &&& holds(value, "created"@, JsonView::Int(created as int))
            &&& holds(value, "choices"@, JsonView::Array(seq![choice]))
            &&& has_only(choice, set!["index"@, "message"@, "finish_reason"@])
            &&& holds(choice, "index"@, JsonView::Int(0))
            &&& has_only(message, set!["role"@, "content"@, "tool_calls"@])
            &&& holds(message, "role"@, JsonView::Str("assistant"@))
            &&& content is Null || (content matches JsonView::Str(text) && text.len() > 0)
            &&& calls is Null || (calls matches JsonView::Array(items) && items.len() > 0)
        }),
{
    lemma_words();
    let value = completion(anthropic, model, id, created);
    assert(value->Object_0.dom() =~= set![
        "id"@,
        "object"@,
        "created"@,
        "model"@,
        "choices"@,
        "usage"@,
    ]);
    let choice = only_choice(value);
    assert(choice->Object_0.dom() =~= set!["index"@, "message"@, "finish_reason"@]);
    let message = told_message(value);
    assert(message->Object_0.dom() =~= set!["role"@, "content"@, "tool_calls"@]);
}

/// A completion tells the model that the message tells, and otherwise the one that
/// was asked for.
pub proof fn law_completion_model(
    anthropic: JsonView,
    model: Seq<char>,
    id: JsonView,
    created: i64,
    told: Seq<char>,
)
    requires
        holds(anthropic, "model"@, JsonView::Str(told)) || (no_text_at(anthropic, "model"@) && told
            == model),
    ensures
        holds(completion(anthropic, model, id, created), "model"@, JsonView::Str(told)),
{
    lemma_words();
    if let Some(JsonView::Str(own)) = anthropic.get("model"@) {
        assert(holds(anthropic, "model"@, JsonView::Str(own)));
    }
}

/// A completion ends for the reason for which the message ends, in the words of the
/// other protocol; a message that gives no reason has come to its end.
pub proof fn law_completion_reason(
    anthropic: JsonView,
    model: Seq<char>,
    id: JsonView,
    created: i64,
    reason: Seq<char>,
)
    requires
        holds(anthropic, "stop_reason"@, JsonView::Str(reason)) || (no_text_at(
            anthropic,
            "stop_reason"@,
        ) && reason == "end_turn"@),
    ensures
        holds(
            only_choice(completion(anthropic, model, id, created)),
            "finish_reason"@,
            JsonView::Str(
                if reason == "tool_use"@ {
                    "tool_calls"@
                } else if reason == "max_tokens"@ || reason == "model_context_window_exceeded"@ {
                    "length"@
                } else {
                    "stop"@
                },
            ),
        ),
{
    lemma_words();
    if let Some(JsonView::Str(own)) = anthropic.get("stop_reason"@) {
        assert(holds(anthropic, "stop_reason"@, JsonView::Str(own)));
    }
}

/// Whether a message counts so many tokens of a kind; none where it does not count
/// them.
pub open spec fn counts(anthropic: JsonView, kind: Seq<char>, n: i64) -> bool {
    let usage = field(anthropic, "usage"@);
    ||| holds(usage, kind, JsonView::Int(n as int))
    ||| n == 0 && forall|i: i64| !#[trigger] holds(usage, kind, JsonView::Int(i as int))
}

/// The tokens of the prompt are those that went into the message, the tokens of the
/// completion are those that came out, and the total is both together.
pub proof fn law_completion_usage(
    anthropic: JsonView,
    model: Seq<char>,
    id: JsonView,
    created: i64,
    input: i64,
    output: i64,
)
    requires
        counts(anthropic, "input_tokens"@, input),
        counts(anthropic, "output_tokens"@, output),
    ensures
        ({
            let usage = field(completion(anthropic, model, id, created), "usage"@);
            &&& has_only(usage, set!["prompt_tokens"@, "completion_tokens"@, "total_tokens"@])
            &&& holds(usage, "prompt_tokens"@, JsonView::Int(input as int))
            &&& holds(usage, "completion_tokens"@, JsonView::Int(output as int))
            &&& holds(usage, "total_tokens"@, JsonView::Int(input + output))
        }),
        token_sum(anthropic) == input + output,
        tokens_fit(anthropic) <==> i64::MIN <= input + output <= i64::MAX,
{
    lemma_words();
    lemma_counts(anthropic, "input_tokens"@, input);
    lemma_counts(anthropic, "output_tokens"@, output);
    let usage = field(completion(anthropic, model, id, created), "usage"@);
    assert(usage->Object_0.dom() =~= set![
        "prompt_tokens"@,
        "completion_tokens"@,
        "total_tokens"@,
    ]);
}

/// The tokens of a kind that a message counts.
proof fn lemma_counts(anthropic: JsonView, kind: Seq<char>, n: i64)
    requires
        counts(anthropic, kind, n),
    ensures
        token_count(anthropic, kind) == n,
{
    let usage = field(anthropic, "usage"@);
    if let Some(JsonView::Int(i)) = anthropic.get2("usage"@, kind) {
        if i64::MIN <= i <= i64::MAX {
            assert(holds(usage, kind, JsonView::Int((i as i64) as int)));
        }
    }
}

/// A message without blocks says nothing and calls no tool.
pub proof fn law_no_blocks(anthropic: JsonView, model: Seq<char>, id: JsonView, created: i64)
    requires
        forall|blocks: Seq<JsonView>|
            #[trigger] holds(anthropic, "content"@, JsonView::Array(blocks)) ==> blocks.len() == 0,
    ensures
        ({
            let message = told_message(completion(anthropic, model, id, created));
            holds(message, "content"@, JsonView::Null) && holds(
                message,
                "tool_calls"@,
                JsonView::Null,
            )
        }),
{
    lemma_words();
    if let Some(JsonView::Array(blocks)) = anthropic.get("content"@) {
        assert(holds(anthropic, "content"@, JsonView::Array(blocks)));
    }
    let blocks = message_blocks(anthropic);
    assert(blocks.map_values(|block: JsonView| spoken_text(block)) =~= Seq::empty());
    assert(blocks.map_values(|block: JsonView| tool_call(block)) =~= Seq::empty());
}

/// Whether a tool call tells the use of a tool: its id and its name as they are, and
/// its input as JSON text.
pub open spec fn tells_use(call: JsonView, block: JsonView) -> bool {
    let function = field(call, "function"@);
    &&& has_only(call, set!["id"@, "type"@, "function"@])
    &&& holds(call, "id"@, JsonView::Str(text_of(field(block, "id"@))))
    &&& holds(call, "type"@, JsonView::Str("function"@))
    &&& has_only(function, set!["name"@, "arguments"@])
    &&& holds(function, "name"@, JsonView::Str(text_of(field(block, "name"@))))
    &&& forall|input: JsonView| #[trigger]
        holds(block, "input"@, input) ==> holds(
            function,
            "arguments"@,
            JsonView::Str(printed(input)),
        )
    &&& lacks(block, "input"@) ==> holds(
        function,
        "arguments"@,
        JsonView::Str(printed(JsonView::Object(Map::empty()))),
    )
}

/// A tool call carries the arguments that it is given, whatever they are.
pub proof fn law_tool_call_arguments(block: JsonView, arguments: Seq<char>)
    ensures
        ({
            let call = tool_call_with(block, arguments);
            let function = field(call, "function"@);
            &&& has_only(call, set!["id"@, "type"@, "function"@])
            &&& holds(call, "id"@, JsonView::Str(text_of(field(block, "id"@))))
            &&& holds(call, "type"@, JsonView::Str("function"@))
            &&& has_only(function, set!["name"@, "arguments"@])
            &&& holds(function, "name"@, JsonView::Str(text_of(field(block, "name"@))))
            &&& holds(function, "arguments"@, JsonView::Str(arguments))
        }),
{
    lemma_words();
    reveal_strlit("");
    assert(""@ =~= Seq::<char>::empty());
    let call = tool_call_with(block, arguments);
    assert(call->Object_0.dom() =~= set!["id"@, "type"@, "function"@]);
    assert(field(call, "function"@)->Object_0.dom() =~= set!["name"@, "arguments"@]);
}

/// Two messages, of which the second has one block more, at the end: a text block
/// adds its text, character for character, a block that uses a tool adds one tool
/// call, and any other block adds nothing.
pub proof fn law_one_block_more(
    shorter: JsonView,
    longer: JsonView,
    blocks: Seq<JsonView>,
    block: JsonView,
    model: Seq<char>,
    id: JsonView,
    created: i64,
)
    requires
        holds(shorter, "content"@, JsonView::Array(blocks)),
        holds(longer, "content"@, JsonView::Array(blocks.push(block))),
    ensures
        ({
            let kind = field(block, "type"@);
            let a = completion(shorter, model, id, created);
            let b = completion(longer, model, id, created);
            &&& message_text(b) == message_text(a) + if kind == JsonView::Str("text"@) {
                text_of(field(block, "text"@))
            } else {
                Seq::empty()
            }
            &&& if kind == JsonView::Str("tool_use"@) {
                &&& message_calls(b).len() == message_calls(a).len() + 1
                &&& message_calls(b).drop_last() == message_calls(a)
                &&& tells_use(message_calls(b).last(), block)
            } else {
                message_calls(b) == message_calls(a)
            }
        }),
{
    lemma_words();
    reveal_strlit("");
    assert(""@ =~= Seq::<char>::empty());
    let f = |block: JsonView| spoken_text(block);
    let g = |block: JsonView| tool_call(block);
    let more = blocks.push(block);
    assert(more.map_values(f) =~= blocks.map_values(f).push(spoken_text(block)));
    assert(more.map_values(g) =~= blocks.map_values(g).push(tool_call(block)));
    lemma_present_push(blocks.map_values(f), spoken_text(block));
    lemma_present_push(blocks.map_values(g), tool_call(block));
    let texts = present(blocks.map_values(f));
    if let Some(text) = spoken_text(block) {
        assert(texts.push(text).drop_last() =~= texts);
    }
    let a = completion(shorter, model, id, created);
    let b = completion(longer, model, id, created);
    assert(message_text(a) =~= all_text(blocks));
    assert(message_text(b) =~= all_text(more));
    assert(message_calls(a) =~= all_tool_calls(blocks));
    assert(message_calls(b) =~= all_tool_calls(more));
    if field(block, "type"@) == JsonView::Str("tool_use"@) {
        let call = tool_call(block)->0;
        assert(message_calls(b).last() == call);
        assert(message_calls(b).drop_last() =~= message_calls(a));
        assert(call->Object_0.dom() =~= set!["id"@, "type"@, "function"@]);
        let function = field(call, "function"@);
        assert(function->Object_0.dom() =~= set!["name"@, "arguments"@]);
        assert(lacks(block, "input"@) ==> block.get("input"@) is None) by {
            if let Some(input) = block.get("input"@) {
                assert(holds(block, "input"@, input));
            }
        }
    }
    assert(message_text(b) =~= message_text(a) + if field(block, "type"@) == JsonView::Str(
        "text"@,
    ) {
        text_of(field(block, "text"@))
    } else {
        Seq::empty()
    });
}

/// A completion has the id of its message, whatever it is, and a fresh one only
/// where the message has none.
pub proof fn law_completion_id(anthropic: JsonView, id: JsonView)
    ensures
        forall|own: JsonView| #[trigger]
            holds(anthropic, "id"@, own) ==> (is_completion_id(anthropic, id) <==> id == own),
        lacks(anthropic, "id"@) ==> (is_completion_id(anthropic, id) <==> (
        id matches JsonView::Str(fresh) && is_fresh_chat_id(fresh))),
{
    if let Some(own) = anthropic.get("id"@) {
        assert(holds(anthropic, "id"@, own));
    }
}

} // verus!
