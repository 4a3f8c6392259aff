//! What the service reads of a request, told from the chat request that it was made
//! from.

use crate::content::{
    assistant_message_blocks, assistant_turn, data_url_block, image_block, lemma_present_push,
    part_texts, text_block, text_content, tool_call_block, tool_result_block, tool_use_block,
    user_content, user_part_block, user_part_blocks, ToolCallView,
};
use crate::json::{as_str, JsonView};
use crate::reading::{field, has_only, holds, lemma_words};
use crate::request::{
    conversation_of, converted, said, tool_choice_of, tool_of, tools_of, user_blocks,
    with_assistant_blocks, with_user_blocks, ConversationView, FunctionDefinitionView,
    MessageView, OpenAIChatRequestView, OpenAIMessageView, ToolDefinitionView, ToolView,
};
use crate::request_laws::{
    is_orphan, is_spoken, is_turn, law_refused_messages, law_turns_alternate,
};
use crate::serde_value::{parsed_text, printed};
use crate::text::{ends_with, joined, trimmed_end};
use vstd::prelude::*;

verus! {

/// The text of a content that is one value: a string is its own text, nothing is no
/// text, and any other value is its JSON text.
pub proof fn law_text_of_value(value: JsonView)
    ensures
        text_content(None).len() == 0,
        value is Null ==> text_content(Some(value)).len() == 0,
        value is Str ==> text_content(Some(value)) == value->Str_0,
        value is Bool || value is Int || value is Float || value is Object ==> text_content(
            Some(value),
        ) == printed(value),
        text_content(Some(JsonView::Array(Seq::empty()))).len() == 0,
{
    let none = Seq::<JsonView>::empty();
    assert(none.map_values(|part: JsonView| as_str(part.get("text"@))) =~= Seq::empty());
}

/// Whether one of the parts of a content has a text.
pub open spec fn some_text_in(parts: Seq<JsonView>) -> bool {
    exists|i: int| 0 <= i < parts.len() && #[trigger] field(parts[i], "text"@) is Str
}

/// One part more adds its text, as it is, on a line of its own; a part without a
/// text adds nothing.
pub proof fn law_one_part_more(parts: Seq<JsonView>, part: JsonView)
    ensures
        ({
            let before = text_content(Some(JsonView::Array(parts)));
            let after = text_content(Some(JsonView::Array(parts.push(part))));
            match field(part, "text"@) {
                JsonView::Str(text) => after == if some_text_in(parts) {
                    before.push('\n') + text
                } else {
                    text
                },
                _ => after == before,
            }
        }),
{
    let f = |part: JsonView| as_str(part.get("text"@));
    assert(parts.push(part).map_values(f) =~= parts.map_values(f).push(f(part)));
    lemma_present_push(parts.map_values(f), f(part));
    lemma_part_texts(parts);
    reveal_strlit("\n");
    let texts = part_texts(parts);
    if let JsonView::Str(text) = field(part, "text"@) {
        let more = part_texts(parts.push(part));
        assert(more == texts.push(text));
        assert(more.drop_last() =~= texts);
        assert("\n"@ =~= seq!['\n']);
        if texts.len() > 0 {
            assert(joined(texts, "\n"@).push('\n') + text =~= joined(texts, "\n"@) + "\n"@ + text);
        }
    }
}

/// Parts have texts if one of them has.
proof fn lemma_part_texts(parts: Seq<JsonView>)
    ensures
        part_texts(parts).len() > 0 <==> some_text_in(parts),
    decreases parts.len(),
{
    let f = |part: JsonView| as_str(part.get("text"@));
    if parts.len() > 0 {
        let init = parts.drop_last();
        let last = parts[parts.len() - 1];
        lemma_part_texts(init);
        assert(parts.map_values(f).drop_last() =~= init.map_values(f));
        assert(f(last) is Some <==> field(parts[parts.len() - 1], "text"@) is Str);
        if some_text_in(init) {
            let i = choose|i: int| 0 <= i < init.len() && #[trigger] field(init[i], "text"@) is Str;
            assert(field(parts[i], "text"@) is Str);
        }
        if some_text_in(parts) {
            let i = choose|i: int|
                0 <= i < parts.len() && #[trigger] field(parts[i], "text"@) is Str;
            if i < init.len() {
                assert(field(init[i], "text"@) is Str);
            }
        }
    } else {
        assert(parts.map_values(f) =~= Seq::empty());
    }
}

/// The mark of base64 data in a URL, so many times.
pub open spec fn marks(n: nat) -> Seq<char>
    decreases n,
{
    if n == 0 {
        Seq::empty()
    } else {
        marks((n - 1) as nat) + ";base64"@
    }
}

/// Whether a URL embeds data of a type: it is `data:`, the type, the mark of base64
/// data at least once, a comma and the data.
pub open spec fn embeds(
    url: Seq<char>,
    media_type: Seq<char>,
    n: nat,
    data: Seq<char>,
) -> bool {
    &&& url == "data:"@ + media_type + marks(n) + ","@ + data
    &&& n > 0
    &&& forall|i: int| 0 <= i < media_type.len() ==> media_type[i] != ','
    &&& media_type.len() >= 7 ==> media_type.skip(media_type.len() - 7) != ";base64"@
}

/// Whether a block is an image in base64 with this type and these data.
pub open spec fn is_image(block: JsonView, media_type: Seq<char>, data: Seq<char>) -> bool {
    let source = field(block, "source"@);
    &&& has_only(block, set!["type"@, "source"@])
    &&& holds(block, "type"@, JsonView::Str("image"@))
    &&& has_only(source, set!["type"@, "media_type"@, "data"@])
    &&& holds(source, "type"@, JsonView::Str("base64"@))
    &&& holds(source, "media_type"@, JsonView::Str(media_type))
    &&& holds(source, "data"@, JsonView::Str(data))
}

/// The marks hold no comma, and are left out from the end of what they follow.
proof fn lemma_marks(media_type: Seq<char>, n: nat)
    requires
        media_type.len() >= 7 ==> media_type.skip(media_type.len() - 7) != ";base64"@,
    ensures
        forall|i: int| 0 <= i < marks(n).len() ==> marks(n)[i] != ',',
        n > 0 ==> ends_with(media_type + marks(n), ";base64"@),
        trimmed_end(media_type + marks(n), ";base64"@) == media_type,
    decreases n,
{
    reveal_strlit(";base64");
    let tag = ";base64"@;
    assert(tag.len() == 7);
    if n == 0 {
        assert(media_type + marks(n) =~= media_type);
    } else {
        let fewer = media_type + marks((n - 1) as nat);
        lemma_marks(media_type, (n - 1) as nat);
        let all = media_type + marks(n);
        assert(all =~= fewer + tag);
        assert(all.skip(all.len() - 7) =~= tag);
        assert(all.take(all.len() - 7) =~= fewer);
    }
}

/// An image that a URL embeds is found again: its type and its data come back as
/// they are.
pub proof fn law_embedded_image(
    url: Seq<char>,
    media_type: Seq<char>,
    n: nat,
    data: Seq<char>,
)
    requires
        embeds(url, media_type, n, data),
    ensures
        data_url_block(url) matches Some(block) && is_image(block, media_type, data),
{
    lemma_words();
    lemma_marks(media_type, n);
    reveal_strlit("data:");
    reveal_strlit(",");
    let meta = media_type + marks(n);
    assert(url.take(5) =~= "data:"@);
    let rest = url.skip(5);
    assert(rest =~= meta + ","@ + data);
    assert(rest[meta.len() as int] == ',');
    assert forall|i: int| 0 <= i < meta.len() implies rest[i] != ',' by {
        if i < media_type.len() {
            assert(rest[i] == media_type[i]);
        } else {
            assert(rest[i] == marks(n)[i - media_type.len()]);
        }
    }
    rest.index_of_first_ensures(',');
    assert(rest.contains(','));
    let comma = rest.index_of_first(',')->0;
    assert(comma == meta.len());
    assert(rest.take(comma) =~= meta);
    assert(rest.skip(comma + 1) =~= data);
    let block = data_url_block(url)->0;
    assert(block->Object_0.dom() =~= set!["type"@, "source"@]);
    let source = field(block, "source"@);
    assert(source->Object_0.dom() =~= set!["type"@, "media_type"@, "data"@]);
}

/// Only a URL that embeds base64 data has an image.
pub proof fn law_only_embedded_images(url: Seq<char>)
    ensures
        data_url_block(url) is Some ==> exists|media_type: Seq<char>, n: nat, data: Seq<char>|
            #[trigger] embeds(url, media_type, n, data),
{
    if data_url_block(url) is Some {
        reveal_strlit("data:");
        reveal_strlit(",");
        let rest = url.skip(5);
        rest.index_of_first_ensures(',');
        let comma = rest.index_of_first(',')->0;
        let meta = rest.take(comma);
        let data = rest.skip(comma + 1);
        let (media_type, n) = lemma_unmarked(meta);
        reveal_strlit(";base64");
        assert(n > 0) by {
            if n == 0 {
                assert(meta =~= media_type);
                assert(media_type.skip(media_type.len() - 7) == ";base64"@);
            }
        }
        assert forall|i: int| 0 <= i < media_type.len() implies media_type[i] != ',' by {
            assert((media_type + marks(n))[i] == media_type[i]);
            assert(meta[i] == rest[i]);
        }
        assert(rest =~= meta + ","@ + data);
        assert(url =~= "data:"@ + rest);
        assert(url =~= "data:"@ + media_type + marks(n) + ","@ + data);
        assert(embeds(url, media_type, n, data));
    }
}

/// What the marks at the end of a text follow, and how many they are.
proof fn lemma_unmarked(meta: Seq<char>) -> (r: (Seq<char>, nat))
    ensures
        meta == r.0 + marks(r.1),
        r.0.len() >= 7 ==> r.0.skip(r.0.len() - 7) != ";base64"@,
    decreases meta.len(),
{
    reveal_strlit(";base64");
    let tag = ";base64"@;
    if meta.len() >= 7 && meta.skip(meta.len() - 7) == tag {
        let fewer = meta.take(meta.len() - 7);
        let (media_type, n) = lemma_unmarked(fewer);
        assert(meta =~= fewer + tag);
        assert(meta =~= media_type + marks(n + 1)) by {
            assert(marks(n + 1) == marks(n) + tag);
        }
        (media_type, n + 1)
    } else {
        assert(meta + marks(0) =~= meta);
        (meta, 0)
    }
}

/// Whether a block is a text block with this text.
pub open spec fn is_text(block: JsonView, text: Seq<char>) -> bool {
    &&& has_only(block, set!["type"@, "text"@])
    &&& holds(block, "type"@, JsonView::Str("text"@))
    &&& holds(block, "text"@, JsonView::Str(text))
}

/// Every block says what it is made of, whatever that is.
pub proof fn law_blocks(a: Seq<char>, b: Seq<char>, value: JsonView)
    ensures
        is_text(text_block(a), a),
        is_image(image_block(a, b), a, b),
        is_use(tool_use_block(a, b, value), a, b, value),
        is_result(tool_result_block(a, b), a, b),
{
    lemma_words();
    lemma_text_block(a);
    let image = image_block(a, b);
    assert(image->Object_0.dom() =~= set!["type"@, "source"@]);
    assert(field(image, "source"@)->Object_0.dom() =~= set!["type"@, "media_type"@, "data"@]);
    let used = tool_use_block(a, b, value);
    assert(used->Object_0.dom() =~= set!["type"@, "id"@, "name"@, "input"@]);
    let result = tool_result_block(a, b);
    assert(result->Object_0.dom() =~= set!["type"@, "tool_use_id"@, "content"@]);
}

/// The block of a text has its fields.
proof fn lemma_text_block(text: Seq<char>)
    ensures
        is_text(text_block(text), text),
{
    lemma_words();
    assert(text_block(text)->Object_0.dom() =~= set!["type"@, "text"@]);
}

/// A user's content that is one value: a string stays as it is, nothing becomes the
/// empty string, and any other value but parts becomes its JSON text.
pub proof fn law_user_value(value: JsonView)
    ensures
        user_content(None) == JsonView::Str(Seq::empty()),
        value is Str ==> user_content(Some(value)) == value,
        value is Null || value is Bool || value is Int || value is Float || value is Object
            ==> user_content(Some(value)) == JsonView::Str(printed(value)),
        user_content(Some(JsonView::Array(Seq::empty()))) == JsonView::Array(Seq::empty()),
{
    let none = Seq::<JsonView>::empty();
    assert(none.map_values(|part: JsonView| user_part_block(part)) =~= Seq::empty());
}

/// One part more of a user's content adds at most one block, at the end: a text part
/// its text as it is, a part with an embedded image that image, and any other part
/// nothing.
pub proof fn law_one_user_part_more(parts: Seq<JsonView>, part: JsonView)
    ensures
        ({
            let before = user_content(Some(JsonView::Array(parts)));
            let after = user_content(Some(JsonView::Array(parts.push(part))));
            let kind = field(part, "type"@);
            let text = field(part, "text"@);
            let url = field(field(part, "image_url"@), "url"@);
            &&& before is Array && after is Array
            &&& if kind == JsonView::Str("text"@) && text is Str {
                &&& after->Array_0.len() == before->Array_0.len() + 1
                &&& after->Array_0.drop_last() == before->Array_0
                &&& is_text(after->Array_0.last(), text->Str_0)
            } else if kind == JsonView::Str("image_url"@) && url is Str && data_url_block(
                url->Str_0,
            ) is Some {
                after->Array_0 == before->Array_0.push(data_url_block(url->Str_0)->0)
            } else {
                after == before
            }
        }),
{
    lemma_words();
    let f = |part: JsonView| user_part_block(part);
    assert(parts.push(part).map_values(f) =~= parts.map_values(f).push(f(part)));
    lemma_present_push(parts.map_values(f), f(part));
    let before = user_part_blocks(parts);
    if let JsonView::Str(text) = field(part, "text"@) {
        lemma_text_block(text);
        assert(before.push(text_block(text)).drop_last() =~= before);
    }
}

/// Whether a block is the use of a tool with this id, this name and this input.
pub open spec fn is_use(block: JsonView, id: Seq<char>, name: Seq<char>, input: JsonView) -> bool {
    &&& has_only(block, set!["type"@, "id"@, "name"@, "input"@])
    &&& holds(block, "type"@, JsonView::Str("tool_use"@))
    &&& holds(block, "id"@, JsonView::Str(id))
    &&& holds(block, "name"@, JsonView::Str(name))
    &&& holds(block, "input"@, input)
}

/// An assistant message without tool calls is its text in one block, if it has any.
pub proof fn law_assistant_text(content: Option<JsonView>)
    ensures
        ({
            let blocks = assistant_message_blocks(content, None);
            let text = text_content(content);
            if text.len() > 0 {
                blocks.len() == 1 && is_text(blocks[0], text)
            } else {
                blocks.len() == 0
            }
        }),
        assistant_message_blocks(content, Some(Seq::empty())) == assistant_message_blocks(
            content,
            None,
        ),
{
    lemma_text_block(text_content(content));
    let none = Seq::<ToolCallView>::empty();
    assert(none.map_values(|call: ToolCallView| tool_call_block(call)) =~= Seq::empty());
}

/// One tool call more of an assistant message adds at most one block, at the end: a
/// call of a function becomes the use of a tool with the same id and name, whose
/// input is the value that the arguments denote, however they are written. Only
/// arguments that denote no value become an empty object. A call of another type
/// adds nothing.
pub proof fn law_one_call_more(
    content: Option<JsonView>,
    calls: Seq<ToolCallView>,
    call: ToolCallView,
)
    ensures
        ({
            let before = assistant_message_blocks(content, Some(calls));
            let after = assistant_message_blocks(content, Some(calls.push(call)));
            if call.call_type == "function"@ {
                &&& after.len() == before.len() + 1
                &&& after.drop_last() == before
                &&& match parsed_text(call.arguments) {
                    Some(input) => is_use(after.last(), call.id, call.name, input),
                    None => {
                        let input = field(after.last(), "input"@);
                        is_use(after.last(), call.id, call.name, input) && has_only(
                            input,
                            Set::empty(),
                        )
                    },
                }
            } else {
                after == before
            }
        }),
{
    lemma_words();
    let f = |call: ToolCallView| tool_call_block(call);
    assert(calls.push(call).map_values(f) =~= calls.map_values(f).push(f(call)));
    lemma_present_push(calls.map_values(f), f(call));
    let before = assistant_message_blocks(content, Some(calls));
    let after = assistant_message_blocks(content, Some(calls.push(call)));
    if call.call_type == "function"@ {
        let block = f(call)->0;
        assert(after =~= before.push(block));
        assert(after.drop_last() =~= before);
        assert(block->Object_0.dom() =~= set!["type"@, "id"@, "name"@, "input"@]);
    }
}

/// The blocks that are read in a turn.
pub open spec fn blocks_read(message: MessageView) -> Seq<JsonView> {
    match message.content {
        JsonView::Array(blocks) => blocks,
        _ => Seq::empty(),
    }
}

/// Whether one conversation is another with blocks added by one speaker. Where the
/// last turn is that speaker's, it goes on, and otherwise there is one turn more;
/// nothing else changes. The turn of a user is a list of blocks; that of an
/// assistant is one too, but for a single space where it has none.
pub open spec fn adds(
    before: ConversationView,
    after: ConversationView,
    role: Seq<char>,
    blocks: Seq<JsonView>,
) -> bool {
    let goes_on = before.messages.len() > 0 && before.messages.last().role == role;
    let n = before.messages.len() - if goes_on {
        1int
    } else {
        0
    };
    let turn = after.messages.last();
    let earlier = if goes_on {
        blocks_read(before.messages.last())
    } else {
        Seq::empty()
    };
    &&& after.system == before.system
    &&& after.messages.len() == n + 1
    &&& after.messages.take(n) == before.messages.take(n)
    &&& turn.role == role
    &&& if role == "assistant"@ && (earlier + blocks).len() == 0 {
        turn.content == JsonView::Str(" "@)
    } else {
        turn.content == JsonView::Array(earlier + blocks)
    }
}

/// What a message makes of a conversation.
proof fn lemma_said(messages: Seq<OpenAIMessageView>, message: OpenAIMessageView)
    requires
        conversation_of(messages) is Ok,
    ensures
        conversation_of(messages.push(message)) == said(conversation_of(messages)->Ok_0, message),
        forall|i: int|
            0 <= i < conversation_of(messages)->Ok_0.messages.len() ==> is_turn(
                #[trigger] conversation_of(messages)->Ok_0.messages[i],
            ),
{
    assert(messages.push(message).drop_last() =~= messages);
    law_turns_alternate(messages);
}

/// Before the first message nothing is said.
pub proof fn law_nothing_said()
    ensures
        conversation_of(Seq::empty()) matches Ok(c) && c.system.len() == 0 && c.messages.len() == 0,
{
}

/// A system message adds its text to the system prompt, if it has any, and changes
/// no turn.
pub proof fn law_system_message(messages: Seq<OpenAIMessageView>, message: OpenAIMessageView)
    requires
        conversation_of(messages) is Ok,
        message.role == "system"@,
    ensures
        ({
            let before = conversation_of(messages)->Ok_0;
            let text = text_content(message.content);
            conversation_of(messages.push(message)) matches Ok(after) && after.messages
                == before.messages && after.system == if text.len() > 0 {
                before.system.push(text)
            } else {
                before.system
            }
        }),
{
    lemma_said(messages, message);
}

/// Whether a block is the result of a tool with this id and this text.
pub open spec fn is_result(block: JsonView, id: Seq<char>, text: Seq<char>) -> bool {
    &&& has_only(block, set!["type"@, "tool_use_id"@, "content"@])
    &&& holds(block, "type"@, JsonView::Str("tool_result"@))
    &&& holds(block, "tool_use_id"@, JsonView::Str(id))
    &&& holds(block, "content"@, JsonView::Str(text))
}

/// The result of a tool is said by the user, in one block, which names the call that
/// it answers and tells the whole text of the result.
pub proof fn law_tool_message(
    messages: Seq<OpenAIMessageView>,
    message: OpenAIMessageView,
    id: Seq<char>,
)
    requires
        conversation_of(messages) is Ok,
        message.role == "tool"@,
        message.tool_call_id == Some(id),
    ensures
        ({
            let before = conversation_of(messages)->Ok_0;
            let after = conversation_of(messages.push(message))->Ok_0;
            let block = blocks_read(after.messages.last()).last();
            &&& conversation_of(messages.push(message)) is Ok
            &&& adds(before, after, "user"@, seq![block])
            &&& is_result(block, id, text_content(message.content))
            &&& message.content matches Some(JsonView::Str(text)) ==> is_result(block, id, text)
        }),
{
    lemma_words();
    lemma_said(messages, message);
    let before = conversation_of(messages)->Ok_0;
    let after = conversation_of(messages.push(message))->Ok_0;
    let block = tool_result_block(id, text_content(message.content));
    assert(block->Object_0.dom() =~= set!["type"@, "tool_use_id"@, "content"@]);
    lemma_user_adds(before, after, seq![block]);
    assert(blocks_read(after.messages.last()).last() == block);
}

/// What a user adds.
proof fn lemma_user_adds(before: ConversationView, after: ConversationView, blocks: Seq<JsonView>)
    requires
        after.system == before.system,
        after.messages == with_user_blocks(before.messages, blocks),
        forall|i: int| 0 <= i < before.messages.len() ==> is_turn(#[trigger] before.messages[i]),
    ensures
        adds(before, after, "user"@, blocks),
        after.messages.last().content is Array,
        blocks.len() > 0 ==> blocks_read(after.messages.last()).last() == blocks.last(),
{
    lemma_words();
    let n = before.messages.len();
    if n > 0 && before.messages.last().role == "user"@ {
        assert(is_turn(before.messages[n - 1]));
        assert(after.messages.take(n - 1) =~= before.messages.take(n - 1));
    } else {
        assert(after.messages.take(n as int) =~= before.messages.take(n as int));
        assert(Seq::empty() + blocks =~= blocks);
    }
}

/// What an assistant adds.
proof fn lemma_assistant_adds(
    before: ConversationView,
    after: ConversationView,
    blocks: Seq<JsonView>,
)
    requires
        after.system == before.system,
        after.messages == with_assistant_blocks(before.messages, blocks),
        forall|i: int| 0 <= i < before.messages.len() ==> is_turn(#[trigger] before.messages[i]),
    ensures
        adds(before, after, "assistant"@, blocks),
{
    lemma_words();
    let n = before.messages.len();
    if n > 0 && before.messages.last().role == "assistant"@ {
        assert(is_turn(before.messages[n - 1]));
        assert(after.messages.take(n - 1) =~= before.messages.take(n - 1));
        if before.messages.last().content == JsonView::Str(" "@) {
            assert(Seq::empty() + blocks =~= blocks);
        }
    } else {
        assert(after.messages.take(n as int) =~= before.messages.take(n as int));
        assert(Seq::empty() + blocks =~= blocks);
    }
}

/// A message of the user adds what it says: a text in one block, parts in the blocks
/// that they become, and nothing for an empty or missing text. Any other value is
/// said as its JSON text.
pub proof fn law_user_message(messages: Seq<OpenAIMessageView>, message: OpenAIMessageView)
    requires
        conversation_of(messages) is Ok,
        message.role == "user"@,
    ensures
        ({
            let before = conversation_of(messages)->Ok_0;
            let after = conversation_of(messages.push(message))->Ok_0;
            let block = blocks_read(after.messages.last()).last();
            let text = match message.content {
                None => Seq::empty(),
                Some(JsonView::Str(text)) => text,
                Some(value) => printed(value),
            };
            &&& conversation_of(messages.push(message)) is Ok
            &&& if message.content matches Some(JsonView::Array(parts)) {
                user_content(message.content) matches JsonView::Array(blocks) && adds(
                    before,
                    after,
                    "user"@,
                    blocks,
                )
            } else if text.len() > 0 {
                adds(before, after, "user"@, seq![block]) && is_text(block, text)
            } else {
                adds(before, after, "user"@, Seq::empty())
            }
        }),
{
    lemma_words();
    lemma_said(messages, message);
    let before = conversation_of(messages)->Ok_0;
    let after = conversation_of(messages.push(message))->Ok_0;
    let blocks = user_blocks(user_content(message.content));
    lemma_user_adds(before, after, blocks);
    if let JsonView::Str(text) = user_content(message.content) {
        lemma_text_block(text);
        if text.len() > 0 {
            assert(blocks =~= seq![text_block(text)]);
        } else {
            assert(blocks =~= Seq::empty());
        }
    }
}

/// A message of the assistant adds its blocks.
pub proof fn law_assistant_message(messages: Seq<OpenAIMessageView>, message: OpenAIMessageView)
    requires
        conversation_of(messages) is Ok,
        message.role == "assistant"@,
    ensures
        conversation_of(messages.push(message)) matches Ok(after) && adds(
            conversation_of(messages)->Ok_0,
            after,
            "assistant"@,
            assistant_message_blocks(message.content, message.tool_calls),
        ),
{
    lemma_words();
    lemma_said(messages, message);
    lemma_assistant_adds(
        conversation_of(messages)->Ok_0,
        conversation_of(messages.push(message))->Ok_0,
        assistant_message_blocks(message.content, message.tool_calls),
    );
}

/// The content of an assistant's blocks is those blocks, and never empty.
pub proof fn law_assistant_turn(blocks: Seq<JsonView>)
    ensures
        assistant_turn(blocks) == if blocks.len() > 0 {
            JsonView::Array(blocks)
        } else {
            JsonView::Str(" "@)
        },
{
}

/// Whether a tool is made from the definition of a function: it has its name, its
/// description, which is empty where there is none, and as its schema every field of
/// the parameters as it is, and no other.
pub open spec fn is_tool_for(tool: ToolView, function: FunctionDefinitionView) -> bool {
    &&& tool.name == function.name
    &&& tool.tool_type is None
    &&& tool.max_uses is None
    &&& match function.description {
        Some(description) => tool.description == description,
        None => tool.description.len() == 0,
    }
    &&& forall|key: Seq<char>, held: JsonView|
        (tool.input_schema.contains_key(key) && #[trigger] tool.input_schema[key] == held) <==> (
        function.parameters is Some && #[trigger] holds(function.parameters->0, key, held))
}

/// One tool definition more adds at most one tool, at the end: only a function that
/// is defined has one.
pub proof fn law_one_tool_more(
    definitions: Seq<ToolDefinitionView>,
    definition: ToolDefinitionView,
)
    ensures
        tools_of(Seq::empty()).len() == 0,
        ({
            let before = tools_of(definitions);
            let after = tools_of(definitions.push(definition));
            if definition.tool_type == "function"@ && definition.function is Some {
                &&& after.len() == before.len() + 1
                &&& after.drop_last() == before
                &&& is_tool_for(after.last(), definition.function->0)
            } else {
                after == before
            }
        }),
{
    let f = |d: ToolDefinitionView| tool_of(d);
    assert(Seq::<ToolDefinitionView>::empty().map_values(f) =~= Seq::empty());
    assert(definitions.push(definition).map_values(f) =~= definitions.map_values(f).push(
        f(definition),
    ));
    lemma_present_push(definitions.map_values(f), f(definition));
    let before = tools_of(definitions);
    if let Some(tool) = f(definition) {
        assert(before.push(tool).drop_last() =~= before);
    }
}

/// A tool choice in one word: `auto` and `required` become the type of a choice,
/// `none` becomes none, and any other word is refused by name.
pub proof fn law_tool_choice_word(word: Seq<char>)
    ensures
        ({
            let chosen = tool_choice_of(Some(JsonView::Str(word)));
            if word == "auto"@ {
                chosen matches Ok(Some(value)) && has_only(value, set!["type"@]) && holds(
                    value,
                    "type"@,
                    JsonView::Str("auto"@),
                )
            } else if word == "required"@ {
                chosen matches Ok(Some(value)) && has_only(value, set!["type"@]) && holds(
                    value,
                    "type"@,
                    JsonView::Str("any"@),
                )
            } else if word == "none"@ {
                chosen matches Ok(None)
            } else {
                chosen matches Err(reason) && reason == "不支持的 tool_choice 字符串: "@ + word
            }
        }),
{
    lemma_words();
    let any = map!["type"@ => JsonView::Str("any"@)];
    let auto = map!["type"@ => JsonView::Str("auto"@)];
    assert(any.dom() =~= set!["type"@]);
    assert(auto.dom() =~= set!["type"@]);
}

/// A tool choice in an object: a function becomes the tool of its name, a choice in
/// the words of the service stays as it is, and anything else is refused with its
/// reason.
pub proof fn law_tool_choice_object(choice: JsonView)
    requires
        choice is Object,
    ensures
        ({
            let chosen = tool_choice_of(Some(choice));
            let kind = field(choice, "type"@);
            let name = field(field(choice, "function"@), "name"@);
            if kind == JsonView::Str("function"@) && name is Str {
                chosen matches Ok(Some(value)) && has_only(value, set!["type"@, "name"@]) && holds(
                    value,
                    "type"@,
                    JsonView::Str("tool"@),
                ) && holds(value, "name"@, name)
            } else if kind == JsonView::Str("function"@) {
                chosen matches Err(reason) && reason == "tool_choice.function.name 不能为空"@
            } else if kind == JsonView::Str("auto"@) || kind == JsonView::Str("any"@) || kind
                == JsonView::Str("tool"@) {
                chosen == Ok::<Option<JsonView>, Seq<char>>(Some(choice))
            } else if kind is Str {
                chosen matches Err(reason) && reason == "不支持的 tool_choice 类型: "@ + kind->Str_0
            } else {
                chosen matches Err(reason) && reason == "tool_choice 对象缺少 type 字段"@
            }
        }),
{
    lemma_words();
    if let Ok(Some(JsonView::Object(fields))) = tool_choice_of(Some(choice)) {
        if field(choice, "type"@) == JsonView::Str("function"@) {
            assert(fields.dom() =~= set!["type"@, "name"@]);
        }
    }
}

/// No tool choice stays none, and one that is neither a word nor an object is
/// refused.
pub proof fn law_other_tool_choices(choice: JsonView)
    requires
        choice !is Str,
        choice !is Object,
    ensures
        tool_choice_of(None) matches Ok(None),
        tool_choice_of(Some(choice)) matches Err(reason) && reason == "tool_choice 格式不合法"@,
{
}

/// The token limit that a chat request sets: that of the completion before that of
/// the message, and 4096 where it sets none.
pub open spec fn limit_set(request: OpenAIChatRequestView) -> int {
    if request.max_completion_tokens is Some {
        request.max_completion_tokens->0 as int
    } else if request.max_tokens is Some {
        request.max_tokens->0 as int
    } else {
        4096
    }
}

/// A chat request is refused for the first of these reasons that holds, and
/// otherwise accepted: its token limit is not positive, the result of a tool lacks
/// its call, nothing is spoken, or its tool choice is refused.
pub proof fn law_refusals(request: OpenAIChatRequestView)
    ensures
        ({
            let result = converted(request);
            if limit_set(request) <= 0 {
                result matches Err(reason) && reason == "max_tokens 必须为正整数"@
            } else if exists|i: int|
                0 <= i < request.messages.len() && is_orphan(#[trigger] request.messages[i]) {
                result matches Err(reason) && reason == "tool 消息缺少 tool_call_id"@
            } else if !exists|i: int|
                0 <= i < request.messages.len() && is_spoken(#[trigger] request.messages[i]) {
                result matches Err(reason) && reason == "消息列表为空"@
            } else if tool_choice_of(request.tool_choice) is Err {
                result matches Err(reason) && reason == tool_choice_of(request.tool_choice)->Err_0
            } else {
                result is Ok
            }
        }),
{
    law_refused_messages(request.messages);
}

/// A chat request that is accepted becomes a request for the same model, with the
/// token limit that it sets, streamed if it asks for that, with its turns, its system
/// prompt, if it has one, its tools, if it offers any, and its tool choice, and with
/// nothing else.
pub proof fn law_accepted_fields(request: OpenAIChatRequestView)
    ensures
        converted(request) matches Ok(accepted) ==> {
            let conversation = conversation_of(request.messages)->Ok_0;
            &&& accepted.model == request.model
            &&& accepted.max_tokens == limit_set(request)
            &&& accepted.stream == request.stream
            &&& accepted.messages == conversation.messages
            &&& match accepted.system {
                Some(system) => system == conversation.system && system.len() > 0,
                None => conversation.system.len() == 0,
            }
            &&& match request.tools {
                Some(definitions) => accepted.tools == Some(tools_of(definitions)),
                None => accepted.tools is None,
            }
            &&& tool_choice_of(request.tool_choice) == Ok::<Option<JsonView>, Seq<char>>(
                accepted.tool_choice,
            )
            &&& accepted.thinking is None
            &&& accepted.output_config is None
            &&& accepted.metadata is None
        },
{
}

} // verus!
