//! Laws of the conversion of requests.

use crate::content::{
    assistant_message_blocks, assistant_turn, data_url_block, image_block, lemma_present_push,
    present, text_block, text_content, tool_call_block, tool_call_blocks, tool_result_block,
    tool_use_block, user_content, ToolCallView,
};
use crate::json::{as_str, JsonView};
use crate::request::{
    assistant_blocks, conversation_of, converted, said, token_limit, tool_choice_of, user_blocks,
    with_assistant_blocks, with_user_blocks, MessageView, OpenAIChatRequestView, OpenAIMessageView,
};
use crate::response::{
    all_text, all_tool_calls, completion, completion_message, concatenated, message_blocks,
    spoken_text, text_or, tool_call,
};
use crate::serde_value::reads_back;
use crate::text::{ends_with, trimmed_end};
use vstd::prelude::*;

verus! {

/// The roles are four different words.
proof fn lemma_roles()
    ensures
        "user"@ != "assistant"@,
        "user"@ != "system"@,
        "user"@ != "tool"@,
        "assistant"@ != "system"@,
        "assistant"@ != "tool"@,
        "system"@ != "tool"@,
{
    reveal_strlit("user");
    reveal_strlit("assistant");
    reveal_strlit("system");
    reveal_strlit("tool");
    assert("user"@[0] == 'u' && "tool"@[0] == 't' && "user"@.len() == 4 && "tool"@.len() == 4
        && "system"@.len() == 6 && "assistant"@.len() == 9);
}

/// Whether a message is a turn of the user, with blocks, or of the assistant, with
/// blocks or the single space that stands for none.
pub open spec fn is_turn(message: MessageView) -> bool {
    ||| message.role == "user"@ && message.content is Array
    ||| message.role == "assistant"@ && (message.content == JsonView::Str(" "@) || (
    message.content matches JsonView::Array(blocks) && blocks.len() > 0))
}

/// Whether messages are turns, and no two in a row are of the same speaker.
pub open spec fn take_turns(messages: Seq<MessageView>) -> bool {
    &&& forall|i: int| 0 <= i < messages.len() ==> is_turn(#[trigger] messages[i])
    &&& forall|i: int, j: int|
        0 <= i && j == i + 1 && j < messages.len() ==> (#[trigger] messages[i]).role != (
        #[trigger] messages[j]).role
}

/// Blocks that are added leave turns.
proof fn lemma_added_blocks(messages: Seq<MessageView>, blocks: Seq<JsonView>)
    requires
        take_turns(messages),
    ensures
        take_turns(with_user_blocks(messages, blocks)),
        take_turns(with_assistant_blocks(messages, blocks)),
{
    lemma_roles();
}

/// Every conversation that is accepted is a sequence of turns in which user and
/// assistant take turns.
pub proof fn law_turns_alternate(messages: Seq<OpenAIMessageView>)
    ensures
        conversation_of(messages) matches Ok(c) ==> take_turns(c.messages),
    decreases messages.len(),
{
    if messages.len() > 0 {
        law_turns_alternate(messages.drop_last());
        if let Ok(c) = conversation_of(messages.drop_last()) {
            let m = messages.last();
            match m.tool_call_id {
                Some(id) => lemma_added_blocks(
                    c.messages,
                    seq![tool_result_block(id, text_content(m.content))],
                ),
                None => {},
            }
            lemma_added_blocks(c.messages, user_blocks(user_content(m.content)));
            lemma_added_blocks(c.messages, assistant_message_blocks(m.content, m.tool_calls));
        }
    }
}

/// A block and who says it.
pub type SaidBlock = (Seq<char>, JsonView);

/// Blocks, all said by one.
pub open spec fn said_by(role: Seq<char>, blocks: Seq<JsonView>) -> Seq<SaidBlock> {
    blocks.map_values(|block: JsonView| (role, block))
}

/// Who says which blocks in a message of a chat request. A tool speaks as the
/// user.
pub open spec fn said_in(message: OpenAIMessageView) -> Seq<SaidBlock> {
    if message.role == "tool"@ {
        match message.tool_call_id {
            Some(id) => said_by(
                "user"@,
                seq![tool_result_block(id, text_content(message.content))],
            ),
            None => Seq::empty(),
        }
    } else if message.role == "user"@ {
        said_by("user"@, user_blocks(user_content(message.content)))
    } else if message.role == "assistant"@ {
        said_by("assistant"@, assistant_message_blocks(message.content, message.tool_calls))
    } else {
        Seq::empty()
    }
}

/// Who says which blocks in messages of a chat request, in order.
pub open spec fn said_in_all(messages: Seq<OpenAIMessageView>) -> Seq<SaidBlock>
    decreases messages.len(),
{
    if messages.len() == 0 {
        Seq::empty()
    } else {
        said_in_all(messages.drop_last()) + said_in(messages.last())
    }
}

/// Who says which blocks in a turn.
pub open spec fn said_in_turn(message: MessageView) -> Seq<SaidBlock> {
    if message.role == "user"@ {
        said_by(message.role, user_blocks(message.content))
    } else {
        said_by(message.role, assistant_blocks(message.content))
    }
}

/// Who says which blocks in turns, in order.
pub open spec fn said_in_turns(messages: Seq<MessageView>) -> Seq<SaidBlock>
    decreases messages.len(),
{
    if messages.len() == 0 {
        Seq::empty()
    } else {
        said_in_turns(messages.drop_last()) + said_in_turn(messages.last())
    }
}

/// One turn more.
proof fn lemma_one_turn_more(messages: Seq<MessageView>, message: MessageView)
    ensures
        said_in_turns(messages.push(message)) == said_in_turns(messages) + said_in_turn(message),
{
    assert(messages.push(message).drop_last() =~= messages);
}

/// Blocks that are added are said last.
proof fn lemma_added_blocks_said(messages: Seq<MessageView>, blocks: Seq<JsonView>)
    requires
        take_turns(messages),
    ensures
        said_in_turns(with_user_blocks(messages, blocks)) == said_in_turns(messages) + said_by(
            "user"@,
            blocks,
        ),
        said_in_turns(with_assistant_blocks(messages, blocks)) == said_in_turns(messages) + said_by(
            "assistant"@,
            blocks,
        ),
{
    lemma_roles();
    let user = with_user_blocks(messages, blocks);
    let assistant = with_assistant_blocks(messages, blocks);
    if messages.len() > 0 && messages.last().role == "user"@ {
        let own = user_blocks(messages.last().content);
        lemma_one_turn_more(messages.drop_last(), user.last());
        assert(said_by("user"@, own + blocks) =~= said_by("user"@, own) + said_by("user"@, blocks));
        assert(said_in_turns(user) =~= said_in_turns(messages) + said_by("user"@, blocks));
    } else {
        lemma_one_turn_more(messages, user.last());
    }
    if messages.len() > 0 && messages.last().role == "assistant"@ {
        let own = assistant_blocks(messages.last().content);
        lemma_one_turn_more(messages.drop_last(), assistant.last());
        assert(assistant_blocks(assistant_turn(own + blocks)) =~= own + blocks);
        assert(said_by("assistant"@, own + blocks) =~= said_by("assistant"@, own) + said_by(
            "assistant"@,
            blocks,
        ));
        assert(said_in_turns(assistant) =~= said_in_turns(messages) + said_by("assistant"@, blocks));
    } else {
        lemma_one_turn_more(messages, assistant.last());
        assert(assistant_blocks(assistant_turn(blocks)) =~= blocks);
    }
}

/// No block is lost, none is added, none changes its speaker and their order
/// stays: what the turns of a conversation say is what its messages say.
pub proof fn law_nothing_lost(messages: Seq<OpenAIMessageView>)
    ensures
        conversation_of(messages) matches Ok(c) ==> said_in_turns(c.messages) == said_in_all(
            messages,
        ),
    decreases messages.len(),
{
    if messages.len() > 0 {
        law_nothing_lost(messages.drop_last());
        law_turns_alternate(messages.drop_last());
        lemma_roles();
        if let Ok(c) = conversation_of(messages.drop_last()) {
            let m = messages.last();
            match m.tool_call_id {
                Some(id) => lemma_added_blocks_said(
                    c.messages,
                    seq![tool_result_block(id, text_content(m.content))],
                ),
                None => {},
            }
            lemma_added_blocks_said(c.messages, user_blocks(user_content(m.content)));
            lemma_added_blocks_said(c.messages, assistant_message_blocks(m.content, m.tool_calls));
            assert(said_in_turns(c.messages) + Seq::empty() =~= said_in_turns(c.messages));
        }
    }
}

/// The text that a message adds to the system prompt.
pub open spec fn system_text(message: OpenAIMessageView) -> Option<Seq<char>> {
    let text = text_content(message.content);
    if message.role == "system"@ && text.len() > 0 {
        Some(text)
    } else {
        None
    }
}

/// The system prompt is made of the texts of the system messages that have one, in
/// order, wherever they stand.
pub proof fn law_system_prompt(messages: Seq<OpenAIMessageView>)
    ensures
        conversation_of(messages) matches Ok(c) ==> c.system == present(
            messages.map_values(|m: OpenAIMessageView| system_text(m)),
        ),
    decreases messages.len(),
{
    let f = |m: OpenAIMessageView| system_text(m);
    if messages.len() > 0 {
        law_system_prompt(messages.drop_last());
        lemma_roles();
        let init = messages.drop_last().map_values(f);
        lemma_present_push(init, system_text(messages.last()));
        assert(messages.map_values(f) =~= init.push(system_text(messages.last())));
    } else {
        assert(messages.map_values(f) =~= Seq::empty());
    }
}

/// Whether a message is the result of a tool without the call that it answers.
pub open spec fn is_orphan(message: OpenAIMessageView) -> bool {
    message.role == "tool"@ && message.tool_call_id is None
}

/// Whether a message is a part of the conversation.
pub open spec fn is_spoken(message: OpenAIMessageView) -> bool {
    message.role == "user"@ || message.role == "tool"@ || message.role == "assistant"@
}

/// Messages are refused if and only if one is the result of a tool without its
/// call, and always for that reason. What is not refused has a turn if and only if
/// a message is spoken.
pub proof fn law_refused_messages(messages: Seq<OpenAIMessageView>)
    ensures
        conversation_of(messages) is Err <==> exists|i: int|
            0 <= i < messages.len() && is_orphan(#[trigger] messages[i]),
        conversation_of(messages) matches Err(reason) ==> reason == "tool 消息缺少 tool_call_id"@,
        conversation_of(messages) matches Ok(c) ==> (c.messages.len() > 0 <==> exists|i: int|
            0 <= i < messages.len() && is_spoken(#[trigger] messages[i])),
    decreases messages.len(),
{
    if messages.len() > 0 {
        let init = messages.drop_last();
        let n = init.len() as int;
        law_refused_messages(init);
        lemma_roles();
        assert(messages[n] == messages.last());
        if exists|i: int| 0 <= i < init.len() && is_orphan(#[trigger] init[i]) {
            let i = choose|i: int| 0 <= i < init.len() && is_orphan(#[trigger] init[i]);
            assert(is_orphan(messages[i]));
        }
        if exists|i: int| 0 <= i < init.len() && is_spoken(#[trigger] init[i]) {
            let i = choose|i: int| 0 <= i < init.len() && is_spoken(#[trigger] init[i]);
            assert(is_spoken(messages[i]));
        }
        if exists|i: int| 0 <= i < messages.len() && is_orphan(#[trigger] messages[i]) {
            let i = choose|i: int| 0 <= i < messages.len() && is_orphan(#[trigger] messages[i]);
            if i < n {
                assert(is_orphan(init[i]));
            }
        }
        if exists|i: int| 0 <= i < messages.len() && is_spoken(#[trigger] messages[i]) {
            let i = choose|i: int| 0 <= i < messages.len() && is_spoken(#[trigger] messages[i]);
            if i < n {
                assert(is_spoken(init[i]));
            }
        }
    }
}

/// A request is accepted if and only if its token limit is positive, no result of
/// a tool lacks its call, something is spoken, and the tool choice is understood.
pub proof fn law_accepted_requests(request: OpenAIChatRequestView)
    ensures
        converted(request) is Ok <==> {
            &&& token_limit(request) > 0
            &&& forall|i: int|
                0 <= i < request.messages.len() ==> !is_orphan(#[trigger] request.messages[i])
            &&& exists|i: int|
                0 <= i < request.messages.len() && is_spoken(#[trigger] request.messages[i])
            &&& tool_choice_of(request.tool_choice) is Ok
        },
{
    law_refused_messages(request.messages);
}

/// What a request that is accepted becomes has a positive token limit, and turns
/// in which user and assistant take turns.
pub proof fn law_accepted_is_valid(request: OpenAIChatRequestView)
    ensures
        converted(request) matches Ok(accepted) ==> {
            &&& accepted.max_tokens > 0
            &&& accepted.messages.len() > 0
            &&& take_turns(accepted.messages)
            &&& accepted.model == request.model
            &&& accepted.stream == request.stream
        },
{
    law_turns_alternate(request.messages);
}

/// Whether a message is in none of the roles that are known.
pub open spec fn is_unknown(message: OpenAIMessageView) -> bool {
    !is_spoken(message) && message.role != "system"@
}

/// Whether a message is in one of the roles that are known.
pub open spec fn is_known() -> spec_fn(OpenAIMessageView) -> bool {
    |message: OpenAIMessageView| !is_unknown(message)
}

/// Messages in unknown roles make no difference, however many there are and
/// wherever they stand.
pub proof fn law_unknown_roles_ignored(messages: Seq<OpenAIMessageView>)
    ensures
        conversation_of(messages) == conversation_of(messages.filter(is_known())),
    decreases messages.len(),
{
    reveal(Seq::filter);
    if messages.len() > 0 {
        let init = messages.drop_last();
        law_unknown_roles_ignored(init);
        let known = init.filter(is_known());
        assert(known.push(messages.last()).drop_last() =~= known);
    }
}

/// One message more.
proof fn lemma_one_message_more(messages: Seq<OpenAIMessageView>, message: OpenAIMessageView)
    ensures
        conversation_of(messages.push(message)) == (match conversation_of(messages) {
            Ok(c) => said(c, message),
            Err(reason) => Err(reason),
        }),
{
    assert(messages.push(message).drop_last() =~= messages);
}

/// What follows messages makes the same of the same conversation.
proof fn lemma_same_after(
    a: Seq<OpenAIMessageView>,
    b: Seq<OpenAIMessageView>,
    after: Seq<OpenAIMessageView>,
)
    requires
        conversation_of(a) == conversation_of(b),
    ensures
        conversation_of(a + after) == conversation_of(b + after),
    decreases after.len(),
{
    if after.len() == 0 {
        assert(a + after =~= a);
        assert(b + after =~= b);
    } else {
        lemma_same_after(a, b, after.drop_last());
        assert((a + after).drop_last() =~= a + after.drop_last());
        assert((b + after).drop_last() =~= b + after.drop_last());
    }
}

/// A system message may change places with a message of another role.
pub proof fn law_system_message_moves(
    before: Seq<OpenAIMessageView>,
    system: OpenAIMessageView,
    other: OpenAIMessageView,
    after: Seq<OpenAIMessageView>,
)
    requires
        system.role == "system"@,
        other.role != "system"@,
    ensures
        conversation_of(before.push(system).push(other) + after) == conversation_of(
            before.push(other).push(system) + after,
        ),
{
    let a = before.push(system).push(other);
    let b = before.push(other).push(system);
    lemma_one_message_more(before, system);
    lemma_one_message_more(before, other);
    lemma_one_message_more(before.push(system), other);
    lemma_one_message_more(before.push(other), system);
    lemma_same_after(a, b, after);
}

/// A system message may move behind messages of other roles.
proof fn lemma_system_message_last(
    before: Seq<OpenAIMessageView>,
    system: OpenAIMessageView,
    others: Seq<OpenAIMessageView>,
)
    requires
        system.role == "system"@,
        forall|i: int| 0 <= i < others.len() ==> (#[trigger] others[i]).role != "system"@,
    ensures
        conversation_of(before.push(system) + others) == conversation_of(
            (before + others).push(system),
        ),
    decreases others.len(),
{
    if others.len() == 0 {
        assert(before.push(system) + others =~= (before + others).push(system));
    } else {
        let init = others.drop_last();
        let other = others[others.len() - 1];
        assert forall|i: int| 0 <= i < init.len() implies (#[trigger] init[i]).role
            != "system"@ by {
            assert(init[i] == others[i]);
        }
        lemma_system_message_last(before, system, init);
        lemma_one_message_more(before.push(system) + init, other);
        lemma_one_message_more((before + init).push(system), other);
        law_system_message_moves(before + init, system, other, Seq::empty());
        let moved = (before + init).push(other).push(system);
        assert((before + init).push(system).push(other) + Seq::empty() =~= (before + init).push(
            system,
        ).push(other));
        assert(moved + Seq::empty() =~= moved);
        assert(before.push(system) + others =~= (before.push(system) + init).push(other));
        assert((before + others).push(system) =~= moved);
    }
}

/// Whether a message is a system message.
pub open spec fn is_system() -> spec_fn(OpenAIMessageView) -> bool {
    |message: OpenAIMessageView| message.role == "system"@
}

/// Whether a message is another than a system message.
pub open spec fn is_no_system() -> spec_fn(OpenAIMessageView) -> bool {
    |message: OpenAIMessageView| message.role != "system"@
}

/// The system messages may as well all come first: where they stand among the
/// others makes no difference.
pub proof fn law_system_messages_first(messages: Seq<OpenAIMessageView>)
    ensures
        conversation_of(messages) == conversation_of(
            messages.filter(is_system()) + messages.filter(is_no_system()),
        ),
    decreases messages.len(),
{
    reveal(Seq::filter);
    if messages.len() == 0 {
        assert(messages.filter(is_system()) + messages.filter(is_no_system()) =~= messages);
    } else {
        let init = messages.drop_last();
        let last = messages[messages.len() - 1];
        law_system_messages_first(init);
        let systems = init.filter(is_system());
        let others = init.filter(is_no_system());
        lemma_one_message_more(systems + others, last);
        if last.role == "system"@ {
            assert forall|i: int| 0 <= i < others.len() implies (#[trigger] others[i]).role
                != "system"@ by {
                init.lemma_filter_pred(is_no_system(), i);
            }
            lemma_system_message_last(systems, last, others);
        } else {
            assert(systems + others.push(last) =~= (systems + others).push(last));
        }
    }
}

/// A tool choice that was mapped is mapped to itself: the mapping can be applied
/// again without harm.
pub proof fn law_tool_choice_settles(choice: Option<JsonView>)
    ensures
        tool_choice_of(choice) matches Ok(mapped) ==> tool_choice_of(mapped) == Ok::<
            Option<JsonView>,
            Seq<char>,
        >(mapped),
{
    reveal_strlit("type");
    reveal_strlit("name");
    reveal_strlit("function");
    reveal_strlit("auto");
    reveal_strlit("any");
    reveal_strlit("tool");
    assert("type"@[0] == 't' && "name"@[0] == 'n');
    assert("function"@.len() == 8 && "auto"@.len() == 4 && "any"@.len() == 3 && "tool"@.len() == 4);
}

/// An image that a data URL embeds is found again: its type and its data come back
/// as they were.
pub proof fn law_data_url(media_type: Seq<char>, data: Seq<char>)
    requires
        !media_type.contains(','),
        !ends_with(media_type, ";base64"@),
    ensures
        data_url_block("data:"@ + media_type + ";base64,"@ + data) == Some(
            image_block(media_type, data),
        ),
{
    let url = "data:"@ + media_type + ";base64,"@ + data;
    let tag = ";base64"@;
    let meta = media_type + tag;
    reveal_strlit(";base64");
    reveal_strlit(";base64,");
    assert(";base64,"@ =~= tag.push(','));
    assert(url.take("data:"@.len() as int) =~= "data:"@);
    let rest = url.skip("data:"@.len() as int);
    assert(rest =~= meta.push(',') + data);
    assert(rest[meta.len() as int] == ',');
    assert forall|i: int| 0 <= i < meta.len() implies rest[i] != ',' by {
        if i < media_type.len() {
            assert(rest[i] == media_type[i]);
            assert(media_type.contains(media_type[i]));
        } else {
            assert(rest[i] == tag[i - media_type.len()]);
        }
    }
    rest.index_of_first_ensures(',');
    assert(rest.contains(','));
    let comma = rest.index_of_first(',').unwrap();
    assert(comma == meta.len());
    assert(rest.take(comma) =~= meta);
    assert(rest.skip(comma + 1) =~= data);
    assert(meta.skip(meta.len() - tag.len()) =~= tag);
    assert(meta.take(meta.len() - tag.len()) =~= media_type);
    assert(trimmed_end(media_type, tag) == media_type);
}

/// The tool call that a client reads of a completion.
pub open spec fn call_read_of(value: JsonView) -> ToolCallView {
    ToolCallView {
        id: text_or(as_str(value.get("id"@)), ""@),
        call_type: text_or(as_str(value.get("type"@)), ""@),
        name: text_or(as_str(value.get2("function"@, "name"@)), ""@),
        arguments: text_or(as_str(value.get2("function"@, "arguments"@)), ""@),
    }
}

/// A tool call that a completion reports, sent back in a later request, becomes
/// the block that it was made from, where the input of the tool can be read back.
pub proof fn law_tool_call_comes_back(id: Seq<char>, name: Seq<char>, input: JsonView)
    requires
        reads_back(input),
    ensures
        tool_call(tool_use_block(id, name, input)) matches Some(value) && tool_call_block(
            call_read_of(value),
        ) == Some(tool_use_block(id, name, input)),
{
    reveal_strlit("type");
    reveal_strlit("id");
    reveal_strlit("name");
    reveal_strlit("input");
    reveal_strlit("function");
    reveal_strlit("arguments");
    assert("type"@.len() == 4 && "id"@.len() == 2 && "name"@.len() == 4 && "input"@.len() == 5
        && "function"@.len() == 8 && "arguments"@.len() == 9 && "type"@[0] == 't' && "name"@[0]
        == 'n');
    let block = tool_use_block(id, name, input);
    assert(block.get("type"@) == Some(JsonView::Str("tool_use"@)));
    assert(block.get("id"@) == Some(JsonView::Str(id)));
    assert(block.get("name"@) == Some(JsonView::Str(name)));
    assert(block.get("input"@) == Some(input));
}

/// The use of a tool.
pub struct ToolUseView {
    pub id: Seq<char>,
    pub name: Seq<char>,
    pub input: JsonView,
}

/// The blocks in which the assistant uses tools.
pub open spec fn tool_use_blocks(uses: Seq<ToolUseView>) -> Seq<JsonView> {
    uses.map_values(|used: ToolUseView| tool_use_block(used.id, used.name, used.input))
}

/// The blocks of a turn of the assistant: what it says, if anything, and the tools
/// that it then uses.
pub open spec fn turn_blocks(text: Seq<char>, uses: Seq<ToolUseView>) -> Seq<JsonView> {
    let spoken = if text.len() > 0 {
        seq![text_block(text)]
    } else {
        Seq::empty()
    };
    spoken + tool_use_blocks(uses)
}

/// The message that a client reads of a completion.
pub open spec fn message_read_of(value: JsonView) -> JsonView {
    match value.get("choices"@) {
        Some(JsonView::Array(choices)) => match choices[0].get("message"@) {
            Some(message) => message,
            None => JsonView::Null,
        },
        _ => JsonView::Null,
    }
}

/// The tool calls that a client reads of the message of a completion.
pub open spec fn calls_read_of(message: JsonView) -> Option<Seq<ToolCallView>> {
    match message.get("tool_calls"@) {
        Some(JsonView::Array(values)) => Some(
            values.map_values(|value: JsonView| call_read_of(value)),
        ),
        _ => None,
    }
}

/// The text of a turn, its tool calls, and what they become again.
proof fn lemma_turn(text: Seq<char>, uses: Seq<ToolUseView>)
    requires
        forall|i: int| 0 <= i < uses.len() ==> reads_back((#[trigger] uses[i]).input),
    ensures
        all_text(turn_blocks(text, uses)) == text,
        all_tool_calls(turn_blocks(text, uses)).len() == uses.len(),
        tool_call_blocks(
            all_tool_calls(turn_blocks(text, uses)).map_values(
                |value: JsonView| call_read_of(value),
            ),
        ) == tool_use_blocks(uses),
    decreases uses.len(),
{
    let said = |block: JsonView| spoken_text(block);
    let made = |block: JsonView| tool_call(block);
    let read = |value: JsonView| call_read_of(value);
    let back = |call: ToolCallView| tool_call_block(call);
    let blocks = turn_blocks(text, uses);
    reveal_strlit("type");
    reveal_strlit("text");
    reveal_strlit("tool_use");
    assert("type"@[1] == 'y' && "text"@[1] == 'e' && "text"@.len() == 4 && "tool_use"@.len() == 8);
    if uses.len() == 0 {
        assert(tool_use_blocks(uses) =~= Seq::empty());
        if text.len() > 0 {
            let block = text_block(text);
            assert(blocks =~= Seq::empty().push(block));
            assert(block.get("type"@) == Some(JsonView::Str("text"@)));
            assert(block.get("text"@) == Some(JsonView::Str(text)));
            lemma_present_push(Seq::<Option<Seq<char>>>::empty(), Some(text));
            lemma_present_push(Seq::<Option<JsonView>>::empty(), None);
            assert(blocks.map_values(said) =~= Seq::empty().push(Some(text)));
            assert(blocks.map_values(made) =~= Seq::empty().push(None));
            let parts = Seq::empty().push(text);
            assert(parts.drop_last() =~= Seq::empty());
            assert(concatenated(parts.drop_last()) == Seq::<char>::empty());
            assert(concatenated(parts) =~= text);
        } else {
            assert(blocks =~= Seq::empty());
            assert(blocks.map_values(said) =~= Seq::empty());
            assert(blocks.map_values(made) =~= Seq::empty());
            assert(text =~= Seq::empty());
        }
        let calls = all_tool_calls(blocks);
        assert(calls.len() == 0);
        assert(calls.map_values(read).map_values(back) =~= Seq::empty());
    } else {
        let init = uses.drop_last();
        let last = uses[uses.len() - 1];
        assert forall|i: int| 0 <= i < init.len() implies reads_back(
            (#[trigger] init[i]).input,
        ) by {
            assert(init[i] == uses[i]);
        }
        lemma_turn(text, init);
        let before = turn_blocks(text, init);
        let block = tool_use_block(last.id, last.name, last.input);
        law_tool_call_comes_back(last.id, last.name, last.input);
        let value = tool_call(block).unwrap();
        assert(block.get("type"@) == Some(JsonView::Str("tool_use"@)));
        assert(tool_use_blocks(uses) =~= tool_use_blocks(init).push(block));
        assert(blocks =~= before.push(block));
        lemma_present_push(before.map_values(said), None);
        lemma_present_push(before.map_values(made), Some(value));
        assert(blocks.map_values(said) =~= before.map_values(said).push(None));
        assert(blocks.map_values(made) =~= before.map_values(made).push(Some(value)));
        let calls = all_tool_calls(before).map_values(read);
        assert(all_tool_calls(blocks).map_values(read) =~= calls.push(call_read_of(value)));
        lemma_present_push(calls.map_values(back), Some(block));
        assert(calls.push(call_read_of(value)).map_values(back) =~= calls.map_values(back).push(
            Some(block),
        ));
    }
}

/// A turn of the assistant that a completion reports, sent back in a later request,
/// becomes the blocks that it was made from: what was said and then every use of a
/// tool, in order, where the inputs of the tools can be read back.
pub proof fn law_turn_comes_back(
    text: Seq<char>,
    uses: Seq<ToolUseView>,
    anthropic: JsonView,
    model: Seq<char>,
    id: JsonView,
    created: i64,
)
    requires
        message_blocks(anthropic) == turn_blocks(text, uses),
        forall|i: int| 0 <= i < uses.len() ==> reads_back((#[trigger] uses[i]).input),
    ensures
        ({
            let message = message_read_of(completion(anthropic, model, id, created));
            assistant_message_blocks(message.get("content"@), calls_read_of(message))
                == turn_blocks(text, uses)
        }),
{
    lemma_turn(text, uses);
    reveal_strlit("choices");
    reveal_strlit("usage");
    reveal_strlit("index");
    reveal_strlit("message");
    reveal_strlit("finish_reason");
    reveal_strlit("role");
    reveal_strlit("content");
    reveal_strlit("tool_calls");
    assert("choices"@.len() == 7 && "usage"@.len() == 5 && "index"@.len() == 5 && "message"@.len()
        == 7 && "finish_reason"@.len() == 13 && "role"@.len() == 4 && "content"@.len() == 7
        && "tool_calls"@.len() == 10);
    let message = completion_message(turn_blocks(text, uses));
    assert(message_read_of(completion(anthropic, model, id, created)) == message);
    if uses.len() == 0 {
        assert(tool_use_blocks(uses) =~= Seq::empty());
        assert(turn_blocks(text, uses) =~= assistant_message_blocks(
            message.get("content"@),
            None,
        ));
    }
}

} // verus!
