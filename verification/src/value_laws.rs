//! Laws of the values and texts of which everything else is made, and of the answers
//! of the endpoint.

use crate::content::{data_url_block, lemma_present_push, OpenAIToolCall};
use crate::gateway::{
    acceptance, bad_gateway, bad_request, is_answer, received, relay_start, route_of, turned,
    unparsed_reply, unread_reply, AcceptedRequest, ErrorReply, RelayView, Route, Turn, TurnView,
    Upstream, UpstreamView, MAX_BODY_SIZE,
};
use crate::identity::chat_id_of;
use crate::json::{array_view, as_i64, as_str, object_view, Json, JsonView};
use crate::notices::{
    content_notices, conversation_notices, part_notice, request_notices, Notice,
    NoticeView,
};
use crate::reading::{field, holds, lacks, lemma_words};
use crate::request::{
    conversation_of, converted, Message, MessagesRequest, OpenAIChatRequest, OpenAIChatRequestView,
    OpenAIFunctionDefinition, OpenAIMessage, OpenAIMessageView, OpenAIToolDefinition, Tool,
};
use crate::response::{completion, concatenated, is_completion_id};
use crate::serde_value::printed;
use crate::stream::{
    data_events, done_event, ended, fed, initial, stream_body, MapperView,
};
use crate::text::{
    begins_with, ends_with, is_white_space, joined, other_than, starts_with, texts, trimmed_end,
    trimmed_start, without,
};
use crate::turn_laws::limit_set;
use vstd::prelude::*;

verus! {

/// To look up a field finds what it holds, and nothing where there is no such field,
/// also where fields lie one in the other.
pub proof fn law_lookup(value: JsonView, outer: Seq<char>, inner: Seq<char>)
    ensures
        forall|held: JsonView| #[trigger]
            holds(value, outer, held) <==> value.get(outer) == Some(held),
        lacks(value, outer) <==> value.get(outer) is None,
        forall|held: JsonView| #[trigger]
            holds(field(value, outer), inner, held) <==> value.get2(outer, inner) == Some(held),
{
    if let Some(held) = value.get(outer) {
        assert(holds(value, outer, held));
    }
}

/// A text is read from a string and from nothing else, and an integer from an
/// integer that fits and from nothing else.
pub proof fn law_reads(value: JsonView, text: Seq<char>, i: i64)
    ensures
        as_str(None) is None,
        as_i64(None) is None,
        as_str(Some(value)) == Some(text) <==> value == JsonView::Str(text),
        as_i64(Some(value)) == Some(i) <==> value == JsonView::Int(i as int),
        value !is Str ==> as_str(Some(value)) is None,
        value is Int && !(i64::MIN <= value->Int_0 <= i64::MAX) ==> as_i64(Some(value)) is None,
        value !is Int ==> as_i64(Some(value)) is None,
{
}

/// A value stands for what it is built of, item by item and field by field; a field
/// that is set again holds what it was set to last.
pub proof fn law_json_view(j: Json, items: Seq<Json>, fields: Seq<(String, Json)>, key: String)
    ensures
        j is Null ==> j@ is Null,
        j is Bool ==> j@ == JsonView::Bool(j->Bool_0),
        j is Int ==> j@ == JsonView::Int(j->Int_0 as int),
        j is UInt ==> j@ == JsonView::Int(j->UInt_0 as int),
        j is Str ==> j@ == JsonView::Str(j->Str_0@),
        j is Array ==> j@ == JsonView::Array(array_view(j->Array_0@)),
        j is Object ==> j@ == JsonView::Object(object_view(j->Object_0@)),
        array_view(items).len() == items.len(),
        forall|i: int| 0 <= i < items.len() ==> #[trigger] array_view(items)[i] == items[i]@,
        object_view(Seq::empty()).dom() == Set::<Seq<char>>::empty(),
        object_view(fields.push((key, j))).dom() == object_view(fields).dom().insert(key@),
        object_view(fields.push((key, j)))[key@] == j@,
        forall|other: Seq<char>|
            other != key@ ==> #[trigger] object_view(fields.push((key, j)))[other] == object_view(
                fields,
            )[other],
{
    assert(fields.push((key, j)).drop_last() =~= fields);
    assert(object_view(fields.push((key, j))).dom() =~= object_view(fields).dom().insert(key@));
}

/// What a chat request says is what its fields hold, message by message and call by
/// call, in their order.
pub proof fn law_chat_request_view(
    request: OpenAIChatRequest,
    message: OpenAIMessage,
    call: OpenAIToolCall,
)
    ensures
        request@.model == request.model@,
        request@.stream == request.stream,
        request@.max_tokens == request.max_tokens,
        request@.max_completion_tokens == request.max_completion_tokens,
        request@.messages.len() == request.messages@.len(),
        forall|i: int|
            0 <= i < request.messages@.len() ==> #[trigger] request@.messages[i]
                == request.messages@[i]@,
        request.tool_choice is Some ==> request@.tool_choice == Some(request.tool_choice->0@),
        request.tool_choice is None ==> request@.tool_choice is None,
        message@.role == message.role@,
        message.content is Some ==> message@.content == Some(message.content->0@),
        message.content is None ==> message@.content is None,
        message.tool_call_id is Some ==> message@.tool_call_id == Some(message.tool_call_id->0@),
        message.tool_call_id is None ==> message@.tool_call_id is None,
        message.tool_calls is None ==> message@.tool_calls is None,
        message.tool_calls is Some ==> {
            let calls = message.tool_calls->0@;
            &&& message@.tool_calls is Some
            &&& message@.tool_calls->0.len() == calls.len()
            &&& forall|i: int|
                0 <= i < calls.len() ==> #[trigger] message@.tool_calls->0[i] == calls[i]@
        },
        call@.id == call.id@,
        call@.call_type == call.call_type@,
        call@.name == call.function.name@,
        call@.arguments == call.function.arguments@,
{
}

/// What the tools that a chat request offers say is what their fields hold, in their
/// order.
pub proof fn law_tool_definition_view(
    request: OpenAIChatRequest,
    definition: OpenAIToolDefinition,
    function: OpenAIFunctionDefinition,
)
    ensures
        request.tools is None ==> request@.tools is None,
        request.tools is Some ==> {
            let tools = request.tools->0@;
            &&& request@.tools is Some
            &&& request@.tools->0.len() == tools.len()
            &&& forall|i: int| 0 <= i < tools.len() ==> #[trigger] request@.tools->0[i] == tools[i]@
        },
        definition@.tool_type == definition.tool_type@,
        definition.function is Some ==> definition@.function == Some(definition.function->0@),
        definition.function is None ==> definition@.function is None,
        function@.name == function.name@,
        function.description is Some ==> function@.description == Some(function.description->0@),
        function.description is None ==> function@.description is None,
        function.parameters is Some ==> function@.parameters == Some(function.parameters->0@),
        function.parameters is None ==> function@.parameters is None,
{
}

/// What a messages request says is what its fields hold, in their order.
pub proof fn law_messages_request_view(request: MessagesRequest, message: Message, tool: Tool)
    ensures
        request@.model == request.model@,
        request@.max_tokens == request.max_tokens,
        request@.stream == request.stream,
        request@.messages.len() == request.messages@.len(),
        forall|i: int|
            0 <= i < request.messages@.len() ==> #[trigger] request@.messages[i]
                == request.messages@[i]@,
        request.system is None ==> request@.system is None,
        request.system is Some ==> {
            let system = request.system->0@;
            &&& request@.system is Some
            &&& request@.system->0.len() == system.len()
            &&& forall|i: int|
                0 <= i < system.len() ==> #[trigger] request@.system->0[i] == system[i].text@
        },
        request.tools is None ==> request@.tools is None,
        request.tools is Some ==> {
            let tools = request.tools->0@;
            &&& request@.tools is Some
            &&& request@.tools->0.len() == tools.len()
            &&& forall|i: int| 0 <= i < tools.len() ==> #[trigger] request@.tools->0[i] == tools[i]@
        },
        request.tool_choice is Some ==> request@.tool_choice == Some(request.tool_choice->0@),
        request.tool_choice is None ==> request@.tool_choice is None,
        request@.thinking is None <==> request.thinking is None,
        request@.output_config is None <==> request.output_config is None,
        request@.metadata is None <==> request.metadata is None,
        message@.role == message.role@,
        message@.content == message.content@,
        tool@.name == tool.name@,
        tool@.description == tool.description@,
        tool@.input_schema == object_view(tool.input_schema@),
        tool@.tool_type is None <==> tool.tool_type is None,
        tool@.max_uses == tool.max_uses,
{
}

/// A text without the white space before it is the rest of that text, from the first
/// character on that is no white space.
pub proof fn law_trimmed_start(s: Seq<char>)
    ensures
        exists|n: int|
            0 <= n <= s.len() && trimmed_start(s) == #[trigger] s.skip(n) && (forall|i: int|
                0 <= i < n ==> is_white_space(#[trigger] s[i])) && (n < s.len()
                ==> !is_white_space(s[n])),
    decreases s.len(),
{
    if s.len() > 0 && is_white_space(s[0]) {
        law_trimmed_start(s.skip(1));
        let rest = s.skip(1);
        let n = choose|n: int|
            0 <= n <= rest.len() && trimmed_start(rest) == #[trigger] rest.skip(n) && (forall|i: int|
                0 <= i < n ==> is_white_space(#[trigger] rest[i])) && (n < rest.len()
                ==> !is_white_space(rest[n]));
        assert(s.skip(n + 1) =~= rest.skip(n));
        assert forall|i: int| 0 <= i < n + 1 implies is_white_space(#[trigger] s[i]) by {
            if i > 0 {
                assert(s[i] == rest[i - 1]);
            }
        }
        if n < rest.len() {
            assert(s[n + 1] == rest[n]);
        }
    } else {
        assert(s.skip(0) =~= s);
    }
}

/// What a text or bytes start or end with is found there, character by character; all
/// copies at the end of a text are left out, and nothing else.
pub proof fn law_starts_and_ends(s: Seq<char>, part: Seq<char>, bytes: Seq<u8>)
    ensures
        starts_with(part + s, part),
        ends_with(s + part, part),
        starts_with(s, part) ==> s == part + s.skip(part.len() as int),
        ends_with(s, part) ==> s == s.take(s.len() - part.len()) + part,
        part.len() > 0 ==> trimmed_end(s + part, part) == trimmed_end(s, part),
        part.len() > 0 && !ends_with(s, part) ==> trimmed_end(s, part) == s,
        begins_with(bytes, part) <==> (part.len() <= bytes.len() && forall|i: int|
            0 <= i < part.len() ==> #[trigger] bytes[i] as char == part[i]),
{
    assert((part + s).take(part.len() as int) =~= part);
    let long = s + part;
    assert(long.skip(long.len() - part.len()) =~= part);
    assert(long.take(long.len() - part.len()) =~= s);
    if starts_with(s, part) {
        assert(s =~= s.take(part.len() as int) + s.skip(part.len() as int));
    }
    if ends_with(s, part) {
        let n = s.len() - part.len();
        assert(s =~= s.take(n) + s.skip(n));
    }
    if begins_with(bytes, part) {
        assert forall|i: int| 0 <= i < part.len() implies #[trigger] bytes[i] as char
            == part[i] by {
            assert(bytes[i] as char == part[i]);
        }
    }
}

/// One text more is put at the end, after the separator unless it is the first.
pub proof fn law_joined(parts: Seq<Seq<char>>, part: Seq<char>, separator: Seq<char>)
    ensures
        joined(Seq::empty(), separator).len() == 0,
        joined(parts.push(part), separator) == if parts.len() == 0 {
            part
        } else {
            joined(parts, separator) + separator + part
        },
        concatenated(Seq::empty()).len() == 0,
        concatenated(parts.push(part)) == concatenated(parts) + part,
{
    assert(parts.push(part).drop_last() =~= parts);
}

/// Texts are what the strings hold, in their order.
pub proof fn law_texts(strings: Seq<String>)
    ensures
        texts(strings).len() == strings.len(),
        forall|i: int| 0 <= i < strings.len() ==> #[trigger] texts(strings)[i] == strings[i]@,
{
}

/// An id of a completion is its prefix and the id that it was made from. Hyphens make
/// no difference, wherever they stand.
pub proof fn law_chat_id(a: Seq<char>, b: Seq<char>)
    ensures
        chat_id_of(a.push('-') + b) == chat_id_of(a + b),
        !a.contains('-') ==> chat_id_of(a) == "chatcmpl_"@ + a,
{
    let f = other_than('-');
    Seq::filter_distributes_over_add(a.push('-'), b, f);
    Seq::filter_distributes_over_add(a, b, f);
    assert(a.push('-').filter(f) =~= a.filter(f)) by {
        reveal(Seq::filter);
        assert(a.push('-').drop_last() =~= a);
    }
    if !a.contains('-') {
        lemma_nothing_left_out(a);
    }
}

/// Where there is no hyphen, nothing is left out.
proof fn lemma_nothing_left_out(s: Seq<char>)
    requires
        !s.contains('-'),
    ensures
        without(s, '-') == s,
    decreases s.len(),
{
    reveal(Seq::filter);
    if s.len() > 0 {
        let init = s.drop_last();
        assert(!init.contains('-')) by {
            if init.contains('-') {
                let i = choose|i: int| 0 <= i < init.len() && init[i] == '-';
                assert(s[i] == '-');
            }
        }
        assert(s.contains(s[s.len() - 1]));
        lemma_nothing_left_out(init);
        assert(init.push(s.last()) =~= s);
    }
}

/// Each chunk is sent as one event: `data: `, its JSON text, and a blank line, in the
/// order of the chunks. The whole answer is those events, of the input and of its
/// end, and then the end marker.
pub proof fn law_frames(chunks: Seq<JsonView>, st: MapperView, bytes: Seq<u8>)
    ensures
        data_events(chunks).len() == chunks.len(),
        forall|i: int|
            0 <= i < chunks.len() ==> #[trigger] data_events(chunks)[i] == "data: "@ + printed(
                chunks[i],
            ) + "\n\n"@,
        done_event() == "data: [DONE]\n\n"@,
        stream_body(st, bytes) == concatenated(
            data_events(fed(st, bytes).chunks) + data_events(ended(fed(st, bytes).state).chunks),
        ) + "data: [DONE]\n\n"@,
{
    let read = fed(st, bytes);
    assert(data_events(read.chunks + ended(read.state).chunks) =~= data_events(read.chunks)
        + data_events(ended(read.state).chunks));
}

/// A mapper that has read nothing has in mind what it was made with, and nothing
/// else.
pub proof fn law_initial(model: Seq<char>, created: i64, chat_id: Seq<char>)
    ensures
        ({
            let st = initial(model, created, chat_id);
            &&& st.model == model
            &&& st.created == created
            &&& st.chat_id == chat_id
            &&& st.tools.dom() == Set::<i64>::empty()
            &&& st.event is None
            &&& st.data.len() == 0
            &&& st.line.len() == 0
        }),
{
}

/// A relay sends what its mapper puts out for what comes in, behind what waits to be
/// sent already, and ends with the end marker once the body is over or broken off.
pub proof fn law_relay(relay: RelayView, bytes: Seq<u8>)
    ensures
        relay_start(relay.mapper).queue.len() == 0,
        !relay_start(relay.mapper).done,
        relay_start(relay.mapper).mapper == relay.mapper,
        ({
            let after = received(relay, UpstreamView::Bytes(bytes));
            &&& after.mapper == fed(relay.mapper, bytes).state
            &&& after.queue == relay.queue + data_events(fed(relay.mapper, bytes).chunks)
            &&& after.done == relay.done
        }),
        ({
            let after = received(relay, UpstreamView::Failed);
            &&& after.mapper == relay.mapper
            &&& after.queue == relay.queue.push("data: [DONE]\n\n"@)
            &&& after.done
        }),
        ({
            let after = received(relay, UpstreamView::Ended);
            &&& after.mapper == ended(relay.mapper).state
            &&& after.queue == (relay.queue + data_events(ended(relay.mapper).chunks)).push(
                "data: [DONE]\n\n"@,
            )
            &&& after.done
        }),
{
}

/// A relay sends the event that has waited longest and keeps the others in order. With
/// nothing to send it waits, or stops once the body is over, and stays as it is.
pub proof fn law_turns(relay: RelayView, event: Seq<char>, rest: Seq<Seq<char>>, turn: Turn)
    ensures
        relay.queue == seq![event] + rest ==> turned(relay) == (
            TurnView::Send(event),
            RelayView { mapper: relay.mapper, queue: rest, done: relay.done },
        ),
        relay.queue.len() == 0 && relay.done ==> turned(relay) == (TurnView::Stop, relay),
        relay.queue.len() == 0 && !relay.done ==> turned(relay) == (TurnView::Wait, relay),
        turn is Send <==> turn@ is Send,
        turn is Wait <==> turn@ is Wait,
        turn is Send ==> turn@->Send_0 == turn->Send_0@,
{
    if relay.queue == seq![event] + rest {
        assert(relay.queue.skip(1) =~= rest);
    }
}

/// A request that is accepted is asked for as it was converted, and its answer will
/// need what it asked for: whether to stream, and the model. One that is refused is
/// answered with the reason.
pub proof fn law_acceptance(request: OpenAIChatRequestView, accepted: AcceptedRequest)
    ensures
        match converted(request) {
            Ok(asked) => acceptance(request) matches Ok(made) && made.request == asked
                && made.stream == request.stream && made.model == request.model,
            Err(reason) => acceptance(request) matches Err(reply) && reply.status == 400
                && reply.error_type == "invalid_request_error"@ && reply.message == reason,
        },
        accepted@.request == accepted.request@,
        accepted@.stream == accepted.stream,
        accepted@.model == accepted.model@,
{
}

/// Where the body of a message cannot be read or denotes no value, the answer says
/// which of the two it is, and why.
pub proof fn law_failures(error: Seq<char>)
    ensures
        unread_reply(error).status == 502,
        unread_reply(error).error_type == "api_error"@,
        unread_reply(error).message == "读取响应失败: "@ + error,
        unparsed_reply(error).status == 502,
        unparsed_reply(error).error_type == "api_error"@,
        unparsed_reply(error).message == "响应 JSON 解析失败: "@ + error,
{
}

/// What comes of a body is told apart, and bytes are told as they are.
pub proof fn law_upstream_view(upstream: Upstream)
    ensures
        upstream is Bytes <==> upstream@ is Bytes,
        upstream is Failed <==> upstream@ is Failed,
        upstream is Ended <==> upstream@ is Ended,
        upstream is Bytes ==> upstream@->Bytes_0 == upstream->Bytes_0@,
{
}

/// Only an answer that tells of success is mapped, in the way in which it was asked
/// for; every other is handed on as it is.
pub proof fn law_routes(status: u16, stream: bool)
    ensures
        status < 200 || status > 299 <==> route_of(status, stream) == Route::PassOn,
        200 <= status <= 299 && stream <==> route_of(status, stream) == Route::Stream,
        200 <= status <= 299 && !stream <==> route_of(status, stream) == Route::Collect,
{
}

/// A refused request and a failing service are answered with their status and kind,
/// and with the message as it is.
pub proof fn law_error_replies(message: Seq<char>, reply: ErrorReply)
    ensures
        bad_request(message).status == 400,
        bad_request(message).error_type == "invalid_request_error"@,
        bad_request(message).message == message,
        bad_gateway(message).status == 502,
        bad_gateway(message).error_type == "api_error"@,
        bad_gateway(message).message == message,
        reply@.status == reply.status,
        reply@.error_type == reply.error_type@,
        reply@.message == reply.message@,
        MAX_BODY_SIZE == 52428800,
{
}

/// The answer for a message is its completion, under the id of the message where it
/// has one.
pub proof fn law_answer(anthropic: JsonView, model: Seq<char>, answer: JsonView)
    requires
        is_answer(anthropic, model, answer),
    ensures
        exists|id: JsonView, created: i64|
            is_completion_id(anthropic, id) && answer == #[trigger] completion(
                anthropic,
                model,
                id,
                created,
            ),
        forall|own: JsonView| #[trigger]
            holds(anthropic, "id"@, own) ==> holds(answer, "id"@, own),
{
    lemma_words();
}

/// One part more of a user's content is noticed if and only if it is an image whose
/// URL embeds none, and then by that URL.
pub proof fn law_one_part_notice(parts: Seq<JsonView>, part: JsonView)
    ensures
        content_notices(None).len() == 0,
        content_notices(Some(JsonView::Array(Seq::empty()))).len() == 0,
        part !is Array ==> content_notices(Some(part)).len() == 0,
        ({
            let before = content_notices(Some(JsonView::Array(parts)));
            let after = content_notices(Some(JsonView::Array(parts.push(part))));
            let url = field(field(part, "image_url"@), "url"@);
            if field(part, "type"@) == JsonView::Str("image_url"@) && url is Str && data_url_block(
                url->Str_0,
            ) is None {
                after == before.push(NoticeView::UnreadImage(url->Str_0))
            } else {
                after == before
            }
        }),
{
    let f = |part: JsonView| part_notice(part);
    assert(Seq::<JsonView>::empty().map_values(f) =~= Seq::empty());
    assert(parts.push(part).map_values(f) =~= parts.map_values(f).push(f(part)));
    lemma_present_push(parts.map_values(f), f(part));
}

/// One message more is noticed if it is in an unknown role, by that role, and a user's
/// message by its images that are not read; others are not. After a message that is
/// refused nothing is noticed, and nothing at all where the token limit is refused.
pub proof fn law_one_message_notice(
    messages: Seq<OpenAIMessageView>,
    message: OpenAIMessageView,
    request: OpenAIChatRequestView,
)
    ensures
        conversation_notices(Seq::empty()).len() == 0,
        ({
            let before = conversation_notices(messages);
            let after = conversation_notices(messages.push(message));
            let role = message.role;
            if conversation_of(messages) is Err {
                after == before
            } else if role == "user"@ {
                after == before + content_notices(message.content)
            } else if role == "system"@ || role == "tool"@ || role == "assistant"@ {
                after == before
            } else {
                after == before.push(NoticeView::UnknownRole(role))
            }
        }),
        request_notices(request) == if limit_set(request) <= 0 {
            Seq::empty()
        } else {
            conversation_notices(request.messages)
        },
{
    assert(messages.push(message).drop_last() =~= messages);
    let before = conversation_notices(messages);
    assert(before + Seq::empty() =~= before);
    assert(before + seq![NoticeView::UnknownRole(message.role)] =~= before.push(
        NoticeView::UnknownRole(message.role),
    ));
}

/// A notice says what it is about.
pub proof fn law_notice_view(notice: Notice)
    ensures
        notice is UnknownRole ==> notice@ == NoticeView::UnknownRole(notice->UnknownRole_0@),
        notice is UnreadImage ==> notice@ == NoticeView::UnreadImage(notice->UnreadImage_0@),
{
}

} // verus!
