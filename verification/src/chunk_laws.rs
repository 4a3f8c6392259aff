//! What a client reads of the chunks of a completion, told from the events that
//! they answer.

use crate::json::JsonView;
use crate::reading::{field, first, has_only, holds, lemma_words, no_text_at, text_of};
use crate::response::concatenated;
use crate::serde_value::parsed_text;
use crate::stream::{
    block_of, chunk, ended, fed, is_given, mapper_wf, on_event, on_line, on_record, quiet,
    with_data, with_event, within_line, without_returns, MapperView, StepView, CARRIAGE_RETURN,
    LINE_FEED,
};
use crate::stream_laws::{keeps, law_pieces, lemma_event_wf, lemma_within_line};
use crate::text::{begins_with, joined, lossy_text, trimmed_start};
use vstd::prelude::*;

verus! {

/// The one choice of a chunk.
pub open spec fn told_choice(value: JsonView) -> JsonView {
    first(field(value, "choices"@))
}

/// The delta of a chunk.
pub open spec fn told_delta(value: JsonView) -> JsonView {
    field(told_choice(value), "delta"@)
}

/// The text that a chunk adds to the completion.
pub open spec fn told_text(value: JsonView) -> Seq<char> {
    text_of(field(told_delta(value), "content"@))
}

/// The tool call that a chunk starts or goes on with.
pub open spec fn told_call(value: JsonView) -> JsonView {
    first(field(told_delta(value), "tool_calls"@))
}

/// Whether a step puts out one chunk, complete in every field: it tells who the
/// mapper is, and it has one choice, which ends for the reason given.
pub open spec fn one_chunk(step: StepView, reason: JsonView) -> bool {
    let value = step.chunks[0];
    let choice = told_choice(value);
    &&& step.chunks.len() == 1
    &&& has_only(value, set!["id"@, "object"@, "created"@, "model"@, "choices"@])
    &&& holds(value, "id"@, JsonView::Str(step.state.chat_id))
    &&& holds(value, "object"@, JsonView::Str("chat.completion.chunk"@))
    &&& holds(value, "created"@, JsonView::Int(step.state.created as int))
    &&& holds(value, "model"@, JsonView::Str(step.state.model))
    &&& holds(value, "choices"@, JsonView::Array(seq![choice]))
    &&& has_only(choice, set!["index"@, "delta"@, "finish_reason"@])
    &&& holds(choice, "index"@, JsonView::Int(0))
    &&& holds(choice, "delta"@, told_delta(value))
    &&& holds(choice, "finish_reason"@, reason)
}

/// A chunk has all its fields.
proof fn lemma_one_chunk(step: StepView, delta: JsonView, reason: JsonView)
    requires
        step.chunks == seq![chunk(step.state, delta, reason)],
    ensures
        one_chunk(step, reason),
        told_delta(step.chunks[0]) == delta,
{
    lemma_words();
    let value = step.chunks[0];
    assert(value->Object_0.dom() =~= set!["id"@, "object"@, "created"@, "model"@, "choices"@]);
    let choice = told_choice(value);
    assert(choice->Object_0.dom() =~= set!["index"@, "delta"@, "finish_reason"@]);
}

/// A chunk tells who its mapper is, and carries the delta and the reason that it is
/// given, whatever they are.
pub proof fn law_chunk(st: MapperView, delta: JsonView, reason: JsonView)
    ensures
        ({
            let value = chunk(st, delta, reason);
            one_chunk(StepView { state: st, chunks: seq![value] }, reason) && told_delta(value)
                == delta
        }),
{
    lemma_one_chunk(StepView { state: st, chunks: seq![chunk(st, delta, reason)] }, delta, reason);
}

/// The start of a message opens the turn of the assistant: the chunk tells the role
/// and nothing else. The id of the message, where it has one, becomes the id of the
/// completion.
pub proof fn law_message_start(st: MapperView, data: JsonView)
    ensures
        ({
            let step = on_event(st, "message_start"@, data);
            &&& one_chunk(step, JsonView::Null)
            &&& has_only(told_delta(step.chunks[0]), set!["role"@])
            &&& holds(told_delta(step.chunks[0]), "role"@, JsonView::Str("assistant"@))
            &&& step.state == (MapperView { chat_id: step.state.chat_id, ..st })
            &&& no_text_at(field(data, "message"@), "id"@) ==> step.state.chat_id == st.chat_id
        }),
{
    lemma_words();
    let step = on_event(st, "message_start"@, data);
    let delta = JsonView::Object(map!["role"@ => JsonView::Str("assistant"@)]);
    lemma_one_chunk(step, delta, JsonView::Null);
    assert(delta->Object_0.dom() =~= set!["role"@]);
    let message = field(data, "message"@);
    if no_text_at(message, "id"@) {
        lemma_words();
        if let Some(JsonView::Str(id)) = data.get2("message"@, "id"@) {
            assert(holds(message, "id"@, JsonView::Str(id)));
        }
    }
}

/// Every text delta comes out as one chunk with exactly that text, character for
/// character, and changes nothing of the mapper.
pub proof fn law_text_delta(st: MapperView, data: JsonView, delta: JsonView, text: Seq<char>)
    requires
        holds(data, "delta"@, delta),
        holds(delta, "type"@, JsonView::Str("text_delta"@)),
        holds(delta, "text"@, JsonView::Str(text)),
    ensures
        ({
            let step = on_event(st, "content_block_delta"@, data);
            &&& one_chunk(step, JsonView::Null)
            &&& has_only(told_delta(step.chunks[0]), set!["content"@])
            &&& holds(told_delta(step.chunks[0]), "content"@, JsonView::Str(text))
            &&& step.state == st
        }),
{
    lemma_words();
    let step = on_event(st, "content_block_delta"@, data);
    let told = JsonView::Object(map!["content"@ => JsonView::Str(text)]);
    lemma_one_chunk(step, told, JsonView::Null);
    assert(told->Object_0.dom() =~= set!["content"@]);
}

/// Whether data are about this content block; data that name none are about the
/// block -1.
pub open spec fn about_block(data: JsonView, block: i64) -> bool {
    ||| holds(data, "index"@, JsonView::Int(block as int))
    ||| block == -1 && forall|i: i64| !#[trigger] holds(data, "index"@, JsonView::Int(i as int))
}

/// The block that data are about.
proof fn lemma_about_block(data: JsonView, block: i64)
    requires
        about_block(data, block),
    ensures
        block_of(data) == block,
{
    match data.get("index"@) {
        Some(JsonView::Int(i)) => {
            if i64::MIN <= i <= i64::MAX {
                assert(holds(data, "index"@, JsonView::Int((i as i64) as int)));
            }
        },
        _ => {},
    }
}

/// Whether a mapper differs from another only in the numbers of tool calls, where a
/// block has a number now: the one that it had, or else the next that is free.
pub open spec fn numbers_block(st: MapperView, after: MapperView, block: i64) -> bool {
    &&& after == (MapperView { tools: after.tools, ..st })
    &&& after.tools.dom() == st.tools.dom().insert(block)
    &&& after.tools[block] == (if st.tools.contains_key(block) {
        st.tools[block]
    } else {
        st.tools.dom().len()
    })
    &&& forall|other: i64| #[trigger]
        st.tools.contains_key(other) ==> after.tools[other] == st.tools[other]
}

/// The use of a tool starts a tool call: the chunk tells its number, the id and the
/// name of the tool as they are, and no arguments yet.
pub proof fn law_tool_start(
    st: MapperView,
    data: JsonView,
    used: JsonView,
    block: i64,
    id: Seq<char>,
    name: Seq<char>,
)
    requires
        about_block(data, block),
        holds(data, "content_block"@, used),
        holds(used, "type"@, JsonView::Str("tool_use"@)),
        holds(used, "id"@, JsonView::Str(id)) || (no_text_at(used, "id"@) && id.len() == 0),
        holds(used, "name"@, JsonView::Str(name)) || (no_text_at(used, "name"@) && name.len() == 0),
    ensures
        ({
            let step = on_event(st, "content_block_start"@, data);
            let delta = told_delta(step.chunks[0]);
            let call = told_call(step.chunks[0]);
            let function = field(call, "function"@);
            &&& numbers_block(st, step.state, block)
            &&& one_chunk(step, JsonView::Null)
            &&& has_only(delta, set!["tool_calls"@])
            &&& holds(delta, "tool_calls"@, JsonView::Array(seq![call]))
            &&& has_only(call, set!["index"@, "id"@, "type"@, "function"@])
            &&& holds(call, "index"@, JsonView::Int(step.state.tools[block] as int))
            &&& holds(call, "id"@, JsonView::Str(id))
            &&& holds(call, "type"@, JsonView::Str("function"@))
            &&& has_only(function, set!["name"@, "arguments"@])
            &&& holds(function, "name"@, JsonView::Str(name))
            &&& holds(function, "arguments"@, JsonView::Str(Seq::empty()))
        }),
{
    lemma_words();
    reveal_strlit("");
    assert(""@ =~= Seq::<char>::empty());
    lemma_about_block(data, block);
    if let Some(JsonView::Str(s)) = used.get("id"@) {
        assert(holds(used, "id"@, JsonView::Str(s)));
    } else {
        assert(id =~= Seq::empty());
    }
    if let Some(JsonView::Str(s)) = used.get("name"@) {
        assert(holds(used, "name"@, JsonView::Str(s)));
    } else {
        assert(name =~= Seq::empty());
    }
    let step = on_event(st, "content_block_start"@, data);
    assert(step.chunks.len() == 1);
    lemma_some_chunk(step);
    let delta = told_delta(step.chunks[0]);
    assert(delta->Object_0.dom() =~= set!["tool_calls"@]);
    let call = told_call(step.chunks[0]);
    assert(call->Object_0.dom() =~= set!["index"@, "id"@, "type"@, "function"@]);
    let function = field(call, "function"@);
    assert(function->Object_0.dom() =~= set!["name"@, "arguments"@]);
    assert(step.state.tools.dom() =~= st.tools.dom().insert(block));
}

/// A step with one chunk that does not end the completion.
proof fn lemma_some_chunk(step: StepView)
    requires
        exists|delta: JsonView| step.chunks == seq![chunk(step.state, delta, JsonView::Null)],
    ensures
        one_chunk(step, JsonView::Null),
        step.chunks == seq![chunk(step.state, told_delta(step.chunks[0]), JsonView::Null)],
{
    let delta = choose|delta: JsonView|
        step.chunks == seq![chunk(step.state, delta, JsonView::Null)];
    lemma_one_chunk(step, delta, JsonView::Null);
}

/// More input for a tool goes on with its tool call: the chunk tells the number of
/// the call and the piece of the arguments as it is.
pub proof fn law_tool_arguments(
    st: MapperView,
    data: JsonView,
    delta: JsonView,
    block: i64,
    piece: Seq<char>,
)
    requires
        about_block(data, block),
        holds(data, "delta"@, delta),
        holds(delta, "type"@, JsonView::Str("input_json_delta"@)),
        holds(delta, "partial_json"@, JsonView::Str(piece)) || (no_text_at(delta, "partial_json"@)
            && piece.len() == 0),
    ensures
        ({
            let step = on_event(st, "content_block_delta"@, data);
            let told = told_delta(step.chunks[0]);
            let call = told_call(step.chunks[0]);
            let function = field(call, "function"@);
            &&& numbers_block(st, step.state, block)
            &&& one_chunk(step, JsonView::Null)
            &&& has_only(told, set!["tool_calls"@])
            &&& holds(told, "tool_calls"@, JsonView::Array(seq![call]))
            &&& has_only(call, set!["index"@, "function"@])
            &&& holds(call, "index"@, JsonView::Int(step.state.tools[block] as int))
            &&& has_only(function, set!["arguments"@])
            &&& holds(function, "arguments"@, JsonView::Str(piece))
        }),
{
    lemma_words();
    reveal_strlit("");
    lemma_about_block(data, block);
    if let Some(JsonView::Str(s)) = delta.get("partial_json"@) {
        assert(holds(delta, "partial_json"@, JsonView::Str(s)));
    } else {
        assert(piece =~= ""@);
    }
    let step = on_event(st, "content_block_delta"@, data);
    assert(step.chunks.len() == 1);
    lemma_some_chunk(step);
    let told = told_delta(step.chunks[0]);
    assert(told->Object_0.dom() =~= set!["tool_calls"@]);
    let call = told_call(step.chunks[0]);
    assert(call->Object_0.dom() =~= set!["index"@, "function"@]);
    let function = field(call, "function"@);
    assert(function->Object_0.dom() =~= set!["arguments"@]);
    assert(step.state.tools.dom() =~= st.tools.dom().insert(block));
}

/// The end of a message ends the completion: the chunk adds nothing, and tells the
/// reason in the words of the other protocol.
pub proof fn law_message_end(st: MapperView, data: JsonView, reason: Seq<char>)
    requires
        holds(field(data, "delta"@), "stop_reason"@, JsonView::Str(reason)) || (no_text_at(
            field(data, "delta"@),
            "stop_reason"@,
        ) && reason == "end_turn"@),
    ensures
        ({
            let step = on_event(st, "message_delta"@, data);
            let told = if reason == "tool_use"@ {
                "tool_calls"@
            } else if reason == "max_tokens"@ || reason == "model_context_window_exceeded"@ {
                "length"@
            } else {
                "stop"@
            };
            &&& one_chunk(step, JsonView::Str(told))
            &&& has_only(told_delta(step.chunks[0]), Set::empty())
            &&& step.state == st
        }),
{
    lemma_words();
    let delta = field(data, "delta"@);
    if let Some(JsonView::Str(s)) = data.get2("delta"@, "stop_reason"@) {
        assert(holds(delta, "stop_reason"@, JsonView::Str(s)));
    }
    let step = on_event(st, "message_delta"@, data);
    let value = step.chunks[0];
    let end = field(told_choice(value), "finish_reason"@);
    lemma_one_chunk(step, JsonView::Object(Map::empty()), end);
}

/// Anything else is passed over: events of other names, blocks that use no tool,
/// deltas of other types, and text deltas without a text.
pub proof fn law_other_events(st: MapperView, event: Seq<char>, data: JsonView)
    requires
        ({
            let kind = field(field(data, "content_block"@), "type"@);
            let delta = field(data, "delta"@);
            let more = field(delta, "type"@);
            ||| event != "message_start"@ && event != "content_block_start"@ && event
                != "content_block_delta"@ && event != "message_delta"@
            ||| event == "content_block_start"@ && kind != JsonView::Str("tool_use"@)
            ||| event == "content_block_delta"@ && more != JsonView::Str("text_delta"@) && more
                != JsonView::Str("input_json_delta"@)
            ||| event == "content_block_delta"@ && more == JsonView::Str("text_delta"@)
                && no_text_at(delta, "text"@)
        }),
    ensures
        on_event(st, event, data).chunks.len() == 0,
        on_event(st, event, data).state == st,
{
    lemma_words();
    let delta = field(data, "delta"@);
    if let Some(JsonView::Str(s)) = data.get2("delta"@, "text"@) {
        assert(holds(delta, "text"@, JsonView::Str(s)));
    }
}

/// A record of an event stream: the value of its event field and those of its data
/// fields, as bytes.
pub struct RecordView {
    pub event: Seq<u8>,
    pub data: Seq<Seq<u8>>,
}

/// The line of an event field, without its end.
pub open spec fn event_line(value: Seq<u8>) -> Seq<u8> {
    seq![101u8, 118u8, 101u8, 110u8, 116u8, 58u8] + value
}

/// The line of a data field, without its end.
pub open spec fn data_line(value: Seq<u8>) -> Seq<u8> {
    seq![100u8, 97u8, 116u8, 97u8, 58u8] + value
}

/// The lines of data fields.
pub open spec fn data_lines(values: Seq<Seq<u8>>) -> Seq<u8>
    decreases values.len(),
{
    if values.len() == 0 {
        Seq::empty()
    } else {
        data_lines(values.drop_last()) + data_line(values.last()).push(LINE_FEED)
    }
}

/// The bytes of a record: its lines, and a blank one.
pub open spec fn record_bytes(record: RecordView) -> Seq<u8> {
    event_line(record.event).push(LINE_FEED) + data_lines(record.data) + seq![LINE_FEED]
}

/// The bytes of records, one after the other.
pub open spec fn records_bytes(records: Seq<RecordView>) -> Seq<u8>
    decreases records.len(),
{
    if records.len() == 0 {
        Seq::empty()
    } else {
        records_bytes(records.drop_last()) + record_bytes(records.last())
    }
}

/// Whether bytes can stand as the value of a field.
pub open spec fn is_value(bytes: Seq<u8>) -> bool {
    within_line(bytes) && (bytes.len() > 0 ==> bytes.last() != CARRIAGE_RETURN)
}

/// Whether all the bytes of a record can stand as values of its fields.
pub open spec fn is_record(record: RecordView) -> bool {
    is_value(record.event) && forall|i: int|
        0 <= i < record.data.len() ==> is_value(#[trigger] record.data[i])
}

/// Whether a mapper is between two records.
pub open spec fn between_records(st: MapperView) -> bool {
    st.line.len() == 0 && st.event is None && st.data.len() == 0
}

/// The text of the value of a field, without the white space before it.
pub open spec fn value_text(bytes: Seq<u8>) -> Seq<char> {
    trimmed_start(lossy_text(bytes))
}

/// The texts of the values of fields.
pub open spec fn value_texts(values: Seq<Seq<u8>>) -> Seq<Seq<char>> {
    values.map_values(|value: Seq<u8>| value_text(value))
}

/// The event and the data that a record brings. A ping, the end marker, and data
/// that are empty or no JSON bring nothing.
pub open spec fn heard(record: RecordView) -> Option<(Seq<char>, JsonView)> {
    let event = value_text(record.event);
    let raw = joined(value_texts(record.data), "\n"@);
    if event == "ping"@ || raw.len() == 0 || raw == "[DONE]"@ {
        None
    } else {
        match parsed_text(raw) {
            Some(data) => Some((event, data)),
            None => None,
        }
    }
}

/// A line with its end.
proof fn lemma_line(st: MapperView, line: Seq<u8>)
    requires
        st.line.len() == 0,
        is_value(line),
    ensures
        fed(st, line.push(LINE_FEED)) == on_line(st, line),
{
    lemma_within_line(st, line);
    assert(st.line + line =~= line);
    assert(line.push(LINE_FEED).drop_last() =~= line);
    assert(MapperView { line: Seq::empty(), ..st } =~= st);
    let step = on_line(st, line);
    assert(Seq::<JsonView>::empty() + step.chunks =~= step.chunks);
}

/// The line of an event field sets the event.
proof fn lemma_event_line(st: MapperView, value: Seq<u8>)
    requires
        st.line.len() == 0,
        is_value(value),
    ensures
        fed(st, event_line(value).push(LINE_FEED)) == quiet(
            MapperView { event: Some(value_text(value)), ..st },
        ),
{
    let line = event_line(value);
    reveal_strlit("event:");
    assert(begins_with(line, "event:"@));
    assert(line.skip(6) =~= value);
    assert(is_value(line));
    lemma_line(st, line);
}

/// The line of a data field adds to the data.
proof fn lemma_data_line(st: MapperView, value: Seq<u8>)
    requires
        st.line.len() == 0,
        is_value(value),
    ensures
        fed(st, data_line(value).push(LINE_FEED)) == quiet(
            MapperView { data: st.data.push(value_text(value)), ..st },
        ),
{
    let line = data_line(value);
    reveal_strlit("event:");
    reveal_strlit("data:");
    assert(begins_with(line, "data:"@));
    assert(line[0] as char != "event:"@[0]);
    assert(line.skip(5) =~= value);
    assert(is_value(line));
    lemma_line(st, line);
}

/// The lines of data fields add to the data, in order.
proof fn lemma_data_lines(st: MapperView, values: Seq<Seq<u8>>)
    requires
        st.line.len() == 0,
        forall|i: int| 0 <= i < values.len() ==> is_value(#[trigger] values[i]),
    ensures
        fed(st, data_lines(values)) == quiet(
            MapperView { data: st.data + value_texts(values), ..st },
        ),
    decreases values.len(),
{
    if values.len() == 0 {
        assert(st.data + value_texts(values) =~= st.data);
    } else {
        let init = values.drop_last();
        let last = values[values.len() - 1];
        assert forall|i: int| 0 <= i < init.len() implies is_value(#[trigger] init[i]) by {
            assert(init[i] == values[i]);
        }
        lemma_data_lines(st, init);
        let read = MapperView { data: st.data + value_texts(init), ..st };
        lemma_data_line(read, last);
        law_pieces(st, data_lines(init), data_line(last).push(LINE_FEED));
        assert((st.data + value_texts(init)).push(value_text(last)) =~= st.data + value_texts(
            values,
        ));
        assert(fed(st, data_lines(values)).chunks =~= Seq::empty());
    }
}

/// A record leads to what its event with its data leads to, and leaves the mapper
/// ready for the next: its data lines are put together with line breaks between
/// them, and only the white space before a value is left out.
pub proof fn law_record(st: MapperView, record: RecordView)
    requires
        between_records(st),
        is_record(record),
    ensures
        fed(st, record_bytes(record)) == (match heard(record) {
            Some((event, data)) => on_event(st, event, data),
            None => quiet(st),
        }),
        between_records(fed(st, record_bytes(record)).state),
{
    let named = MapperView { event: Some(value_text(record.event)), ..st };
    lemma_event_line(st, record.event);
    lemma_data_lines(named, record.data);
    let read = MapperView { data: named.data + value_texts(record.data), ..named };
    assert(read.data =~= value_texts(record.data));
    lemma_line(read, Seq::empty());
    assert(Seq::<u8>::empty().push(LINE_FEED) =~= seq![LINE_FEED]);
    let lines = event_line(record.event).push(LINE_FEED);
    law_pieces(st, lines, data_lines(record.data));
    law_pieces(st, lines + data_lines(record.data), seq![LINE_FEED]);
    let all = fed(st, record_bytes(record));
    let step = on_record(read);
    assert(MapperView { event: None, data: Seq::empty(), ..read } =~= st);
    assert(all.chunks =~= step.chunks);
}

/// The fields of a record may stand in either order.
pub proof fn law_fields_in_any_order(st: MapperView, event: Seq<u8>, data: Seq<u8>)
    requires
        between_records(st),
        is_value(event),
        is_value(data),
    ensures
        fed(st, data_line(data).push(LINE_FEED) + event_line(event).push(LINE_FEED)) == fed(
            st,
            event_line(event).push(LINE_FEED) + data_line(data).push(LINE_FEED),
        ),
{
    let a = event_line(event).push(LINE_FEED);
    let b = data_line(data).push(LINE_FEED);
    lemma_event_line(st, event);
    lemma_data_line(fed(st, a).state, data);
    lemma_data_line(st, data);
    lemma_event_line(fed(st, b).state, event);
    law_pieces(st, a, b);
    law_pieces(st, b, a);
}

/// A value that is read sets the event, or adds to the data, without the white space
/// before it, and changes nothing else. At the end of a record its event and its data
/// are forgotten, and they lead to what an event with those data leads to, or to
/// nothing.
pub proof fn law_values_and_record_end(st: MapperView, value: Seq<char>)
    ensures
        with_event(st, value) == (MapperView { event: Some(trimmed_start(value)), ..st }),
        with_data(st, value) == (MapperView { data: st.data.push(trimmed_start(value)), ..st }),
        ({
            let ready = MapperView { event: None, data: Seq::empty(), ..st };
            let raw = joined(st.data, "\n"@);
            let data = parsed_text(raw);
            if st.event is Some && st.event != Some("ping"@) && raw.len() > 0 && raw != "[DONE]"@
                && data is Some {
                on_record(st) == on_event(ready, st.event->0, data->0)
            } else {
                on_record(st).chunks.len() == 0 && on_record(st).state == ready
            }
        }),
{
}

/// Of a field that stands twice in a record, the last event counts, and the data of
/// both are kept, in order.
pub proof fn law_fields_again(st: MapperView, a: Seq<u8>, b: Seq<u8>)
    requires
        st.line.len() == 0,
        is_value(a),
        is_value(b),
    ensures
        fed(st, event_line(a).push(LINE_FEED) + event_line(b).push(LINE_FEED)) == fed(
            st,
            event_line(b).push(LINE_FEED),
        ),
        fed(st, data_line(a).push(LINE_FEED) + data_line(b).push(LINE_FEED)).state.data
            == st.data.push(value_text(a)).push(value_text(b)),
{
    lemma_event_line(st, a);
    lemma_event_line(st, b);
    lemma_event_line(fed(st, event_line(a).push(LINE_FEED)).state, b);
    law_pieces(st, event_line(a).push(LINE_FEED), event_line(b).push(LINE_FEED));
    lemma_data_line(st, a);
    lemma_data_line(fed(st, data_line(a).push(LINE_FEED)).state, b);
    law_pieces(st, data_line(a).push(LINE_FEED), data_line(b).push(LINE_FEED));
}

/// Data without an event lead to nothing.
pub proof fn law_data_without_event(st: MapperView, values: Seq<Seq<u8>>)
    requires
        between_records(st),
        forall|i: int| 0 <= i < values.len() ==> is_value(#[trigger] values[i]),
    ensures
        fed(st, data_lines(values) + seq![LINE_FEED]) == quiet(st),
{
    lemma_data_lines(st, values);
    let read = MapperView { data: st.data + value_texts(values), ..st };
    lemma_line(read, Seq::empty());
    assert(Seq::<u8>::empty().push(LINE_FEED) =~= seq![LINE_FEED]);
    law_pieces(st, data_lines(values), seq![LINE_FEED]);
    assert(MapperView { event: None, data: Seq::empty(), ..read } =~= st);
    assert(fed(st, data_lines(values) + seq![LINE_FEED]).chunks =~= Seq::empty());
}

/// At the end of a line, one carriage return is left out and no more; at the end of
/// the input, all are.
pub proof fn law_carriage_returns(st: MapperView, value: Seq<u8>)
    requires
        st.line.len() == 0,
        within_line(value),
    ensures
        fed(st, event_line(value) + seq![CARRIAGE_RETURN, LINE_FEED]) == quiet(
            MapperView { event: Some(value_text(value)), ..st },
        ),
        fed(st, data_line(value) + seq![CARRIAGE_RETURN, LINE_FEED]) == quiet(
            MapperView { data: st.data.push(value_text(value)), ..st },
        ),
        ended(MapperView { line: value.push(CARRIAGE_RETURN), ..st }) == ended(
            MapperView { line: value, ..st },
        ),
{
    reveal_strlit("event:");
    reveal_strlit("data:");
    let a = event_line(value);
    assert(begins_with(a, "event:"@));
    assert(a.skip(6) =~= value);
    lemma_returned_line(st, a);
    let b = data_line(value);
    assert(begins_with(b, "data:"@));
    assert(b[0] as char != "event:"@[0]);
    assert(b.skip(5) =~= value);
    lemma_returned_line(st, b);
    let longer = value.push(CARRIAGE_RETURN);
    assert(longer.drop_last() =~= value);
    assert(without_returns(longer) == without_returns(value));
    if value.len() == 0 {
        let st = MapperView { line: value, ..st };
        assert(without_returns(value) =~= Seq::empty());
        assert(MapperView { line: Seq::empty(), ..st } =~= st);
    }
}

/// A line with CRLF at its end.
proof fn lemma_returned_line(st: MapperView, line: Seq<u8>)
    requires
        st.line.len() == 0,
        within_line(line),
    ensures
        fed(st, line + seq![CARRIAGE_RETURN, LINE_FEED]) == on_line(st, line),
{
    let returned = line.push(CARRIAGE_RETURN);
    lemma_within_line(st, returned);
    assert(st.line + returned =~= returned);
    assert((line + seq![CARRIAGE_RETURN, LINE_FEED]).drop_last() =~= returned);
    assert(returned.drop_last() =~= line);
    assert(MapperView { line: Seq::empty(), ..st } =~= st);
    let step = on_line(st, line);
    assert(Seq::<JsonView>::empty() + step.chunks =~= step.chunks);
}

/// The text that a record brings: that of its text delta, if it has one.
pub open spec fn text_in(record: RecordView) -> Seq<char> {
    match heard(record) {
        Some((event, data)) => {
            let delta = field(data, "delta"@);
            if event == "content_block_delta"@ && field(delta, "type"@) == JsonView::Str(
                "text_delta"@,
            ) {
                text_of(field(delta, "text"@))
            } else {
                Seq::empty()
            }
        },
        None => Seq::empty(),
    }
}

/// The text that a client reads of chunks.
pub open spec fn texts_told(chunks: Seq<JsonView>) -> Seq<char> {
    concatenated(chunks.map_values(|value: JsonView| told_text(value)))
}

/// One chunk more adds its text.
proof fn lemma_texts_told_add(a: Seq<JsonView>, b: Seq<JsonView>)
    ensures
        b.len() == 0 ==> texts_told(a + b) == texts_told(a),
        b.len() == 1 ==> texts_told(a + b) == texts_told(a) + told_text(b[0]),
{
    let f = |value: JsonView| told_text(value);
    if b.len() == 0 {
        assert(a + b =~= a);
    } else if b.len() == 1 {
        assert((a + b).map_values(f) =~= a.map_values(f).push(told_text(b[0])));
        assert(a.map_values(f).push(told_text(b[0])).drop_last() =~= a.map_values(f));
    }
}

/// The text that an event brings is the text of its chunk.
proof fn lemma_event_text(st: MapperView, record: RecordView)
    requires
        heard(record) is Some,
    ensures
        ({
            let (event, data) = heard(record)->0;
            let chunks = on_event(st, event, data).chunks;
            &&& chunks.len() <= 1
            &&& chunks.len() == 0 ==> text_in(record).len() == 0
            &&& chunks.len() == 1 ==> told_text(chunks[0]) == text_in(record)
        }),
{
    lemma_words();
    let (event, data) = heard(record)->0;
    let step = on_event(st, event, data);
    let delta = field(data, "delta"@);
    let used = field(data, "content_block"@);
    let block = block_of(data);
    lemma_block_of(data);
    if event == "message_start"@ {
        law_message_start(st, data);
        assert(!told_delta(step.chunks[0])->Object_0.contains_key("content"@));
    } else if event == "message_delta"@ {
        let reason = some_text(delta, "stop_reason"@, "end_turn"@);
        law_message_end(st, data, reason);
        assert(!told_delta(step.chunks[0])->Object_0.contains_key("content"@));
    } else if event == "content_block_start"@ && field(used, "type"@) == JsonView::Str(
        "tool_use"@,
    ) {
        let id = some_text(used, "id"@, Seq::empty());
        let name = some_text(used, "name"@, Seq::empty());
        law_tool_start(st, data, used, block, id, name);
        assert(!told_delta(step.chunks[0])->Object_0.contains_key("content"@));
    } else if event == "content_block_delta"@ && field(delta, "type"@) == JsonView::Str(
        "text_delta"@,
    ) && delta->Object_0.contains_key("text"@) && delta->Object_0["text"@] is Str {
        law_text_delta(st, data, delta, text_of(field(delta, "text"@)));
    } else if event == "content_block_delta"@ && field(delta, "type"@) == JsonView::Str(
        "input_json_delta"@,
    ) {
        let piece = some_text(delta, "partial_json"@, Seq::empty());
        law_tool_arguments(st, data, delta, block, piece);
        assert(!told_delta(step.chunks[0])->Object_0.contains_key("content"@));
    } else {
        law_other_events(st, event, data);
    }
}

/// The text of a field, or another where it has none.
spec fn some_text(value: JsonView, key: Seq<char>, other: Seq<char>) -> Seq<char> {
    match field(value, key) {
        JsonView::Str(text) => text,
        _ => other,
    }
}

/// Data are about their block, and about no other.
proof fn lemma_block_of(data: JsonView)
    ensures
        forall|block: i64| #[trigger] about_block(data, block) <==> block == block_of(data),
{
    let own = block_of(data);
    assert(about_block(data, own)) by {
        if exists|i: i64| #[trigger] holds(data, "index"@, JsonView::Int(i as int)) {
            let i = choose|i: i64| #[trigger] holds(data, "index"@, JsonView::Int(i as int));
            assert(own == i);
        }
    }
    assert forall|block: i64| #[trigger] about_block(data, block) implies block == own by {
        lemma_about_block(data, block);
    }
}

/// What a client reads of a stream, put together, is the texts of its text deltas,
/// put together: no character is lost, added or changed.
pub proof fn law_streamed_text(st: MapperView, records: Seq<RecordView>)
    requires
        between_records(st),
        forall|i: int| 0 <= i < records.len() ==> is_record(#[trigger] records[i]),
    ensures
        texts_told(fed(st, records_bytes(records)).chunks) == concatenated(
            records.map_values(|record: RecordView| text_in(record)),
        ),
        between_records(fed(st, records_bytes(records)).state),
    decreases records.len(),
{
    let f = |record: RecordView| text_in(record);
    if records.len() == 0 {
        assert(fed(st, records_bytes(records)).chunks.map_values(
            |value: JsonView| told_text(value),
        ) =~= Seq::empty());
        assert(records.map_values(f) =~= Seq::empty());
    } else {
        let init = records.drop_last();
        let last = records[records.len() - 1];
        assert forall|i: int| 0 <= i < init.len() implies is_record(#[trigger] init[i]) by {
            assert(init[i] == records[i]);
        }
        law_streamed_text(st, init);
        let before = fed(st, records_bytes(init));
        law_pieces(st, records_bytes(init), record_bytes(last));
        law_record(before.state, last);
        let more = fed(before.state, record_bytes(last)).chunks;
        if heard(last) is Some {
            lemma_event_text(before.state, last);
        }
        lemma_texts_told_add(before.chunks, more);
        assert(records.map_values(f).drop_last() =~= init.map_values(f));
        assert(texts_told(before.chunks + more) =~= texts_told(before.chunks) + text_in(last));
    }
}

/// The arguments that a chunk brings for the tool call of a number.
pub open spec fn told_arguments(value: JsonView, number: nat) -> Seq<char> {
    let call = told_call(value);
    if field(call, "index"@) == JsonView::Int(number as int) {
        text_of(field(field(call, "function"@), "arguments"@))
    } else {
        Seq::empty()
    }
}

/// The arguments that a client reads of chunks for the tool call of a number.
pub open spec fn arguments_told(chunks: Seq<JsonView>, number: nat) -> Seq<char> {
    concatenated(chunks.map_values(|value: JsonView| told_arguments(value, number)))
}

/// The piece of the input of a tool that a record brings for a content block.
pub open spec fn piece_in(record: RecordView, block: i64) -> Seq<char> {
    match heard(record) {
        Some((event, data)) => {
            let delta = field(data, "delta"@);
            if event == "content_block_delta"@ && field(delta, "type"@) == JsonView::Str(
                "input_json_delta"@,
            ) && about_block(data, block) {
                text_of(field(delta, "partial_json"@))
            } else {
                Seq::empty()
            }
        },
        None => Seq::empty(),
    }
}

/// The pieces of the input of a tool that records bring for a content block.
pub open spec fn pieces_in(records: Seq<RecordView>, block: i64) -> Seq<char> {
    concatenated(records.map_values(|record: RecordView| piece_in(record, block)))
}

/// One chunk more adds its arguments.
proof fn lemma_arguments_told_add(a: Seq<JsonView>, b: Seq<JsonView>, number: nat)
    ensures
        b.len() == 0 ==> arguments_told(a + b, number) == arguments_told(a, number),
        b.len() == 1 ==> arguments_told(a + b, number) == arguments_told(a, number)
            + told_arguments(b[0], number),
{
    let f = |value: JsonView| told_arguments(value, number);
    if b.len() == 0 {
        assert(a + b =~= a);
    } else if b.len() == 1 {
        assert((a + b).map_values(f) =~= a.map_values(f).push(told_arguments(b[0], number)));
        assert(a.map_values(f).push(told_arguments(b[0], number)).drop_last() =~= a.map_values(f));
    }
}

/// The piece of input that an event brings is the arguments of its chunk.
proof fn lemma_event_arguments(st: MapperView, record: RecordView, number: nat)
    requires
        heard(record) is Some,
    ensures
        ({
            let (event, data) = heard(record)->0;
            let step = on_event(st, event, data);
            let block = block_of(data);
            &&& step.chunks.len() <= 1
            &&& step.chunks.len() == 0 ==> piece_in(record, block).len() == 0
            &&& piece_in(record, block).len() > 0 ==> step.state.tools.contains_key(block)
            &&& step.chunks.len() == 1 ==> told_arguments(step.chunks[0], number) == (
            if step.state.tools.contains_key(block) && step.state.tools[block] == number {
                piece_in(record, block)
            } else {
                Seq::empty()
            })
        }),
{
    lemma_words();
    let (event, data) = heard(record)->0;
    let step = on_event(st, event, data);
    let delta = field(data, "delta"@);
    let used = field(data, "content_block"@);
    let block = block_of(data);
    lemma_block_of(data);
    if event == "message_start"@ {
        law_message_start(st, data);
        assert(!told_delta(step.chunks[0])->Object_0.contains_key("tool_calls"@));
    } else if event == "message_delta"@ {
        let reason = some_text(delta, "stop_reason"@, "end_turn"@);
        law_message_end(st, data, reason);
        assert(!told_delta(step.chunks[0])->Object_0.contains_key("tool_calls"@));
    } else if event == "content_block_start"@ && field(used, "type"@) == JsonView::Str(
        "tool_use"@,
    ) {
        let id = some_text(used, "id"@, Seq::empty());
        let name = some_text(used, "name"@, Seq::empty());
        law_tool_start(st, data, used, block, id, name);
    } else if event == "content_block_delta"@ && field(delta, "type"@) == JsonView::Str(
        "text_delta"@,
    ) && delta->Object_0.contains_key("text"@) && delta->Object_0["text"@] is Str {
        law_text_delta(st, data, delta, text_of(field(delta, "text"@)));
        assert(!told_delta(step.chunks[0])->Object_0.contains_key("tool_calls"@));
    } else if event == "content_block_delta"@ && field(delta, "type"@) == JsonView::Str(
        "input_json_delta"@,
    ) {
        let piece = some_text(delta, "partial_json"@, Seq::empty());
        law_tool_arguments(st, data, delta, block, piece);
        assert(piece =~= piece_in(record, block));
    } else {
        law_other_events(st, event, data);
    }
}

/// What a client reads for the tool calls of a stream, after some records.
proof fn lemma_streamed_arguments(
    st: MapperView,
    records: Seq<RecordView>,
    block: i64,
    number: nat,
)
    requires
        between_records(st),
        mapper_wf(st),
        forall|i: int| 0 <= i < records.len() ==> is_record(#[trigger] records[i]),
    ensures
        ({
            let end = fed(st, records_bytes(records));
            &&& between_records(end.state)
            &&& mapper_wf(end.state)
            &&& end.state.tools.contains_key(block) && end.state.tools[block] == number
                ==> arguments_told(end.chunks, number) == pieces_in(records, block)
            &&& !end.state.tools.contains_key(block) ==> pieces_in(records, block).len() == 0
            &&& !is_given(end.state.tools, number) ==> arguments_told(end.chunks, number).len()
                == 0
        }),
    decreases records.len(),
{
    let f = |record: RecordView| piece_in(record, block);
    let end = fed(st, records_bytes(records));
    if records.len() == 0 {
        assert(end.chunks.map_values(|value: JsonView| told_arguments(value, number))
            =~= Seq::empty());
        assert(records.map_values(f) =~= Seq::empty());
    } else {
        let init = records.drop_last();
        let last = records[records.len() - 1];
        assert forall|i: int| 0 <= i < init.len() implies is_record(#[trigger] init[i]) by {
            assert(init[i] == records[i]);
        }
        lemma_streamed_arguments(st, init, block, number);
        let before = fed(st, records_bytes(init));
        let older = before.state.tools;
        let newer = end.state.tools;
        law_pieces(st, records_bytes(init), record_bytes(last));
        law_record(before.state, last);
        let more = fed(before.state, record_bytes(last)).chunks;
        lemma_arguments_told_add(before.chunks, more, number);
        assert(records.map_values(f).drop_last() =~= init.map_values(f));
        assert(pieces_in(records, block) == pieces_in(init, block) + piece_in(last, block));
        if heard(last) is Some {
            let (event, data) = heard(last)->0;
            lemma_event_arguments(before.state, last, number);
            lemma_event_wf(before.state, event, data);
            lemma_event_keeps(before.state, event, data);
            lemma_block_of(data);
            if is_given(older, number) {
                let k = choose|k: i64| #[trigger] older.contains_key(k) && older[k] == number;
                assert(newer.contains_key(k));
            }
            if newer.contains_key(block) && newer[block] == number && !older.contains_key(block) {
                assert(!is_given(older, number)) by {
                    if is_given(older, number) {
                        let k = choose|k: i64| #[trigger] older.contains_key(k) && older[k]
                            == number;
                        assert(newer.contains_key(k) && newer[k] == number);
                    }
                }
            }
        }
        assert(arguments_told(before.chunks, number) + Seq::empty() =~= arguments_told(
            before.chunks,
            number,
        ));
        assert(pieces_in(init, block) + Seq::empty() =~= pieces_in(init, block));
        assert(end.state.tools.contains_key(block) && end.state.tools[block] == number
            ==> arguments_told(end.chunks, number) =~= pieces_in(records, block));
    }
}

/// An event changes no number that a tool call was given.
proof fn lemma_event_keeps(st: MapperView, event: Seq<char>, data: JsonView)
    requires
        mapper_wf(st),
    ensures
        keeps(st.tools, on_event(st, event, data).state.tools),
        forall|k: i64| #[trigger]
            on_event(st, event, data).state.tools.contains_key(k) ==> st.tools.contains_key(k) || k
                == block_of(data),
{
}

/// What a client reads as the arguments of a tool call, put together, is the pieces
/// of the input of its content block, put together: the calls of different blocks
/// are kept apart, and no character is lost, added or changed.
pub proof fn law_streamed_arguments(st: MapperView, records: Seq<RecordView>, block: i64)
    requires
        between_records(st),
        mapper_wf(st),
        forall|i: int| 0 <= i < records.len() ==> is_record(#[trigger] records[i]),
        fed(st, records_bytes(records)).state.tools.contains_key(block),
    ensures
        arguments_told(
            fed(st, records_bytes(records)).chunks,
            fed(st, records_bytes(records)).state.tools[block],
        ) == pieces_in(records, block),
{
    lemma_streamed_arguments(
        st,
        records,
        block,
        fed(st, records_bytes(records)).state.tools[block],
    );
}

} // verus!
