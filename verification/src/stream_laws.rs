//! Laws of the stream mapper and of the relay around it.

use crate::gateway::{ends_in_done, received, relay_start, RelayView, UpstreamView};
use crate::identity::chat_id_of;
use crate::json::{as_str, no_fields, JsonView};
use crate::response::{completion, concatenated};
use crate::serde_value::{in_braces, parsed_text, single_line};
use crate::stream::{
    all_chunk_events, block_of, chunk, data_events, dense, done_event, done_once, ended, fed,
    framed, initial, is_chunk_event, is_given, last_line_read, lemma_data_events_add, mapper_wf,
    numbered, on_byte, on_event, on_field, on_line, on_message_delta, on_record, quiet,
    stream_body, within_line, without_return, without_returns, MapperView, StepView,
    CARRIAGE_RETURN, LINE_FEED,
};
use crate::text::{begins_with, ends_with, joined, stands_at};
use vstd::prelude::*;

verus! {

/// Two steps, one after the other.
pub open spec fn then_step(first: StepView, second: StepView) -> StepView {
    StepView { state: second.state, chunks: first.chunks + second.chunks }
}

/// How the input is divided into pieces makes no difference: to read two pieces is
/// to read them as one.
pub proof fn law_pieces(st: MapperView, a: Seq<u8>, b: Seq<u8>)
    ensures
        fed(st, a + b) == then_step(fed(st, a), fed(fed(st, a).state, b)),
    decreases b.len(),
{
    if b.len() == 0 {
        assert(a + b =~= a);
        assert(fed(st, a).chunks + Seq::empty() =~= fed(st, a).chunks);
    } else {
        law_pieces(st, a, b.drop_last());
        assert((a + b).drop_last() =~= a + b.drop_last());
        assert(fed(st, a + b).chunks =~= then_step(fed(st, a), fed(fed(st, a).state, b)).chunks);
    }
}

/// Bytes within a line are kept, and nothing else comes of them.
pub(crate) proof fn lemma_within_line(st: MapperView, bytes: Seq<u8>)
    requires
        within_line(bytes),
    ensures
        fed(st, bytes) == quiet(MapperView { line: st.line + bytes, ..st }),
    decreases bytes.len(),
{
    if bytes.len() == 0 {
        assert(st.line + bytes =~= st.line);
    } else {
        lemma_within_line(st, bytes.drop_last());
        assert((st.line + bytes.drop_last()).push(bytes.last()) =~= st.line + bytes);
        assert(fed(st, bytes).chunks =~= Seq::empty());
    }
}

/// An event leaves alone what a mapper has in mind of the record and of the line.
proof fn lemma_event_frame(st: MapperView, event: Seq<char>, data: JsonView)
    ensures
        on_event(st, event, data).state.event == st.event,
        on_event(st, event, data).state.data == st.data,
        on_event(st, event, data).state.line == st.line,
{
}

/// The end of a record forgets the record and leaves the line alone.
proof fn lemma_record_frame(st: MapperView)
    ensures
        on_record(st).state.event is None,
        on_record(st).state.data.len() == 0,
        on_record(st).state.line == st.line,
{
}

/// What follows the last end of a line.
pub open spec fn open_line(bytes: Seq<u8>) -> Seq<u8>
    decreases bytes.len(),
{
    if bytes.len() == 0 || bytes.last() == LINE_FEED {
        Seq::empty()
    } else {
        open_line(bytes.drop_last()).push(bytes.last())
    }
}

/// How many lines end that hold nothing, but for a carriage return.
pub open spec fn blank_lines(bytes: Seq<u8>) -> nat
    decreases bytes.len(),
{
    if bytes.len() == 0 {
        0
    } else {
        let before = bytes.drop_last();
        let blank = bytes.last() == LINE_FEED && without_return(open_line(before)).len() == 0;
        blank_lines(before) + if blank {
            1nat
        } else {
            0
        }
    }
}

/// Within a line, all of it is open.
proof fn lemma_open_line(bytes: Seq<u8>)
    requires
        within_line(bytes),
    ensures
        open_line(bytes) == bytes,
    decreases bytes.len(),
{
    if bytes.len() > 0 {
        lemma_open_line(bytes.drop_last());
    }
}

/// After any input, the line that is held is what follows the last end of a line,
/// and no more chunks came than blank lines ended. Where no line ended, nothing
/// came, and nothing but the line has changed.
pub proof fn law_line_held(st: MapperView, bytes: Seq<u8>)
    requires
        within_line(st.line),
    ensures
        fed(st, bytes).state.line == open_line(st.line + bytes),
        fed(st, bytes).chunks.len() <= blank_lines(st.line + bytes),
        within_line(bytes) ==> fed(st, bytes) == quiet(
            MapperView { line: st.line + bytes, ..st },
        ),
    decreases bytes.len(),
{
    let all = st.line + bytes;
    if bytes.len() == 0 {
        assert(all =~= st.line);
        lemma_open_line(all);
    } else {
        let before = bytes.drop_last();
        law_line_held(st, before);
        assert(all.drop_last() =~= st.line + before);
        let cleared = MapperView { line: Seq::empty(), ..fed(st, before).state };
        lemma_record_frame(cleared);
        lemma_record_identity(cleared);
    }
    if within_line(bytes) {
        lemma_within_line(st, bytes);
    }
}

/// Input with a carriage return before each end of a line.
pub open spec fn with_returns(bytes: Seq<u8>) -> Seq<u8>
    decreases bytes.len(),
{
    if bytes.len() == 0 {
        Seq::empty()
    } else {
        with_returns(bytes.drop_last()) + if bytes.last() == LINE_FEED {
            seq![CARRIAGE_RETURN, LINE_FEED]
        } else {
            seq![bytes.last()]
        }
    }
}

/// Whether no carriage return stands before the end of a line.
pub open spec fn ends_plainly(bytes: Seq<u8>) -> bool {
    forall|i: int, j: int|
        0 <= i && j == i + 1 && j < bytes.len() && #[trigger] bytes[j] == LINE_FEED
            ==> #[trigger] bytes[i] != CARRIAGE_RETURN
}

/// Input with CRLF at the ends of its lines leads to the same as with LF, wherever
/// in a line it starts and stops.
pub proof fn law_line_ends(st: MapperView, bytes: Seq<u8>)
    requires
        within_line(st.line),
        ends_plainly(st.line + bytes),
    ensures
        fed(st, with_returns(bytes)) == fed(st, bytes),
    decreases bytes.len(),
{
    if bytes.len() > 0 {
        let before = bytes.drop_last();
        let all = st.line + bytes;
        let most = st.line + before;
        assert(all.drop_last() =~= most);
        assert forall|i: int, j: int|
            0 <= i && j == i + 1 && j < most.len() && #[trigger] most[j]
                == LINE_FEED implies #[trigger] most[i] != CARRIAGE_RETURN by {
            assert(all[j] == most[j] && all[i] == most[i]);
        }
        law_line_ends(st, before);
        let returned = with_returns(bytes);
        let read = fed(st, before).state;
        if bytes.last() == LINE_FEED {
            law_line_held(st, before);
            if read.line.len() > 0 {
                let n = all.len() as int;
                assert(all[n - 1] == LINE_FEED);
                assert(all[n - 2] == most.last());
            }
            let once = with_returns(before).push(CARRIAGE_RETURN);
            assert(returned.drop_last() =~= once);
            assert(once.drop_last() =~= with_returns(before));
            assert(read.line.push(CARRIAGE_RETURN).drop_last() =~= read.line);
            assert(fed(st, once).chunks =~= fed(st, before).chunks);
        } else {
            assert(returned.drop_last() =~= with_returns(before));
        }
    }
}

/// Whether bytes are a line, without its end, that is a comment or a field of
/// another name than those that are read.
pub open spec fn says_nothing(line: Seq<u8>) -> bool {
    &&& within_line(line)
    &&& line.len() > 0
    &&& line != seq![CARRIAGE_RETURN]
    &&& line[0] as char == ':' || !(begins_with(line, "event:"@) || begins_with(line, "data:"@))
}

/// Comments and fields of other names make no difference, wherever they stand.
pub proof fn law_comments_ignored(st: MapperView, a: Seq<u8>, line: Seq<u8>, b: Seq<u8>)
    requires
        st.line.len() == 0,
        a.len() > 0 ==> a.last() == LINE_FEED,
        says_nothing(line),
    ensures
        fed(st, a + line + seq![LINE_FEED] + b) == fed(st, a + b),
{
    let read = fed(st, a).state;
    assert(read.line.len() == 0) by {
        if a.len() > 0 {
            lemma_record_frame(
                MapperView { line: Seq::empty(), ..fed(st, a.drop_last()).state },
            );
        }
    }
    let ended_line = line.push(LINE_FEED);
    assert(fed(read, ended_line) == quiet(read)) by {
        lemma_within_line(read, line);
        assert(ended_line.drop_last() =~= line);
        assert(read.line + line =~= line);
        reveal_strlit("event:");
        reveal_strlit("data:");
        assert("event:"@[0] == 'e' && "data:"@[0] == 'd');
        let bare = without_return(line);
        assert(begins_with(bare, "event:"@) ==> begins_with(line, "event:"@));
        assert(begins_with(bare, "data:"@) ==> begins_with(line, "data:"@));
        assert(line[0] as char == ':' ==> !begins_with(line, "event:"@) && !begins_with(
            line,
            "data:"@,
        )) by {
            if begins_with(line, "event:"@) {
                assert(line[0] as char == "event:"@[0]);
            }
            if begins_with(line, "data:"@) {
                assert(line[0] as char == "data:"@[0]);
            }
        }
        if bare.len() == 0 {
            assert(line =~= seq![CARRIAGE_RETURN]);
        }
        assert(MapperView { line: Seq::empty(), ..read } =~= read);
        assert(fed(read, ended_line).chunks =~= Seq::empty());
    }
    law_pieces(st, a, ended_line);
    law_pieces(st, a + ended_line, b);
    law_pieces(st, a, b);
    assert(a + line + seq![LINE_FEED] + b =~= a + ended_line + b);
    assert(fed(st, a).chunks + Seq::empty() =~= fed(st, a).chunks);
}

/// The end of the input leads to the same as two ends of lines, unless the line
/// that is held ends in more than one carriage return.
pub proof fn law_end_is_two_line_ends(st: MapperView)
    requires
        !(st.line.len() >= 2 && st.line.last() == CARRIAGE_RETURN && st.line.drop_last().last()
            == CARRIAGE_RETURN),
    ensures
        ended(st) == fed(st, seq![LINE_FEED, LINE_FEED]),
{
    let cleared = MapperView { line: Seq::empty(), ..st };
    let line = without_return(st.line);
    let once = seq![LINE_FEED];
    let twice = seq![LINE_FEED, LINE_FEED];
    assert(without_returns(st.line) == line) by {
        reveal_with_fuel(without_returns, 3);
    }
    assert(once.drop_last() =~= Seq::empty());
    assert(twice.drop_last() =~= once);
    let first = on_line(cleared, line);
    assert(Seq::<JsonView>::empty() + first.chunks =~= first.chunks);
    assert(fed(st, Seq::empty()) == quiet(st));
    assert(fed(st, once) == first);
    lemma_record_frame(cleared);
    reveal_strlit("event:");
    reveal_strlit("data:");
    if line.len() == 0 {
        assert(line =~= Seq::empty());
        let last = first.state;
        assert(MapperView { event: None, data: Seq::empty(), line: Seq::empty(), ..last } =~= last);
        assert(first.chunks + Seq::empty() =~= first.chunks);
        if st.line.len() == 0 {
            assert(cleared =~= st);
        }
    } else {
        let read = on_field(cleared, line);
        assert(MapperView { line: Seq::empty(), ..read } =~= read);
        let second = on_record(read);
        assert(Seq::<JsonView>::empty() + second.chunks =~= second.chunks);
    }
}

/// Whether every number that was given stays.
pub open spec fn keeps(older: Map<i64, nat>, newer: Map<i64, nat>) -> bool {
    forall|k: i64| #[trigger] older.contains_key(k) ==> newer.contains_key(k) && newer[k] == older[k]
}

/// A number that is given keeps the numbers as they should be.
proof fn lemma_numbered(st: MapperView, block: i64)
    requires
        dense(st.tools),
    ensures
        dense(numbered(st, block).tools),
        keeps(st.tools, numbered(st, block).tools),
{
    let older = st.tools;
    let newer = numbered(st, block).tools;
    if older.contains_key(block) {
        assert(newer =~= older);
    } else {
        assert(newer.dom() =~= older.dom().insert(block));
        assert(newer.len() == older.len() + 1);
        assert forall|k: i64| #[trigger] newer.contains_key(k) implies newer[k] < newer.len() by {
            if k != block {
                assert(older.contains_key(k));
            }
        }
        assert forall|k: i64, l: i64|
            #[trigger] newer.contains_key(k) && #[trigger] newer.contains_key(l) && newer[k]
                == newer[l] implies k == l by {
            assert(k != block ==> older.contains_key(k));
            assert(l != block ==> older.contains_key(l));
        }
        assert forall|n: nat| n < newer.len() implies #[trigger] is_given(newer, n) by {
            if n < older.len() {
                assert(is_given(older, n));
                let k = choose|k: i64| #[trigger] older.contains_key(k) && older[k] == n;
                assert(newer.contains_key(k));
            } else {
                assert(newer.contains_key(block));
            }
        }
    }
}

/// An event keeps the numbers as they should be.
proof fn lemma_event_tools(st: MapperView, event: Seq<char>, data: JsonView)
    requires
        dense(st.tools),
    ensures
        dense(on_event(st, event, data).state.tools),
        keeps(st.tools, on_event(st, event, data).state.tools),
{
    lemma_numbered(st, block_of(data));
}

/// The end of a record keeps the numbers as they should be.
proof fn lemma_record_tools(st: MapperView)
    requires
        dense(st.tools),
    ensures
        dense(on_record(st).state.tools),
        keeps(st.tools, on_record(st).state.tools),
{
    let ready = MapperView { event: None, data: Seq::empty(), ..st };
    let raw = joined(st.data, "\n"@);
    if let Some(event) = st.event {
        if let Some(data) = parsed_text(raw) {
            lemma_event_tools(ready, event, data);
        }
    }
}

/// An event keeps a mapper as it always is.
pub proof fn lemma_event_wf(st: MapperView, event: Seq<char>, data: JsonView)
    requires
        mapper_wf(st),
    ensures
        mapper_wf(on_event(st, event, data).state),
{
    lemma_event_tools(st, event, data);
    lemma_event_frame(st, event, data);
}

/// A line keeps a mapper as it always is.
pub proof fn lemma_line_wf(st: MapperView, line: Seq<u8>)
    requires
        mapper_wf(st),
    ensures
        mapper_wf(on_record(st).state),
        mapper_wf(on_line(st, line).state),
{
    lemma_record_tools(st);
    lemma_record_frame(st);
}

/// A mapper that has read nothing is as a mapper always is.
pub proof fn law_initial_wf(model: Seq<char>, created: i64, chat_id: Seq<char>)
    ensures
        mapper_wf(initial(model, created, chat_id)),
{
}

/// To read input, and to read its end, keeps a mapper as it always is, and changes
/// no number that a tool call was given.
pub proof fn law_mapper_wf(st: MapperView, bytes: Seq<u8>)
    requires
        mapper_wf(st),
    ensures
        mapper_wf(fed(st, bytes).state),
        keeps(st.tools, fed(st, bytes).state.tools),
        mapper_wf(ended(st).state),
        keeps(st.tools, ended(st).state.tools),
    decreases bytes.len(),
{
    if bytes.len() > 0 {
        law_mapper_wf(st, bytes.drop_last());
        let before = fed(st, bytes.drop_last()).state;
        let cleared = MapperView { line: Seq::empty(), ..before };
        lemma_record_tools(cleared);
        lemma_record_frame(cleared);
        let after = fed(st, bytes).state;
        assert(keeps(before.tools, after.tools));
        assert forall|k: i64| #[trigger] st.tools.contains_key(k) implies after.tools.contains_key(k)
            && after.tools[k] == st.tools[k] by {
            assert(before.tools.contains_key(k));
        }
    }
    lemma_record_tools(st);
    lemma_record_frame(st);
    lemma_record_tools(last_line_read(st));
    lemma_record_frame(last_line_read(st));
}

/// After the end of the input, another end leads to nothing.
pub proof fn law_ended_once(st: MapperView)
    ensures
        ended(ended(st).state) == quiet(ended(st).state),
{
    lemma_record_frame(st);
    lemma_record_frame(last_line_read(st));
    let last = ended(st).state;
    assert(MapperView { event: None, data: Seq::empty(), ..last } =~= last);
}

/// Whether a value tells the kind of a chunk and the model and the time of the
/// completion.
pub open spec fn tells(value: JsonView, model: Seq<char>, created: i64) -> bool {
    &&& value.get("object"@) == Some(JsonView::Str("chat.completion.chunk"@))
    &&& value.get("model"@) == Some(JsonView::Str(model))
    &&& value.get("created"@) == Some(JsonView::Int(created as int))
}

/// A chunk tells what its mapper has in mind.
proof fn lemma_chunk_tells(st: MapperView, delta: JsonView, reason: JsonView)
    ensures
        tells(chunk(st, delta, reason), st.model, st.created),
        chunk(st, delta, reason).get("id"@) == Some(JsonView::Str(st.chat_id)),
{
    reveal_strlit("id");
    reveal_strlit("object");
    reveal_strlit("created");
    reveal_strlit("model");
    reveal_strlit("choices");
    assert("id"@.len() == 2 && "object"@.len() == 6 && "created"@.len() == 7 && "model"@.len() == 5
        && "choices"@.len() == 7 && "created"@[1] == 'r' && "choices"@[1] == 'h');
}

/// Whether a step keeps the model and the time, and every chunk tells them.
pub open spec fn keeps_identity(st: MapperView, step: StepView) -> bool {
    &&& step.state.model == st.model
    &&& step.state.created == st.created
    &&& forall|i: int|
        0 <= i < step.chunks.len() ==> tells(#[trigger] step.chunks[i], st.model, st.created)
}

/// An event puts out at most one chunk, and keeps the model and the time.
proof fn lemma_event_identity(st: MapperView, event: Seq<char>, data: JsonView)
    ensures
        keeps_identity(st, on_event(st, event, data)),
        on_event(st, event, data).chunks.len() <= 1,
{
    let step = on_event(st, event, data);
    assert forall|i: int| 0 <= i < step.chunks.len() implies tells(
        #[trigger] step.chunks[i],
        st.model,
        st.created,
    ) by {
        let value = step.chunks[0];
        assert(exists|delta: JsonView, reason: JsonView| value == chunk(step.state, delta, reason));
        let (delta, reason) = choose|delta: JsonView, reason: JsonView|
            value == chunk(step.state, delta, reason);
        lemma_chunk_tells(step.state, delta, reason);
    }
}

/// The end of a record puts out at most one chunk, and keeps the model and the
/// time.
proof fn lemma_record_identity(st: MapperView)
    ensures
        keeps_identity(st, on_record(st)),
        on_record(st).chunks.len() <= 1,
{
    let ready = MapperView { event: None, data: Seq::empty(), ..st };
    let raw = joined(st.data, "\n"@);
    if let Some(event) = st.event {
        if let Some(data) = parsed_text(raw) {
            lemma_event_identity(ready, event, data);
        }
    }
}

/// Every chunk of a completion tells the same model and the same time, and no byte
/// of the input brings more than one.
pub proof fn law_same_identity(st: MapperView, bytes: Seq<u8>)
    ensures
        keeps_identity(st, fed(st, bytes)),
        fed(st, bytes).chunks.len() <= bytes.len(),
        keeps_identity(st, ended(st)),
        ended(st).chunks.len() <= 1,
    decreases bytes.len(),
{
    if bytes.len() > 0 {
        law_same_identity(st, bytes.drop_last());
        let before = fed(st, bytes.drop_last());
        lemma_record_identity(MapperView { line: Seq::empty(), ..before.state });
        let step = on_byte(before.state, bytes.last());
        let all = fed(st, bytes);
        assert forall|i: int| 0 <= i < all.chunks.len() implies tells(
            #[trigger] all.chunks[i],
            st.model,
            st.created,
        ) by {
            if i < before.chunks.len() {
                assert(all.chunks[i] == before.chunks[i]);
            } else {
                assert(all.chunks[i] == step.chunks[i - before.chunks.len()]);
            }
        }
    }
    lemma_record_identity(st);
    lemma_record_identity(last_line_read(st));
}

/// Whether every chunk of a step tells the id that the mapper then has in mind.
pub open spec fn tells_id(step: StepView) -> bool {
    forall|i: int|
        0 <= i < step.chunks.len() ==> (#[trigger] step.chunks[i]).get("id"@) == Some(
            JsonView::Str(step.state.chat_id),
        )
}

/// Only the start of a message brings another id, which every chunk tells from then
/// on.
pub proof fn law_id_from_message_start(st: MapperView, event: Seq<char>, data: JsonView)
    ensures
        tells_id(on_event(st, event, data)),
        on_event(st, event, data).state.chat_id == (match as_str(data.get2("message"@, "id"@)) {
            Some(id) if event == "message_start"@ => chat_id_of(id),
            _ => st.chat_id,
        }),
{
    let step = on_event(st, event, data);
    assert forall|i: int| 0 <= i < step.chunks.len() implies (#[trigger] step.chunks[i]).get(
        "id"@,
    ) == Some(JsonView::Str(step.state.chat_id)) by {
        lemma_event_identity(st, event, data);
        let value = step.chunks[0];
        assert(exists|delta: JsonView, reason: JsonView| value == chunk(step.state, delta, reason));
        let (delta, reason) = choose|delta: JsonView, reason: JsonView|
            value == chunk(step.state, delta, reason);
        lemma_chunk_tells(step.state, delta, reason);
    }
}

/// The end of a record tells the id as its event does.
proof fn lemma_record_id(st: MapperView)
    ensures
        tells_id(on_record(st)),
        st.event != Some("message_start"@) ==> on_record(st).state.chat_id == st.chat_id,
{
    let ready = MapperView { event: None, data: Seq::empty(), ..st };
    let raw = joined(st.data, "\n"@);
    if let Some(event) = st.event {
        if let Some(data) = parsed_text(raw) {
            law_id_from_message_start(ready, event, data);
        }
    }
}

/// A chunk that a byte or the end of the input brings tells the id that the mapper
/// then has in mind, and without the start of a message that id stays.
pub proof fn law_chunks_tell_id(st: MapperView, byte: u8)
    ensures
        tells_id(on_byte(st, byte)),
        st.event != Some("message_start"@) ==> on_byte(st, byte).state.chat_id == st.chat_id,
        tells_id(ended(st)),
{
    lemma_record_id(MapperView { line: Seq::empty(), ..st });
    lemma_record_id(st);
    lemma_record_id(last_line_read(st));
}

/// A whole output stream ends with the end marker.
pub proof fn law_ends_with_done(st: MapperView, bytes: Seq<u8>)
    ensures
        ends_with(stream_body(st, bytes), done_event()),
{
    let body = stream_body(st, bytes);
    assert(body.skip(body.len() - done_event().len()) =~= done_event());
}

/// Whether two ends of lines follow each other only after a curly bracket.
spec fn breaks_after_braces(text: Seq<char>) -> bool {
    forall|i: int, j: int, k: int|
        0 <= i && j == i + 1 && k == j + 1 && k < text.len() && #[trigger] text[j] == '\n'
            && #[trigger] text[k] == '\n' ==> #[trigger] text[i] == '}'
}

/// Events that carry objects have two ends of lines in a row only at their ends.
proof fn lemma_breaks(events: Seq<Seq<char>>)
    requires
        all_chunk_events(events),
    ensures
        breaks_after_braces(concatenated(events)),
    decreases events.len(),
{
    if events.len() > 0 {
        let init = events.drop_last();
        assert forall|i: int| 0 <= i < init.len() implies is_chunk_event(#[trigger] init[i]) by {
            assert(init[i] == events[i]);
        }
        lemma_breaks(init);
        let event = events[events.len() - 1];
        assert(is_chunk_event(event));
        let line = choose|line: Seq<char>|
            single_line(line) && in_braces(line) && event == #[trigger] framed(line);
        reveal_strlit("data: ");
        reveal_strlit("\n\n");
        let before = concatenated(init);
        let all = concatenated(events);
        let n = before.len() as int;
        assert(all == before + event);
        assert forall|i: int, j: int, k: int|
            0 <= i && j == i + 1 && k == j + 1 && k < all.len() && #[trigger] all[j] == '\n'
                && #[trigger] all[k] == '\n' implies #[trigger] all[i] == '}' by {
            if k < n {
                assert(before[j] == '\n' && before[k] == '\n');
                assert(before[i] == '}');
            } else if j < n {
                assert(all[k] == event[0]);
            } else {
                assert(all[j] == event[j - n] && all[k] == event[k - n]);
                if j - n < 6 {
                    assert(event[j - n] == "data: "@[j - n]);
                } else if j - n < 6 + line.len() {
                    assert(event[j - n] == line[j - n - 6]);
                } else {
                    assert(all[i] == event[i - n]);
                    assert(event[i - n] == line.last());
                }
            }
        }
    }
}

/// Where two ends of lines follow each other only after a curly bracket, no end
/// marker starts.
proof fn lemma_marker_at(before: Seq<char>, i: int)
    requires
        breaks_after_braces(before),
        stands_at(before + done_event(), done_event(), i),
    ensures
        i == before.len(),
{
    let marker = done_event();
    let body = before + marker;
    let n = before.len() as int;
    reveal_strlit("data: [DONE]\n\n");
    let found = body.subrange(i, i + marker.len());
    let (a, b, c) = (i + 11, i + 12, i + 13);
    assert(found[11] == body[a] && found[12] == body[b] && found[13] == body[c]);
    assert(body[a] == ']' && body[b] == '\n' && body[c] == '\n');
    if c < n {
        assert(before[a] == body[a] && before[b] == body[b] && before[c] == body[c]);
    } else if b < n {
        assert(body[c] == marker[0]);
    } else {
        assert(body[b] == marker[b - n]);
    }
}

/// After any chunks, the end marker stands once, at the end: no chunk holds it, nor
/// do two together.
pub proof fn law_done_once(events: Seq<Seq<char>>)
    requires
        all_chunk_events(events),
    ensures
        done_once(concatenated(events) + done_event()),
{
    lemma_breaks(events);
    let before = concatenated(events);
    let marker = done_event();
    let body = before + marker;
    assert(body.skip(body.len() - marker.len()) =~= marker);
    assert forall|i: int| #[trigger] stands_at(body, marker, i) implies i == body.len()
        - marker.len() by {
        lemma_marker_at(before, i);
    }
}

/// The end marker stands once, at the end, in what a relay sends once the body is
/// over.
pub proof fn law_answer_done_once(events: Seq<Seq<char>>)
    requires
        ends_in_done(events),
    ensures
        done_once(concatenated(events)),
{
    law_done_once(events.drop_last());
}

/// An event that carries a chunk is not the end marker.
pub proof fn law_chunk_is_not_done(event: Seq<char>)
    requires
        is_chunk_event(event),
    ensures
        event != done_event(),
{
    let line = choose|line: Seq<char>|
        single_line(line) && in_braces(line) && event == #[trigger] framed(line);
    reveal_strlit("data: ");
    reveal_strlit("data: [DONE]\n\n");
    assert(event[6] == line[0]);
}

/// A message ends for the same reason whether it is streamed or not.
pub proof fn law_same_finish_reason(
    st: MapperView,
    data: JsonView,
    anthropic: JsonView,
    model: Seq<char>,
    id: JsonView,
    created: i64,
)
    requires
        as_str(data.get2("delta"@, "stop_reason"@)) == as_str(anthropic.get("stop_reason"@)),
    ensures
        on_message_delta(st, data).chunks == seq![
            chunk(
                st,
                JsonView::Object(no_fields()),
                finish_reason_of(completion(anthropic, model, id, created)),
            ),
        ],
{
    reveal_strlit("choices");
    reveal_strlit("usage");
    reveal_strlit("index");
    reveal_strlit("message");
    reveal_strlit("finish_reason");
    assert("choices"@.len() == 7 && "usage"@.len() == 5);
}

/// The reason for its end that a completion tells.
pub open spec fn finish_reason_of(value: JsonView) -> JsonView {
    match value.get("choices"@) {
        Some(JsonView::Array(choices)) => match choices[0].get("finish_reason"@) {
            Some(reason) => reason,
            None => JsonView::Null,
        },
        _ => JsonView::Null,
    }
}

/// The bytes of pieces, put together.
pub open spec fn whole(pieces: Seq<Seq<u8>>) -> Seq<u8>
    decreases pieces.len(),
{
    if pieces.len() == 0 {
        Seq::empty()
    } else {
        whole(pieces.drop_last()) + pieces.last()
    }
}

/// A relay that has received pieces of the body, one after the other.
pub open spec fn received_pieces(relay: RelayView, pieces: Seq<Seq<u8>>) -> RelayView
    decreases pieces.len(),
{
    if pieces.len() == 0 {
        relay
    } else {
        received(
            received_pieces(relay, pieces.drop_last()),
            UpstreamView::Bytes(pieces.last()),
        )
    }
}

/// Received in pieces, a body leads to the same events as read whole.
proof fn lemma_received_pieces(st: MapperView, pieces: Seq<Seq<u8>>)
    ensures
        received_pieces(relay_start(st), pieces) == (RelayView {
            mapper: fed(st, whole(pieces)).state,
            queue: data_events(fed(st, whole(pieces)).chunks),
            done: false,
        }),
    decreases pieces.len(),
{
    if pieces.len() == 0 {
        assert(data_events(Seq::empty()) =~= Seq::empty());
    } else {
        let init = pieces.drop_last();
        lemma_received_pieces(st, init);
        law_pieces(st, whole(init), pieces.last());
        let before = fed(st, whole(init));
        lemma_data_events_add(before.chunks, fed(before.state, pieces.last()).chunks);
    }
}

/// Whatever the pieces in which a body comes in, what the relay answers is the
/// output stream for the whole body, and then it stops.
pub proof fn law_relay_answers_whole_body(st: MapperView, pieces: Seq<Seq<u8>>)
    ensures
        ({
            let relay = received(
                received_pieces(relay_start(st), pieces),
                UpstreamView::Ended,
            );
            concatenated(relay.queue) == stream_body(st, whole(pieces)) && relay.done
        }),
{
    lemma_received_pieces(st, pieces);
    let read = fed(st, whole(pieces));
    let last = ended(read.state).chunks;
    lemma_data_events_add(read.chunks, last);
    let events = data_events(read.chunks) + data_events(last);
    assert(events.push(done_event()).drop_last() =~= events);
}

/// A body that breaks off is answered by what came of it so far and the end
/// marker, and then the relay stops.
pub proof fn law_relay_answers_broken_body(st: MapperView, pieces: Seq<Seq<u8>>)
    ensures
        received(received_pieces(relay_start(st), pieces), UpstreamView::Failed) == (RelayView {
            mapper: fed(st, whole(pieces)).state,
            queue: data_events(fed(st, whole(pieces)).chunks).push(done_event()),
            done: true,
        }),
{
    lemma_received_pieces(st, pieces);
}

/// A relay that has sent its next event.
pub open spec fn sent(relay: RelayView) -> RelayView {
    RelayView { queue: relay.queue.skip(1), ..relay }
}

/// When events are sent makes no difference to what is sent: to send the next
/// event and then receive is to receive and then send it.
pub proof fn law_send_when_you_like(relay: RelayView, upstream: UpstreamView)
    requires
        relay.queue.len() > 0,
    ensures
        received(sent(relay), upstream) == sent(received(relay, upstream)),
        received(relay, upstream).queue[0] == relay.queue[0],
{
    assert(received(sent(relay), upstream).queue =~= sent(received(relay, upstream)).queue);
}

} // verus!
