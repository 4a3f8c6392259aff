//! The conversion of an Anthropic event stream into an OpenAI one.

use crate::identity::{chat_id_of, fresh_chat_id, is_fresh_chat_id, make_chat_id, now_timestamp};
use crate::json::{array_view, as_i64, as_str, no_fields, Fields, Json, JsonView};
use crate::response::{concatenated, finish_reason, map_finish_reason, text_or};
use crate::serde_value::{
    in_braces, parsed_text, printed, readable, reads_back, reserved_key, single_line,
};
use crate::stream_laws::{law_done_once, law_mapper_wf, lemma_event_wf, lemma_line_wf};
use crate::text::{
    after_word, begins_with, concat, ends_with, from_utf8_lossy, join, joined, lossy_text,
    stands_at, texts, trimmed_start,
};
use std::collections::HashMap;
use vstd::prelude::*;

verus! {

broadcast use vstd::std_specs::hash::group_hash_axioms;

/// The byte that ends a line.
pub const LINE_FEED: u8 = 10;

/// The byte that may stand before the end of a line.
pub const CARRIAGE_RETURN: u8 = 13;

/// What a mapper has in mind between two bytes of its input.
#[verifier::ext_equal]
pub struct MapperView {
    /// The model, the time and the id that every chunk tells.
    pub model: Seq<char>,
    pub created: i64,
    pub chat_id: Seq<char>,
    /// The number of the tool call for each content block that uses a tool.
    pub tools: Map<i64, nat>,
    /// The event and the data lines of the record that is being read.
    pub event: Option<Seq<char>>,
    pub data: Seq<Seq<char>>,
    /// The bytes of the line that is being read.
    pub line: Seq<u8>,
}

/// What a step of a mapper leads to: what it then has in mind, and the chunks that
/// it has put out, in order.
#[verifier::ext_equal]
pub struct StepView {
    pub state: MapperView,
    pub chunks: Seq<JsonView>,
}

/// A mapper that has read nothing.
pub open spec fn initial(model: Seq<char>, created: i64, chat_id: Seq<char>) -> MapperView {
    MapperView {
        model,
        created,
        chat_id,
        tools: Map::empty(),
        event: None,
        data: Seq::empty(),
        line: Seq::empty(),
    }
}

/// A step that puts out nothing.
pub open spec fn quiet(state: MapperView) -> StepView {
    StepView { state, chunks: Seq::empty() }
}

/// A chunk of a completion.
pub open spec fn chunk(st: MapperView, delta: JsonView, finish_reason: JsonView) -> JsonView {
    JsonView::Object(
        map![
            "id"@ => JsonView::Str(st.chat_id),
            "object"@ => JsonView::Str("chat.completion.chunk"@),
            "created"@ => JsonView::Int(st.created as int),
            "model"@ => JsonView::Str(st.model),
            "choices"@ => JsonView::Array(
                seq![
                    JsonView::Object(
                        map![
                            "index"@ => JsonView::Int(0),
                            "delta"@ => delta,
                            "finish_reason"@ => finish_reason
                        ],
                    ),
                ],
            )
        ],
    )
}

/// A step that puts out one chunk, which does not end the completion.
pub open spec fn puts_out(state: MapperView, delta: JsonView) -> StepView {
    StepView { state, chunks: seq![chunk(state, delta, JsonView::Null)] }
}

/// A line of data as an event of an event stream.
pub open spec fn framed(line: Seq<char>) -> Seq<char> {
    "data: "@ + line + "\n\n"@
}

/// The event of the output stream that carries a chunk.
pub open spec fn data_event(value: JsonView) -> Seq<char> {
    framed(printed(value))
}

/// The events of the output stream that carry chunks.
pub open spec fn data_events(chunks: Seq<JsonView>) -> Seq<Seq<char>> {
    chunks.map_values(|value: JsonView| data_event(value))
}

/// Whether a text is one event of an event stream with one line of data.
pub open spec fn is_data_event(text: Seq<char>) -> bool {
    exists|line: Seq<char>| single_line(line) && text == #[trigger] framed(line)
}

/// Whether each text is one event of an event stream with one line of data.
pub open spec fn all_data_events(events: Seq<Seq<char>>) -> bool {
    forall|i: int| 0 <= i < events.len() ==> is_data_event(#[trigger] events[i])
}

/// Whether a text is one event of an event stream whose data are an object, in one
/// line.
pub open spec fn is_chunk_event(text: Seq<char>) -> bool {
    exists|line: Seq<char>|
        single_line(line) && in_braces(line) && text == #[trigger] framed(line)
}

/// Whether each text is one event of an event stream whose data are an object, in
/// one line.
pub open spec fn all_chunk_events(events: Seq<Seq<char>>) -> bool {
    forall|i: int| 0 <= i < events.len() ==> is_chunk_event(#[trigger] events[i])
}

/// Whether the text of each chunk denotes that chunk.
pub open spec fn all_read_back(chunks: Seq<JsonView>) -> bool {
    forall|i: int| 0 <= i < chunks.len() ==> reads_back(#[trigger] chunks[i])
}

/// The keys of a chunk are not the reserved one.
proof fn lemma_chunk_keys()
    ensures
        "id"@ != reserved_key(),
        "object"@ != reserved_key(),
        "created"@ != reserved_key(),
        "model"@ != reserved_key(),
        "choices"@ != reserved_key(),
        "index"@ != reserved_key(),
        "delta"@ != reserved_key(),
        "finish_reason"@ != reserved_key(),
        "role"@ != reserved_key(),
        "content"@ != reserved_key(),
        "tool_calls"@ != reserved_key(),
        "type"@ != reserved_key(),
        "function"@ != reserved_key(),
        "name"@ != reserved_key(),
        "arguments"@ != reserved_key(),
{
    reveal_strlit("$serde_json::private::RawValue");
    reveal_strlit("id");
    reveal_strlit("object");
    reveal_strlit("created");
    reveal_strlit("model");
    reveal_strlit("choices");
    reveal_strlit("index");
    reveal_strlit("delta");
    reveal_strlit("finish_reason");
    reveal_strlit("role");
    reveal_strlit("content");
    reveal_strlit("tool_calls");
    reveal_strlit("type");
    reveal_strlit("function");
    reveal_strlit("name");
    reveal_strlit("arguments");
    assert(reserved_key()[0] == '$');
    assert("id"@[0] != '$' && "object"@[0] != '$' && "created"@[0] != '$' && "model"@[0] != '$'
        && "choices"@[0] != '$' && "index"@[0] != '$' && "delta"@[0] != '$' && "finish_reason"@[0]
        != '$' && "role"@[0] != '$' && "content"@[0] != '$' && "tool_calls"@[0] != '$'
        && "type"@[0] != '$' && "function"@[0] != '$' && "name"@[0] != '$' && "arguments"@[0]
        != '$');
}

/// A chunk can be read back if what it tells of the completion can.
proof fn lemma_chunk_readable(st: MapperView, delta: JsonView, reason: JsonView)
    requires
        readable(delta, 124),
        readable(reason, 124),
    ensures
        readable(chunk(st, delta, reason), 127),
{
    lemma_chunk_keys();
    reveal_with_fuel(readable, 4);
}

/// What tells of a tool call can be read back.
proof fn lemma_tool_deltas_readable(number: nat, a: Seq<char>, b: Seq<char>)
    ensures
        readable(tool_start_delta(number, a, b), 124),
        readable(tool_arguments_delta(number, a), 124),
{
    lemma_chunk_keys();
    reveal_with_fuel(readable, 5);
}

/// The content block that an event is about.
pub open spec fn block_of(data: JsonView) -> i64 {
    match as_i64(data.get("index"@)) {
        Some(i) => i,
        None => -1i64,
    }
}

/// The number of the tool call for a content block: the number that it was given,
/// or else the next.
pub open spec fn tool_number(st: MapperView, block: i64) -> nat {
    if st.tools.contains_key(block) {
        st.tools[block]
    } else {
        st.tools.len()
    }
}

/// A mapper in which the content block has the number of its tool call.
pub open spec fn numbered(st: MapperView, block: i64) -> MapperView {
    MapperView { tools: st.tools.insert(block, tool_number(st, block)), ..st }
}

/// The delta with which a tool call starts.
pub open spec fn tool_start_delta(number: nat, id: Seq<char>, name: Seq<char>) -> JsonView {
    JsonView::Object(
        map![
            "tool_calls"@ => JsonView::Array(
                seq![
                    JsonView::Object(
                        map![
                            "index"@ => JsonView::Int(number as int),
                            "id"@ => JsonView::Str(id),
                            "type"@ => JsonView::Str("function"@),
                            "function"@ => JsonView::Object(
                                map![
                                    "name"@ => JsonView::Str(name),
                                    "arguments"@ => JsonView::Str(""@)
                                ],
                            )
                        ],
                    ),
                ],
            )
        ],
    )
}

/// The delta with which the arguments of a tool call go on.
pub open spec fn tool_arguments_delta(number: nat, arguments: Seq<char>) -> JsonView {
    JsonView::Object(
        map![
            "tool_calls"@ => JsonView::Array(
                seq![
                    JsonView::Object(
                        map![
                            "index"@ => JsonView::Int(number as int),
                            "function"@ => JsonView::Object(
                                map!["arguments"@ => JsonView::Str(arguments)],
                            )
                        ],
                    ),
                ],
            )
        ],
    )
}

/// The start of a message: it brings the id of the completion and opens the turn
/// of the assistant.
pub open spec fn on_message_start(st: MapperView, data: JsonView) -> StepView {
    let named = match as_str(data.get2("message"@, "id"@)) {
        Some(id) => MapperView { chat_id: chat_id_of(id), ..st },
        None => st,
    };
    puts_out(named, JsonView::Object(map!["role"@ => JsonView::Str("assistant"@)]))
}

/// The start of a content block: one that uses a tool starts a tool call.
pub open spec fn on_block_start(st: MapperView, data: JsonView) -> StepView {
    if as_str(data.get2("content_block"@, "type"@)) == Some("tool_use"@) {
        let block = block_of(data);
        puts_out(
            numbered(st, block),
            tool_start_delta(
                tool_number(st, block),
                text_or(as_str(data.get2("content_block"@, "id"@)), ""@),
                text_or(as_str(data.get2("content_block"@, "name"@)), ""@),
            ),
        )
    } else {
        quiet(st)
    }
}

/// More of a content block: text, or arguments of a tool call.
pub open spec fn on_block_delta(st: MapperView, data: JsonView) -> StepView {
    let kind = as_str(data.get2("delta"@, "type"@));
    if kind == Some("text_delta"@) {
        match as_str(data.get2("delta"@, "text"@)) {
            Some(text) => puts_out(
                st,
                JsonView::Object(map!["content"@ => JsonView::Str(text)]),
            ),
            None => quiet(st),
        }
    } else if kind == Some("input_json_delta"@) {
        let block = block_of(data);
        puts_out(
            numbered(st, block),
            tool_arguments_delta(
                tool_number(st, block),
                text_or(as_str(data.get2("delta"@, "partial_json"@)), ""@),
            ),
        )
    } else {
        quiet(st)
    }
}

/// The end of a message: it brings the reason for the end of the completion.
pub open spec fn on_message_delta(st: MapperView, data: JsonView) -> StepView {
    let reason = finish_reason(text_or(as_str(data.get2("delta"@, "stop_reason"@)), "end_turn"@));
    StepView {
        state: st,
        chunks: seq![chunk(st, JsonView::Object(no_fields()), JsonView::Str(reason))],
    }
}

/// What an event with its data leads to. Any other event leads to nothing.
pub open spec fn on_event(st: MapperView, event: Seq<char>, data: JsonView) -> StepView {
    if event == "message_start"@ {
        on_message_start(st, data)
    } else if event == "content_block_start"@ {
        on_block_start(st, data)
    } else if event == "content_block_delta"@ {
        on_block_delta(st, data)
    } else if event == "message_delta"@ {
        on_message_delta(st, data)
    } else {
        quiet(st)
    }
}

/// What the end of a record leads to. A record without an event, one whose data
/// denote no JSON value, a ping and the end marker lead to nothing.
pub open spec fn on_record(st: MapperView) -> StepView {
    let ready = MapperView { event: None, data: Seq::empty(), ..st };
    let raw = joined(st.data, "\n"@);
    match st.event {
        None => quiet(ready),
        Some(event) => if event == "ping"@ || raw.len() == 0 || raw == "[DONE]"@ {
            quiet(ready)
        } else {
            match parsed_text(raw) {
                Some(data) => on_event(ready, event, data),
                None => quiet(ready),
            }
        },
    }
}

/// A mapper that has read the name of the event of a record.
pub open spec fn with_event(st: MapperView, value: Seq<char>) -> MapperView {
    MapperView { event: Some(trimmed_start(value)), ..st }
}

/// A mapper that has read a line of the data of a record.
pub open spec fn with_data(st: MapperView, value: Seq<char>) -> MapperView {
    MapperView { data: st.data.push(trimmed_start(value)), ..st }
}

/// A mapper that has read a line of a record. The name of a field is plain ASCII,
/// which stands for itself wherever it occurs in a line, so that the line is told
/// by its bytes and only the value becomes text. A comment, which begins with a
/// colon, and a field of another name say nothing.
pub open spec fn on_field(st: MapperView, line: Seq<u8>) -> MapperView {
    if begins_with(line, "event:"@) {
        with_event(st, lossy_text(line.skip("event:"@.len() as int)))
    } else if begins_with(line, "data:"@) {
        with_data(st, lossy_text(line.skip("data:"@.len() as int)))
    } else {
        st
    }
}

/// What a line leads to: an empty one ends the record, any other is a part of it.
pub open spec fn on_line(st: MapperView, line: Seq<u8>) -> StepView {
    if line.len() == 0 {
        on_record(st)
    } else {
        quiet(on_field(st, line))
    }
}

/// The bytes of a line without the carriage return before its end.
pub open spec fn without_return(line: Seq<u8>) -> Seq<u8> {
    if line.len() > 0 && line.last() == CARRIAGE_RETURN {
        line.drop_last()
    } else {
        line
    }
}

/// What a byte of the input leads to.
pub open spec fn on_byte(st: MapperView, byte: u8) -> StepView {
    if byte == LINE_FEED {
        on_line(MapperView { line: Seq::empty(), ..st }, without_return(st.line))
    } else {
        quiet(MapperView { line: st.line.push(byte), ..st })
    }
}

/// What bytes of the input lead to, one after the other.
pub open spec fn fed(st: MapperView, bytes: Seq<u8>) -> StepView
    decreases bytes.len(),
{
    if bytes.len() == 0 {
        quiet(st)
    } else {
        let before = fed(st, bytes.drop_last());
        let step = on_byte(before.state, bytes.last());
        StepView { state: step.state, chunks: before.chunks + step.chunks }
    }
}

/// The bytes of a line without the carriage returns at its end.
pub open spec fn without_returns(line: Seq<u8>) -> Seq<u8>
    decreases line.len(),
{
    if line.len() > 0 && line.last() == CARRIAGE_RETURN {
        without_returns(line.drop_last())
    } else {
        line
    }
}

/// A mapper that has read the last line of its input, which has no end.
pub open spec fn last_line_read(st: MapperView) -> MapperView {
    on_field(MapperView { line: Seq::empty(), ..st }, without_returns(st.line))
}

/// What the end of the input leads to: a last line without an end is read, and the
/// record ends.
pub open spec fn ended(st: MapperView) -> StepView {
    on_record(
        if st.line.len() == 0 {
            st
        } else {
            last_line_read(st)
        },
    )
}

/// Whether bytes hold no end of a line.
pub open spec fn within_line(bytes: Seq<u8>) -> bool {
    forall|i: int| 0 <= i < bytes.len() ==> bytes[i] != LINE_FEED
}

/// Whether a tool call was given the number.
pub open spec fn is_given(tools: Map<i64, nat>, number: nat) -> bool {
    exists|k: i64| #[trigger] tools.contains_key(k) && tools[k] == number
}

/// Whether the tool calls are numbered from zero without gaps, each its own.
pub open spec fn dense(tools: Map<i64, nat>) -> bool {
    &&& tools.dom().finite()
    &&& forall|k: i64| #[trigger] tools.contains_key(k) ==> tools[k] < tools.len()
    &&& forall|k: i64, l: i64|
        #[trigger] tools.contains_key(k) && #[trigger] tools.contains_key(l) && tools[k] == tools[l]
            ==> k == l
    &&& forall|n: nat| n < tools.len() ==> #[trigger] is_given(tools, n)
}

/// What always holds of a mapper: its tool calls are numbered without gaps, and
/// the line that it is reading holds no end of a line.
pub open spec fn mapper_wf(st: MapperView) -> bool {
    dense(st.tools) && within_line(st.line)
}

/// Maps an event stream of Anthropic to one of OpenAI.
pub struct OpenAIStreamMapper {
    model: String,
    created: i64,
    chat_id: String,
    tool_indices: HashMap<i64, usize>,
    current_event: Option<String>,
    current_data_lines: Vec<String>,
    line_buf: Vec<u8>,
}

impl View for OpenAIStreamMapper {
    type V = MapperView;

    closed spec fn view(&self) -> MapperView {
        MapperView {
            model: self.model@,
            created: self.created,
            chat_id: self.chat_id@,
            tools: self.tool_indices@.map_values(|i: usize| i as nat),
            event: match self.current_event {
                Some(event) => Some(event@),
                None => None,
            },
            data: texts(self.current_data_lines@),
            line: self.line_buf@,
        }
    }
}

impl OpenAIStreamMapper {
    /// A mapper for a completion of a given model, time and id.
    pub fn with_identity(model: &str, created: i64, chat_id: String) -> (r: Self)
        ensures
            r@ == initial(model@, created, chat_id@),
            mapper_wf(r@),
    {
        let r = OpenAIStreamMapper {
            model: model.to_owned(),
            created,
            chat_id,
            tool_indices: HashMap::new(),
            current_event: None,
            current_data_lines: Vec::new(),
            line_buf: Vec::new(),
        };
        assert(r@ =~= initial(model@, created, chat_id@));
        r
    }

    /// A mapper for a completion made now, under a fresh id.
    pub fn new(model: &str) -> (r: Self)
        ensures
            exists|created: i64, id: Seq<char>|
                is_fresh_chat_id(id) && r@ == #[trigger] initial(model@, created, id),
            mapper_wf(r@),
    {
        Self::with_identity(model, now_timestamp(), fresh_chat_id())
    }

    /// A chunk of the completion.
    pub fn make_chunk(&self, delta: Json, finish_reason: Json) -> (r: Json)
        ensures
            r@ == chunk(self@, delta@, finish_reason@),
    {
        let choice = Fields::new().with("index", Json::Int(0)).with("delta", delta).with(
            "finish_reason",
            finish_reason,
        ).object();
        let mut choices: Vec<Json> = Vec::new();
        choices.push(choice);
        assert(array_view(choices@) =~= seq![choice@]);
        Fields::new().with_str("id", self.chat_id.as_str()).with_str(
            "object",
            "chat.completion.chunk",
        ).with("created", Json::Int(self.created)).with_str("model", self.model.as_str()).with(
            "choices",
            Json::Array(choices),
        ).object()
    }

    /// Puts out a chunk of the completion.
    pub fn push_chunk(&self, out: &mut Vec<String>, delta: Json, finish_reason: Json)
        ensures
            texts(final(out)@) == texts(old(out)@).push(
                data_event(chunk(self@, delta@, finish_reason@)),
            ),
            is_chunk_event(data_event(chunk(self@, delta@, finish_reason@))),
            readable(delta@, 124) && readable(finish_reason@, 124) ==> reads_back(
                chunk(self@, delta@, finish_reason@),
            ),
    {
        proof {
            if readable(delta@, 124) && readable(finish_reason@, 124) {
                lemma_chunk_readable(self@, delta@, finish_reason@);
            }
        }
        let line = self.make_chunk(delta, finish_reason).to_text();
        let event = concat(concat("data: ", line.as_str()).as_str(), "\n\n");
        let ghost before = texts(out@);
        out.push(event);
        assert(texts(out@) =~= before.push(event@));
        assert(event@ == framed(line@));
        assert(is_chunk_event(event@));
    }

    /// The number of the tool call for a content block.
    fn number_tool(&mut self, block: i64) -> (r: u64)
        ensures
            r == tool_number(old(self)@, block),
            final(self)@ == numbered(old(self)@, block),
    {
        let ghost before = self.tool_indices@;
        let number: usize = match self.tool_indices.get(&block) {
            Some(number) => *number,
            None => self.tool_indices.len(),
        };
        self.tool_indices.insert(block, number);
        proof {
            let f = |i: usize| i as nat;
            assert(self@.tools =~= before.map_values(f).insert(block, number as nat));
            assert(before.map_values(f).dom() =~= before.dom());
        }
        number as u64
    }

    /// Answers an event with its data.
    pub fn handle_event(&mut self, event: &str, data: &Json, out: &mut Vec<String>)
        ensures
            final(self)@ == on_event(old(self)@, event@, data@).state,
            mapper_wf(old(self)@) ==> mapper_wf(final(self)@),
            texts(final(out)@) == texts(old(out)@) + data_events(
                on_event(old(self)@, event@, data@).chunks,
            ),
            all_chunk_events(data_events(on_event(old(self)@, event@, data@).chunks)),
            all_read_back(on_event(old(self)@, event@, data@).chunks),
    {
        let ghost st = self@;
        let ghost before = texts(out@);
        let ghost step = on_event(st, event@, data@);
        proof {
            if mapper_wf(st) {
                lemma_event_wf(st, event@, data@);
            }
        }
        if event.eq("message_start") {
            if let Some(id) = data.get2_str("message", "id") {
                self.chat_id = make_chat_id(id);
            }
            let delta = Fields::new().with_str("role", "assistant").object();
            assert(readable(delta@, 124)) by {
                lemma_chunk_keys();
                reveal_with_fuel(readable, 2);
            }
            self.push_chunk(out, delta, Json::Null);
        } else if event.eq("content_block_start") {
            self.start_block(data, out);
        } else if event.eq("content_block_delta") {
            self.extend_block(data, out);
        } else if event.eq("message_delta") {
            let stop_reason = match data.get2_str("delta", "stop_reason") {
                Some(stop_reason) => stop_reason,
                None => "end_turn",
            };
            self.push_chunk(
                out,
                Fields::new().object(),
                Json::text(map_finish_reason(stop_reason)),
            );
        }
        assert(texts(out@) =~= before + data_events(step.chunks));
    }

    /// Answers the start of a content block.
    fn start_block(&mut self, data: &Json, out: &mut Vec<String>)
        ensures
            final(self)@ == on_block_start(old(self)@, data@).state,
            texts(final(out)@) == texts(old(out)@) + data_events(
                on_block_start(old(self)@, data@).chunks,
            ),
            all_chunk_events(data_events(on_block_start(old(self)@, data@).chunks)),
            all_read_back(on_block_start(old(self)@, data@).chunks),
    {
        let ghost before = texts(out@);
        let ghost step = on_block_start(self@, data@);
        let uses_tool = match data.get2_str("content_block", "type") {
            Some(kind) => kind.eq("tool_use"),
            None => false,
        };
        if uses_tool {
            let block: i64 = match data.get_i64("index") {
                Some(i) => i,
                None => -1,
            };
            let id = match data.get2_str("content_block", "id") {
                Some(id) => id,
                None => "",
            };
            let name = match data.get2_str("content_block", "name") {
                Some(name) => name,
                None => "",
            };
            let number: u64 = self.number_tool(block);
            let function = Fields::new().with_str("name", name).with_str("arguments", "").object();
            let call = Fields::new().with("index", Json::UInt(number)).with_str("id", id).with_str(
                "type",
                "function",
            ).with("function", function).object();
            proof {
                lemma_tool_deltas_readable(number as nat, id@, name@);
            }
            self.push_tool_call(call, out);
        }
        assert(texts(out@) =~= before + data_events(step.chunks));
    }

    /// Answers more of a content block.
    fn extend_block(&mut self, data: &Json, out: &mut Vec<String>)
        ensures
            final(self)@ == on_block_delta(old(self)@, data@).state,
            texts(final(out)@) == texts(old(out)@) + data_events(
                on_block_delta(old(self)@, data@).chunks,
            ),
            all_chunk_events(data_events(on_block_delta(old(self)@, data@).chunks)),
            all_read_back(on_block_delta(old(self)@, data@).chunks),
    {
        let ghost before = texts(out@);
        let ghost step = on_block_delta(self@, data@);
        if let Some(kind) = data.get2_str("delta", "type") {
            if kind.eq("text_delta") {
                if let Some(text) = data.get2_str("delta", "text") {
                    let delta = Fields::new().with_str("content", text).object();
                    assert(readable(delta@, 124)) by {
                        lemma_chunk_keys();
                        reveal_with_fuel(readable, 2);
                    }
                    self.push_chunk(out, delta, Json::Null);
                }
            } else if kind.eq("input_json_delta") {
                let block: i64 = match data.get_i64("index") {
                    Some(i) => i,
                    None => -1,
                };
                let arguments = match data.get2_str("delta", "partial_json") {
                    Some(arguments) => arguments,
                    None => "",
                };
                let number: u64 = self.number_tool(block);
                let function = Fields::new().with_str("arguments", arguments).object();
                let call = Fields::new().with("index", Json::UInt(number)).with(
                    "function",
                    function,
                ).object();
                proof {
                    lemma_tool_deltas_readable(number as nat, arguments@, arguments@);
                }
                self.push_tool_call(call, out);
            }
        }
        assert(texts(out@) =~= before + data_events(step.chunks));
    }

    /// Puts out a chunk with a tool call.
    fn push_tool_call(&self, call: Json, out: &mut Vec<String>)
        ensures
            texts(final(out)@) == texts(old(out)@).push(
                data_event(
                    chunk(
                        self@,
                        JsonView::Object(map!["tool_calls"@ => JsonView::Array(seq![call@])]),
                        JsonView::Null,
                    ),
                ),
            ),
            is_chunk_event(
                data_event(
                    chunk(
                        self@,
                        JsonView::Object(map!["tool_calls"@ => JsonView::Array(seq![call@])]),
                        JsonView::Null,
                    ),
                ),
            ),
            readable(JsonView::Object(map!["tool_calls"@ => JsonView::Array(seq![call@])]), 124)
                ==> reads_back(
                chunk(
                    self@,
                    JsonView::Object(map!["tool_calls"@ => JsonView::Array(seq![call@])]),
                    JsonView::Null,
                ),
            ),
    {
        let mut calls: Vec<Json> = Vec::new();
        calls.push(call);
        assert(array_view(calls@) =~= seq![call@]);
        let delta = Fields::new().with("tool_calls", Json::Array(calls)).object();
        self.push_chunk(out, delta, Json::Null);
    }

    /// Ends a record.
    pub fn flush_record(&mut self, out: &mut Vec<String>)
        ensures
            final(self)@ == on_record(old(self)@).state,
            mapper_wf(old(self)@) ==> mapper_wf(final(self)@),
            texts(final(out)@) == texts(old(out)@) + data_events(on_record(old(self)@).chunks),
            all_chunk_events(data_events(on_record(old(self)@).chunks)),
            all_read_back(on_record(old(self)@).chunks),
    {
        let ghost before = texts(out@);
        proof {
            if mapper_wf(self@) {
                lemma_line_wf(self@, Seq::empty());
            }
        }
        let raw = join(&self.current_data_lines, "\n");
        self.current_data_lines = Vec::new();
        let event = self.current_event.take();
        assert(texts(self.current_data_lines@) =~= Seq::empty());
        assert(before + data_events(Seq::empty()) =~= before);
        let event = match event {
            Some(event) => event,
            None => {
                return;
            },
        };
        let event = event.as_str();
        let text = raw.as_str();
        if event.eq("ping") || text.is_empty() || text.eq("[DONE]") {
            return;
        }
        if let Some(data) = Json::parse(text) {
            self.handle_event(event, &data, out);
        }
    }

    /// Reads the name of the event of a record.
    pub fn read_event(&mut self, value: &str)
        ensures
            final(self)@ == with_event(old(self)@, value@),
    {
        self.current_event = Some(value.trim_start().to_owned());
    }

    /// Reads a line of the data of a record.
    pub fn read_data(&mut self, value: &str)
        ensures
            final(self)@ == with_data(old(self)@, value@),
    {
        let ghost before = texts(self.current_data_lines@);
        let value = value.trim_start().to_owned();
        self.current_data_lines.push(value);
        assert(texts(self.current_data_lines@) =~= before.push(value@));
    }

    /// Reads a line of a record.
    fn read_field(&mut self, line: &[u8])
        ensures
            final(self)@ == on_field(old(self)@, line@),
    {
        if let Some(value) = after_word(line, "event:") {
            self.read_event(from_utf8_lossy(value).as_str());
        } else if let Some(value) = after_word(line, "data:") {
            self.read_data(from_utf8_lossy(value).as_str());
        }
    }

    /// Reads a line.
    pub fn feed_line(&mut self, line: &[u8], out: &mut Vec<String>)
        ensures
            final(self)@ == on_line(old(self)@, line@).state,
            mapper_wf(old(self)@) ==> mapper_wf(final(self)@),
            texts(final(out)@) == texts(old(out)@) + data_events(
                on_line(old(self)@, line@).chunks,
            ),
            all_chunk_events(data_events(on_line(old(self)@, line@).chunks)),
            all_read_back(on_line(old(self)@, line@).chunks),
    {
        if line.len() == 0 {
            self.flush_record(out);
        } else {
            self.read_field(line);
            assert(texts(out@) + data_events(Seq::empty()) =~= texts(out@));
        }
    }

    /// Reads bytes of the input; the events that they bring come back in order.
    pub fn feed_chunk(&mut self, bytes: &[u8]) -> (r: Vec<String>)
        ensures
            final(self)@ == fed(old(self)@, bytes@).state,
            mapper_wf(old(self)@) ==> mapper_wf(final(self)@),
            texts(r@) == data_events(fed(old(self)@, bytes@).chunks),
            all_chunk_events(texts(r@)),
            all_read_back(fed(old(self)@, bytes@).chunks),
    {
        let ghost start = self@;
        let mut out: Vec<String> = Vec::new();
        assert(texts(out@) =~= data_events(fed(start, bytes@.take(0)).chunks));
        for i in 0..bytes.len()
            invariant
                self@ == fed(start, bytes@.take(i as int)).state,
                texts(out@) == data_events(fed(start, bytes@.take(i as int)).chunks),
                all_chunk_events(texts(out@)),
                all_read_back(fed(start, bytes@.take(i as int)).chunks),
        {
            let ghost st = self@;
            let ghost before = fed(start, bytes@.take(i as int)).chunks;
            let ghost step = on_byte(st, bytes@[i as int]);
            assert(bytes@.take(i + 1).drop_last() =~= bytes@.take(i as int));
            let byte: u8 = bytes[i];
            if byte == LINE_FEED {
                let mut line: Vec<u8> = Vec::new();
                std::mem::swap(&mut line, &mut self.line_buf);
                if line.len() > 0 && line[line.len() - 1] == CARRIAGE_RETURN {
                    line.pop();
                }
                assert(line@ =~= without_return(st.line));
                assert(self@ =~= MapperView { line: Seq::empty(), ..st });
                self.feed_line(line.as_slice(), &mut out);
            } else {
                self.line_buf.push(byte);
            }
            assert(data_events(before + step.chunks) =~= data_events(before) + data_events(
                step.chunks,
            ));
            assert(texts(out@) =~= data_events(before) + data_events(step.chunks));
        }
        assert(bytes@.take(bytes@.len() as int) =~= bytes@);
        proof {
            if mapper_wf(start) {
                law_mapper_wf(start, bytes@);
            }
        }
        out
    }

    /// Reads the end of the input; the events that it brings come back in order.
    pub fn finish(&mut self) -> (r: Vec<String>)
        ensures
            final(self)@ == ended(old(self)@).state,
            mapper_wf(old(self)@) ==> mapper_wf(final(self)@),
            texts(r@) == data_events(ended(old(self)@).chunks),
            all_chunk_events(texts(r@)),
            all_read_back(ended(old(self)@).chunks),
    {
        let mut out: Vec<String> = Vec::new();
        proof {
            if mapper_wf(self@) {
                law_mapper_wf(self@, Seq::empty());
            }
        }
        if self.line_buf.len() > 0 {
            let ghost st = self@;
            let mut line: Vec<u8> = Vec::new();
            std::mem::swap(&mut line, &mut self.line_buf);
            while line.len() > 0 && line[line.len() - 1] == CARRIAGE_RETURN
                invariant
                    without_returns(line@) == without_returns(st.line),
                decreases line@.len(),
            {
                let ghost longer = line@;
                line.pop();
                assert(line@ =~= longer.drop_last());
            }
            assert(self@ =~= MapperView { line: Seq::empty(), ..st });
            self.read_field(line.as_slice());
        }
        let ghost read = self@;
        self.flush_record(&mut out);
        assert(texts(out@) =~= data_events(on_record(read).chunks));
        out
    }
}

/// The event that ends the output stream.
pub open spec fn done_event() -> Seq<char> {
    "data: [DONE]\n\n"@
}

/// Whether a text ends with the end marker, which stands nowhere else in it.
pub open spec fn done_once(body: Seq<char>) -> bool {
    &&& ends_with(body, done_event())
    &&& forall|i: int| #[trigger]
        stands_at(body, done_event(), i) ==> i == body.len() - done_event().len()
}

/// The whole output stream for a whole input.
pub open spec fn stream_body(st: MapperView, bytes: Seq<u8>) -> Seq<char> {
    let read = fed(st, bytes);
    concatenated(data_events(read.chunks + ended(read.state).chunks)) + done_event()
}

/// Appends texts to another.
fn append_all(text: &mut String, parts: &Vec<String>)
    ensures
        final(text)@ == old(text)@ + concatenated(texts(parts@)),
{
    let ghost before = text@;
    assert(concatenated(texts(parts@).take(0)) =~= Seq::empty());
    for i in 0..parts.len()
        invariant
            text@ == before + concatenated(texts(parts@).take(i as int)),
    {
        assert(texts(parts@).take(i + 1).drop_last() =~= texts(parts@).take(i as int));
        text.append(parts[i].as_str());
        assert(text@ =~= before + concatenated(texts(parts@).take(i + 1)));
    }
    assert(texts(parts@).take(parts@.len() as int) =~= texts(parts@));
}

/// Texts put together in two parts.
pub proof fn lemma_concatenated_add(a: Seq<Seq<char>>, b: Seq<Seq<char>>)
    ensures
        concatenated(a + b) == concatenated(a) + concatenated(b),
    decreases b.len(),
{
    if b.len() == 0 {
        assert(a + b =~= a);
        assert(concatenated(a) + Seq::empty() =~= concatenated(a));
    } else {
        lemma_concatenated_add(a, b.drop_last());
        assert((a + b).drop_last() =~= a + b.drop_last());
        assert(concatenated(a + b) =~= concatenated(a) + concatenated(b));
    }
}

/// Chunks put out in two parts.
pub proof fn lemma_data_events_add(a: Seq<JsonView>, b: Seq<JsonView>)
    ensures
        data_events(a + b) == data_events(a) + data_events(b),
{
    assert(data_events(a + b) =~= data_events(a) + data_events(b));
}

/// The whole output stream for a whole input, from a mapper that may have read
/// other input before.
pub fn convert_stream_body_with(mapper: OpenAIStreamMapper, bytes: &[u8]) -> (r: String)
    ensures
        r@ == stream_body(mapper@, bytes@),
        done_once(r@),
{
    let mut mapper = mapper;
    let ghost st = mapper@;
    let mut output = String::new();
    let events = mapper.feed_chunk(bytes);
    append_all(&mut output, &events);
    let events = mapper.finish();
    append_all(&mut output, &events);
    output.append("data: [DONE]\n\n");
    proof {
        let read = fed(st, bytes@);
        lemma_data_events_add(read.chunks, ended(read.state).chunks);
        lemma_concatenated_add(data_events(read.chunks), data_events(ended(read.state).chunks));
        assert(output@ =~= stream_body(st, bytes@));
        law_done_once(data_events(read.chunks + ended(read.state).chunks));
    }
    output
}

/// The whole output stream for a whole input, made now under a fresh id.
pub fn convert_stream_body(bytes: &[u8], model: &str) -> (r: String)
    ensures
        exists|created: i64, id: Seq<char>|
            is_fresh_chat_id(id) && r@ == stream_body(
                #[trigger] initial(model@, created, id),
                bytes@,
            ),
        done_once(r@),
{
    convert_stream_body_with(OpenAIStreamMapper::new(model), bytes)
}

} // verus!
