//! What the endpoint decides: what it asks of the Anthropic service, and what it
//! answers.

use crate::identity::is_fresh_chat_id;
use crate::json::{Json, JsonView};
use crate::request::{
    convert_openai_request, converted, MessagesRequest, MessagesRequestView, OpenAIChatRequest,
    OpenAIChatRequestView,
};
use crate::response::{
    arguments_read_back, completion, is_completion_id, map_non_stream_response, message_blocks,
    tokens_fit, total_tokens,
};
use crate::serde_value::parsed_bytes;
use crate::stream::{
    all_chunk_events, all_data_events, data_events, done_event, ended, fed, framed, initial,
    is_chunk_event, is_data_event, MapperView, OpenAIStreamMapper,
};
use crate::text::{concat, texts};
use std::collections::VecDeque;
use vstd::prelude::*;

verus! {

/// The size, in bytes, beyond which the body of a message is not read.
pub const MAX_BODY_SIZE: usize = 50 * 1024 * 1024;

/// An answer that tells of an error.
#[derive(Debug)]
pub struct ErrorReply {
    pub status: u16,
    pub error_type: String,
    pub message: String,
}

/// What an answer that tells of an error says.
#[verifier::ext_equal]
pub struct ErrorReplyView {
    pub status: u16,
    pub error_type: Seq<char>,
    pub message: Seq<char>,
}

impl View for ErrorReply {
    type V = ErrorReplyView;

    open spec fn view(&self) -> ErrorReplyView {
        ErrorReplyView {
            status: self.status,
            error_type: self.error_type@,
            message: self.message@,
        }
    }
}

/// The answer to a request that is refused.
pub open spec fn bad_request(reason: Seq<char>) -> ErrorReplyView {
    ErrorReplyView { status: 400, error_type: "invalid_request_error"@, message: reason }
}

/// The answer where the service fails.
pub open spec fn bad_gateway(message: Seq<char>) -> ErrorReplyView {
    ErrorReplyView { status: 502, error_type: "api_error"@, message }
}

/// A request that was accepted, with what its answer needs of it.
#[derive(Debug)]
pub struct AcceptedRequest {
    pub request: MessagesRequest,
    pub stream: bool,
    pub model: String,
}

/// What a request that was accepted says.
pub struct AcceptedView {
    pub request: MessagesRequestView,
    pub stream: bool,
    pub model: Seq<char>,
}

impl View for AcceptedRequest {
    type V = AcceptedView;

    open spec fn view(&self) -> AcceptedView {
        AcceptedView { request: self.request@, stream: self.stream, model: self.model@ }
    }
}

/// What is made of a chat request: what is asked of the service, or the answer.
pub open spec fn acceptance(request: OpenAIChatRequestView) -> Result<
    AcceptedView,
    ErrorReplyView,
> {
    match converted(request) {
        Ok(asked) => Ok(
            AcceptedView { request: asked, stream: request.stream, model: request.model },
        ),
        Err(reason) => Err(bad_request(reason)),
    }
}

/// What was made of a chat request.
pub open spec fn acceptance_view(r: Result<AcceptedRequest, ErrorReply>) -> Result<
    AcceptedView,
    ErrorReplyView,
> {
    match r {
        Ok(accepted) => Ok(accepted@),
        Err(reply) => Err(reply@),
    }
}

/// Accepts a chat request, or answers why it is refused.
pub fn accept_request(payload: OpenAIChatRequest) -> (r: Result<AcceptedRequest, ErrorReply>)
    ensures
        acceptance_view(r) == acceptance(payload@),
        match converted(payload@) {
            Ok(request) => r matches Ok(accepted) && accepted.request@ == request && accepted.stream
                == payload@.stream && accepted.model@ == payload@.model,
            Err(reason) => r matches Err(reply) && reply@ == bad_request(reason),
        },
{
    let stream = payload.stream;
    let model = payload.model.clone();
    match convert_openai_request(payload) {
        Ok(request) => Ok(AcceptedRequest { request, stream, model }),
        Err(message) => Err(
            ErrorReply { status: 400, error_type: "invalid_request_error".to_owned(), message },
        ),
    }
}

/// What is to be done with an answer of the service.
#[derive(Debug, PartialEq, Eq, Structural, Clone, Copy)]
pub enum Route {
    /// It is handed on as it is.
    PassOn,
    /// Its body is mapped as it comes.
    Stream,
    /// Its body is read whole, and then mapped.
    Collect,
}

/// What is to be done with an answer of a given status. Only one that tells of
/// success is mapped.
pub open spec fn route_of(status: u16, stream: bool) -> Route {
    if !(200 <= status < 300) {
        Route::PassOn
    } else if stream {
        Route::Stream
    } else {
        Route::Collect
    }
}

/// What is to be done with an answer of a given status.
pub fn route_response(status: u16, stream: bool) -> (r: Route)
    ensures
        r == route_of(status, stream),
{
    if status < 200 || status >= 300 {
        Route::PassOn
    } else if stream {
        Route::Stream
    } else {
        Route::Collect
    }
}

/// The answer where the body of a message could not be read.
pub open spec fn unread_reply(error: Seq<char>) -> ErrorReplyView {
    bad_gateway("读取响应失败: "@ + error)
}

/// The answer where the body of a message denotes no value.
pub open spec fn unparsed_reply(error: Seq<char>) -> ErrorReplyView {
    bad_gateway("响应 JSON 解析失败: "@ + error)
}

/// The answer where the body of a message could not be read.
pub fn read_failure(error: &str) -> (r: ErrorReply)
    ensures
        r@ == unread_reply(error@),
        r@ == bad_gateway("读取响应失败: "@ + error@),
{
    ErrorReply {
        status: 502,
        error_type: "api_error".to_owned(),
        message: concat("读取响应失败: ", error),
    }
}

/// The answer for the body of a message, given the value that it denotes or why
/// it denotes none.
pub fn answer_parsed(parsed: Result<Json, String>, model: &str) -> (r: Result<Json, ErrorReply>)
    requires
        parsed matches Ok(anthropic) ==> tokens_fit(anthropic@),
    ensures
        match parsed {
            Ok(anthropic) => r matches Ok(answer) && is_answer(anthropic@, model@, answer@)
                && arguments_read_back(message_blocks(anthropic@)),
            Err(error) => r matches Err(reply) && reply@ == bad_gateway(
                "响应 JSON 解析失败: "@ + error@,
            ),
        },
        parsed matches Err(error) ==> r matches Err(reply) && reply@ == unparsed_reply(error@),
{
    match parsed {
        Ok(anthropic) => Ok(map_non_stream_response(anthropic, model)),
        Err(error) => Err(
            ErrorReply {
                status: 502,
                error_type: "api_error".to_owned(),
                message: concat("响应 JSON 解析失败: ", error.as_str()),
            },
        ),
    }
}

/// Whether a value is the completion for a message, made at some time.
pub open spec fn is_answer(anthropic: JsonView, model: Seq<char>, answer: JsonView) -> bool {
    exists|id: JsonView, created: i64|
        is_completion_id(anthropic, id) && answer == #[trigger] completion(
            anthropic,
            model,
            id,
            created,
        )
}

/// The answer for the body of a message; `None` where the tokens of the message
/// are too many to count.
pub fn answer_body(body: &[u8], model: &str) -> (r: Option<Result<Json, ErrorReply>>)
    ensures
        match parsed_bytes(body@) {
            Ok(anthropic) => if tokens_fit(anthropic) {
                r matches Some(Ok(answer)) && is_answer(anthropic, model@, answer@)
                    && arguments_read_back(message_blocks(anthropic))
            } else {
                r is None
            },
            Err(error) => r matches Some(Err(reply)) && reply@ == bad_gateway(
                "响应 JSON 解析失败: "@ + error,
            ),
        },
        parsed_bytes(body@) matches Err(error) ==> r matches Some(Err(reply)) && reply@
            == unparsed_reply(error),
{
    let parsed = Json::parse_bytes(body);
    if let Ok(anthropic) = &parsed {
        if total_tokens(anthropic).is_none() {
            return None;
        }
    }
    Some(answer_parsed(parsed, model))
}

/// What comes of the body of a message while it is streamed.
#[derive(Debug)]
pub enum Upstream {
    /// Some bytes of it.
    Bytes(Vec<u8>),
    /// It could not be read on.
    Failed,
    /// It is over.
    Ended,
}

/// What comes of the body of a message while it is streamed.
pub enum UpstreamView {
    Bytes(Seq<u8>),
    Failed,
    Ended,
}

impl View for Upstream {
    type V = UpstreamView;

    open spec fn view(&self) -> UpstreamView {
        match *self {
            Upstream::Bytes(bytes) => UpstreamView::Bytes(bytes@),
            Upstream::Failed => UpstreamView::Failed,
            Upstream::Ended => UpstreamView::Ended,
        }
    }
}

/// What a relay is to do next.
#[derive(Debug)]
pub enum Turn {
    /// Send this event.
    Send(String),
    /// Wait for more of the body.
    Wait,
    /// End the answer.
    Stop,
}

/// What a relay is to do next.
pub enum TurnView {
    Send(Seq<char>),
    Wait,
    Stop,
}

impl View for Turn {
    type V = TurnView;

    open spec fn view(&self) -> TurnView {
        match self {
            Turn::Send(event) => TurnView::Send(event@),
            Turn::Wait => TurnView::Wait,
            Turn::Stop => TurnView::Stop,
        }
    }
}

/// What a relay is to do next, and the relay that has done it: the events that wait
/// are sent in order, and then, unless the body is over, more of it is waited for.
pub open spec fn turned(relay: RelayView) -> (TurnView, RelayView) {
    if relay.queue.len() > 0 {
        (
            TurnView::Send(relay.queue[0]),
            RelayView { queue: relay.queue.skip(1), ..relay },
        )
    } else if relay.done {
        (TurnView::Stop, relay)
    } else {
        (TurnView::Wait, relay)
    }
}

/// What a relay has in mind: its mapper, the events to send, and whether the body
/// is over.
#[verifier::ext_equal]
pub struct RelayView {
    pub mapper: MapperView,
    pub queue: Seq<Seq<char>>,
    pub done: bool,
}

/// A relay that has received nothing.
pub open spec fn relay_start(mapper: MapperView) -> RelayView {
    RelayView { mapper, queue: Seq::empty(), done: false }
}

/// A relay that has received something more.
pub open spec fn received(relay: RelayView, upstream: UpstreamView) -> RelayView {
    match upstream {
        UpstreamView::Bytes(bytes) => {
            let step = fed(relay.mapper, bytes);
            RelayView {
                mapper: step.state,
                queue: relay.queue + data_events(step.chunks),
                done: relay.done,
            }
        },
        UpstreamView::Failed => RelayView {
            mapper: relay.mapper,
            queue: relay.queue.push(done_event()),
            done: true,
        },
        UpstreamView::Ended => {
            let step = ended(relay.mapper);
            RelayView {
                mapper: step.state,
                queue: (relay.queue + data_events(step.chunks)).push(done_event()),
                done: true,
            }
        },
    }
}

/// Whether events are what is answered to something more of the body: chunks, and
/// after them the end marker if the body is over.
pub open spec fn is_reply(upstream: UpstreamView, events: Seq<Seq<char>>) -> bool {
    match upstream {
        UpstreamView::Bytes(_) => all_chunk_events(events),
        _ => ends_in_done(events),
    }
}

/// Whether events are chunks and after them the end marker.
pub open spec fn ends_in_done(events: Seq<Seq<char>>) -> bool {
    events.len() > 0 && events.last() == done_event() && all_chunk_events(events.drop_last())
}

/// What always holds of a relay that receives nothing once the body is over: the
/// end marker waits to be sent, as the last event, only then, and every other event
/// carries a chunk.
pub open spec fn relay_wf(relay: RelayView) -> bool {
    if relay.done && relay.queue.len() > 0 {
        ends_in_done(relay.queue)
    } else {
        all_chunk_events(relay.queue)
    }
}

/// Answers with the events of an OpenAI stream while an Anthropic stream comes in.
pub struct StreamRelay {
    mapper: OpenAIStreamMapper,
    pending: VecDeque<String>,
    done: bool,
}

impl View for StreamRelay {
    type V = RelayView;

    closed spec fn view(&self) -> RelayView {
        RelayView { mapper: self.mapper@, queue: texts(self.pending@), done: self.done }
    }
}

/// Puts events at the end of a queue.
fn enqueue(queue: &mut VecDeque<String>, events: Vec<String>)
    ensures
        texts(final(queue)@) == texts(old(queue)@) + texts(events@),
{
    let ghost before = queue@;
    let ghost all = events@;
    assert(texts(before) + texts(all.take(0)) =~= texts(before));
    for event in it: events
        invariant
            it.seq() == all,
            texts(queue@) == texts(before) + texts(all.take(it.index() as int)),
    {
        let ghost i = it.index() as int;
        let ghost sent = queue@;
        queue.push_back(event);
        assert(texts(queue@) =~= texts(sent).push(event@));
        assert(texts(all.take(i + 1)) =~= texts(all.take(i)).push(event@));
        assert(texts(queue@) =~= texts(before) + texts(all.take(i + 1)));
    }
    assert(all.take(all.len() as int) =~= all);
}

/// The end marker is an event with one line of data.
proof fn lemma_done_event()
    ensures
        is_data_event(done_event()),
{
    reveal_strlit("data: ");
    reveal_strlit("[DONE]");
    reveal_strlit("\n\n");
    reveal_strlit("data: [DONE]\n\n");
    assert(framed("[DONE]"@) =~= done_event());
}

/// To send the next event keeps a relay as it always is.
proof fn lemma_sent_wf(relay: RelayView)
    requires
        relay.queue.len() > 0,
    ensures
        relay_wf(relay) ==> relay_wf(RelayView { queue: relay.queue.skip(1), ..relay }),
{
    let rest = relay.queue.skip(1);
    if relay.done && rest.len() > 0 && relay_wf(relay) {
        let chunks = rest.drop_last();
        assert forall|i: int| 0 <= i < chunks.len() implies is_chunk_event(
            #[trigger] chunks[i],
        ) by {
            assert(chunks[i] == relay.queue.drop_last()[i + 1]);
        }
    }
}

impl StreamRelay {
    /// A relay that maps with a given mapper.
    pub fn with_mapper(mapper: OpenAIStreamMapper) -> (r: Self)
        ensures
            r@ == relay_start(mapper@),
            relay_wf(r@),
    {
        let r = StreamRelay { mapper, pending: VecDeque::new(), done: false };
        assert(r@ =~= relay_start(mapper@));
        r
    }

    /// A relay for a completion made now, under a fresh id.
    pub fn new(model: &str) -> (r: Self)
        ensures
            exists|created: i64, id: Seq<char>|
                is_fresh_chat_id(id) && r@ == relay_start(
                    #[trigger] initial(model@, created, id),
                ),
            relay_wf(r@),
    {
        Self::with_mapper(OpenAIStreamMapper::new(model))
    }

    /// What is to be done next: the events that wait are sent in order, and then,
    /// unless the body is over, more of it is waited for.
    pub fn next_turn(&mut self) -> (r: Turn)
        ensures
            (r@, final(self)@) == turned(old(self)@),
            old(self)@.queue.len() > 0 ==> {
                &&& r matches Turn::Send(event) && event@ == old(self)@.queue[0]
                &&& final(self)@ == (RelayView { queue: old(self)@.queue.skip(1), ..old(self)@ })
            },
            old(self)@.queue.len() == 0 ==> {
                &&& r == (if old(self)@.done {
                    Turn::Stop
                } else {
                    Turn::Wait
                })
                &&& final(self)@ == old(self)@
            },
            relay_wf(old(self)@) ==> relay_wf(final(self)@),
    {
        let ghost before = self.pending@;
        match self.pending.pop_front() {
            Some(event) => {
                assert(texts(self.pending@) =~= texts(before).skip(1));
                proof {
                    lemma_sent_wf(old(self)@);
                }
                Turn::Send(event)
            },
            None => if self.done {
                Turn::Stop
            } else {
                Turn::Wait
            },
        }
    }

    /// Receives something more of the body.
    pub fn receive(&mut self, upstream: Upstream)
        ensures
            final(self)@ == received(old(self)@, upstream@),
            is_reply(upstream@, final(self)@.queue.skip(old(self)@.queue.len() as int)),
            all_data_events(final(self)@.queue.skip(old(self)@.queue.len() as int)),
            relay_wf(old(self)@) && !old(self)@.done ==> relay_wf(final(self)@),
    {
        proof {
            lemma_done_event();
        }
        let ghost queue = texts(self.pending@);
        match upstream {
            Upstream::Bytes(bytes) => {
                let events = self.mapper.feed_chunk(bytes.as_slice());
                enqueue(&mut self.pending, events);
            },
            Upstream::Failed => {
                let event = "data: [DONE]\n\n".to_owned();
                self.pending.push_back(event);
                self.done = true;
                assert(texts(self.pending@) =~= queue.push(event@));
            },
            Upstream::Ended => {
                let events = self.mapper.finish();
                enqueue(&mut self.pending, events);
                let ghost queue = texts(self.pending@);
                let event = "data: [DONE]\n\n".to_owned();
                self.pending.push_back(event);
                self.done = true;
                assert(texts(self.pending@) =~= queue.push(event@));
            },
        }
    }
}

} // verus!
