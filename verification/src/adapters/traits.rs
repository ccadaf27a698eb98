//! What a wire format does: its requests, responses and streams from and to the neutral form.
//!
//! A request, a response or an event may hold a value on which a format would have to set a field
//! though it is neither an object nor null. The methods of the traits leave such inputs out; the
//! functions `read_*` and `write_*` of each format take every input, and give
//! `AdapterError::NotAnObject` for these.

use super::anthropic::{
    anthropic_request_of, anthropic_request_value, anthropic_response_of, anthropic_response_value,
    AnthropicAdapter,
};
use super::anthropic_stream::{anthropic_event_read, anthropic_write_step};
use super::chat_stream::{chat_event_read, chat_write_step};
use super::error::{AdapterError, ErrorView};
use super::fresh::{
    draw_for_events, draw_for_request, draw_for_response, drawn_for_events, drawn_for_request,
    drawn_for_response, now, IdsView,
};
use super::openai_chat::{
    chat_request_of, chat_request_value, chat_response_of, chat_response_value, OpenAiChatAdapter,
};
use super::openai_responses::{
    responses_request_of, responses_request_value, responses_response_of, responses_response_value,
    OpenAiResponsesAdapter,
};
use super::responses_stream::{responses_event_read, responses_write_step};
use super::sse::{SseEvent, SseView};
use super::state::{StateView, StreamState};
use super::stream::{written, WriteStep};
use super::{
    anthropic, anthropic_stream, chat_stream, openai_chat, openai_responses, responses_stream,
};
use crate::json::{Json, JsonView};
use crate::model::{EventView, LLMRequest, LLMResponse, LLMStreamEvent, RequestView, ResponseView};
use crate::seqs::{outcome, outcomes, views};
use vstd::prelude::*;

verus! {

/// The requests of a wire format.
pub trait RequestAdapter {
    /// The request that a value is.
    spec fn request_of(value: JsonView) -> Result<RequestView, ErrorView>;

    /// The value of a request, with `ids` for what the format wants named and the request does
    /// not name.
    spec fn request_value(request: RequestView, ids: IdsView) -> Result<JsonView, ErrorView>;

    /// The request that a value is.
    fn to_llm_request(value: Json) -> (r: Result<LLMRequest, AdapterError>)
        requires
            Self::request_of(value@) != Err::<RequestView, ErrorView>(ErrorView::NotAnObject),
        ensures
            outcome(r) == Self::request_of(value@),
    ;

    /// The value of a request, with fresh identifiers where it names none.
    fn from_llm_request(request: &LLMRequest) -> (r: Result<Json, AdapterError>)
        requires
            forall|ids: IdsView| #[trigger]
                Self::request_value(request@, ids) != Err::<JsonView, ErrorView>(
                    ErrorView::NotAnObject,
                ),
        ensures
            exists|ids: IdsView| #[trigger]
                drawn_for_request(request@, ids) && outcome(r) == Self::request_value(
                    request@,
                    ids,
                ),
    ;
}

/// The responses of a wire format.
pub trait ResponseAdapter {
    /// The response that a value is.
    spec fn response_of(value: JsonView) -> Result<ResponseView, ErrorView>;

    /// The value of a response, with `ids` for what the format wants named and the response does
    /// not name, and the time of its creation in seconds since the epoch.
    spec fn response_value(response: ResponseView, ids: IdsView, created: i64) -> Result<
        JsonView,
        ErrorView,
    >;

    /// The response that a value is.
    fn to_llm_response(value: Json) -> (r: Result<LLMResponse, AdapterError>)
        requires
            Self::response_of(value@) != Err::<ResponseView, ErrorView>(ErrorView::NotAnObject),
        ensures
            outcome(r) == Self::response_of(value@),
    ;

    /// The value of a response, with fresh identifiers where it names none, and the present time.
    fn from_llm_response(response: &LLMResponse) -> (r: Result<Json, AdapterError>)
        requires
            forall|ids: IdsView, created: i64| #[trigger]
                Self::response_value(response@, ids, created) != Err::<JsonView, ErrorView>(
                    ErrorView::NotAnObject,
                ),
        ensures
            exists|ids: IdsView, created: i64|
                drawn_for_response(response@, ids) && outcome(r)
                    == #[trigger] Self::response_value(response@, ids, created),
    ;
}

/// The streams of a wire format.
pub trait StreamAdapter {
    /// The state after an event of the stream, and the events that it gives.
    spec fn event_read(event: SseView, s: StateView) -> (
        StateView,
        Result<Seq<EventView>, ErrorView>,
    );

    /// What an event is written as at a time, in seconds since the epoch.
    spec fn write_step(created: i64) -> WriteStep;

    /// Reads an event of the stream.
    fn parse_stream_event(event: &SseEvent, state: &mut StreamState) -> (r: Result<
        Vec<LLMStreamEvent>,
        AdapterError,
    >)
        ensures
            (final(state)@, outcomes(r)) == Self::event_read(event@, old(state)@),
    ;

    /// Writes events, with fresh identifiers where they name none, and the present time.
    fn format_stream_events(events: &[LLMStreamEvent], state: &mut StreamState) -> (r: Result<
        Vec<SseEvent>,
        AdapterError,
    >)
        requires
            forall|ids: IdsView, created: i64|
                (#[trigger] written(
                    views(events@),
                    ids,
                    old(state)@,
                    Self::write_step(created),
                )).1 != Err::<Seq<SseView>, ErrorView>(ErrorView::NotAnObject),
        ensures
            exists|ids: IdsView, created: i64|
                drawn_for_events(views(events@), ids) && (final(state)@, outcomes(r))
                    == #[trigger] written(
                    views(events@),
                    ids,
                    old(state)@,
                    Self::write_step(created),
                ),
    ;
}

impl RequestAdapter for OpenAiChatAdapter {
    open spec fn request_of(value: JsonView) -> Result<RequestView, ErrorView> {
        chat_request_of(value)
    }

    open spec fn request_value(request: RequestView, ids: IdsView) -> Result<JsonView, ErrorView> {
        chat_request_value(request, ids)
    }

    fn to_llm_request(value: Json) -> (r: Result<LLMRequest, AdapterError>) {
        openai_chat::read_request(&value)
    }

    fn from_llm_request(request: &LLMRequest) -> (r: Result<Json, AdapterError>) {
        let ids = draw_for_request(request);
        let r = openai_chat::write_request(request, Some(&ids));
        assert(drawn_for_request(request@, ids@));
        r
    }
}

impl RequestAdapter for OpenAiResponsesAdapter {
    open spec fn request_of(value: JsonView) -> Result<RequestView, ErrorView> {
        responses_request_of(value)
    }

    open spec fn request_value(request: RequestView, ids: IdsView) -> Result<JsonView, ErrorView> {
        responses_request_value(request, ids)
    }

    fn to_llm_request(value: Json) -> (r: Result<LLMRequest, AdapterError>) {
        openai_responses::read_request(&value)
    }

    fn from_llm_request(request: &LLMRequest) -> (r: Result<Json, AdapterError>) {
        let ids = draw_for_request(request);
        let r = openai_responses::write_request(request, Some(&ids));
        assert(drawn_for_request(request@, ids@));
        r
    }
}

impl RequestAdapter for AnthropicAdapter {
    open spec fn request_of(value: JsonView) -> Result<RequestView, ErrorView> {
        anthropic_request_of(value)
    }

    open spec fn request_value(request: RequestView, ids: IdsView) -> Result<JsonView, ErrorView> {
        anthropic_request_value(request, ids)
    }

    fn to_llm_request(value: Json) -> (r: Result<LLMRequest, AdapterError>) {
        anthropic::read_request(&value)
    }

    fn from_llm_request(request: &LLMRequest) -> (r: Result<Json, AdapterError>) {
        let ids = draw_for_request(request);
        let r = anthropic::write_request(request, Some(&ids));
        assert(drawn_for_request(request@, ids@));
        r
    }
}

impl ResponseAdapter for OpenAiChatAdapter {
    open spec fn response_of(value: JsonView) -> Result<ResponseView, ErrorView> {
        chat_response_of(value)
    }

    open spec fn response_value(response: ResponseView, ids: IdsView, created: i64) -> Result<
        JsonView,
        ErrorView,
    > {
        chat_response_value(response, ids, created)
    }

    fn to_llm_response(value: Json) -> (r: Result<LLMResponse, AdapterError>) {
        openai_chat::read_response(&value)
    }

    fn from_llm_response(response: &LLMResponse) -> (r: Result<Json, AdapterError>) {
        let ids = draw_for_response(response);
        let created = now();
        let r = openai_chat::write_response(response, Some(&ids), created);
        assert(outcome(r) == Self::response_value(response@, ids@, created));
        r
    }
}

impl ResponseAdapter for OpenAiResponsesAdapter {
    open spec fn response_of(value: JsonView) -> Result<ResponseView, ErrorView> {
        responses_response_of(value)
    }

    open spec fn response_value(response: ResponseView, ids: IdsView, created: i64) -> Result<
        JsonView,
        ErrorView,
    > {
        responses_response_value(response, ids, created)
    }

    fn to_llm_response(value: Json) -> (r: Result<LLMResponse, AdapterError>) {
        openai_responses::read_response(&value)
    }

    fn from_llm_response(response: &LLMResponse) -> (r: Result<Json, AdapterError>) {
        let ids = draw_for_response(response);
        let created = now();
        let r = openai_responses::write_response(response, Some(&ids), created);
        assert(outcome(r) == Self::response_value(response@, ids@, created));
        r
    }
}

impl ResponseAdapter for AnthropicAdapter {
    open spec fn response_of(value: JsonView) -> Result<ResponseView, ErrorView> {
        Ok(anthropic_response_of(value))
    }

    open spec fn response_value(response: ResponseView, ids: IdsView, created: i64) -> Result<
        JsonView,
        ErrorView,
    > {
        anthropic_response_value(response, ids)
    }

    fn to_llm_response(value: Json) -> (r: Result<LLMResponse, AdapterError>) {
        Ok(anthropic::read_response(&value))
    }

    fn from_llm_response(response: &LLMResponse) -> (r: Result<Json, AdapterError>) {
        let ids = draw_for_response(response);
        let r = anthropic::write_response(response, Some(&ids));
        assert(outcome(r) == Self::response_value(response@, ids@, 0));
        r
    }
}

impl StreamAdapter for OpenAiChatAdapter {
    open spec fn event_read(event: SseView, s: StateView) -> (
        StateView,
        Result<Seq<EventView>, ErrorView>,
    ) {
        chat_event_read(event.data, s)
    }

    open spec fn write_step(created: i64) -> WriteStep {
        chat_write_step(created)
    }

    fn parse_stream_event(event: &SseEvent, state: &mut StreamState) -> (r: Result<
        Vec<LLMStreamEvent>,
        AdapterError,
    >) {
        chat_stream::read_event(event, state)
    }

    fn format_stream_events(events: &[LLMStreamEvent], state: &mut StreamState) -> (r: Result<
        Vec<SseEvent>,
        AdapterError,
    >) {
        let ids = draw_for_events(events);
        let created = now();
        let r = chat_stream::write_events(events, state, Some(&ids), created);
        assert((state@, outcomes(r)) == written(
            views(events@),
            ids@,
            old(state)@,
            Self::write_step(created),
        ));
        r
    }
}

impl StreamAdapter for OpenAiResponsesAdapter {
    open spec fn event_read(event: SseView, s: StateView) -> (
        StateView,
        Result<Seq<EventView>, ErrorView>,
    ) {
        responses_event_read(event, s)
    }

    open spec fn write_step(created: i64) -> WriteStep {
        responses_write_step(created)
    }

    fn parse_stream_event(event: &SseEvent, state: &mut StreamState) -> (r: Result<
        Vec<LLMStreamEvent>,
        AdapterError,
    >) {
        responses_stream::read_event(event, state)
    }

    fn format_stream_events(events: &[LLMStreamEvent], state: &mut StreamState) -> (r: Result<
        Vec<SseEvent>,
        AdapterError,
    >) {
        let ids = draw_for_events(events);
        let created = now();
        let r = responses_stream::write_events(events, state, Some(&ids), created);
        assert((state@, outcomes(r)) == written(
            views(events@),
            ids@,
            old(state)@,
            Self::write_step(created),
        ));
        r
    }
}

impl StreamAdapter for AnthropicAdapter {
    open spec fn event_read(event: SseView, s: StateView) -> (
        StateView,
        Result<Seq<EventView>, ErrorView>,
    ) {
        anthropic_event_read(event, s)
    }

    open spec fn write_step(created: i64) -> WriteStep {
        anthropic_write_step()
    }

    fn parse_stream_event(event: &SseEvent, state: &mut StreamState) -> (r: Result<
        Vec<LLMStreamEvent>,
        AdapterError,
    >) {
        anthropic_stream::read_event(event, state)
    }

    fn format_stream_events(events: &[LLMStreamEvent], state: &mut StreamState) -> (r: Result<
        Vec<SseEvent>,
        AdapterError,
    >) {
        let ids = draw_for_events(events);
        let r = anthropic_stream::write_events(events, state, Some(&ids));
        assert((state@, outcomes(r)) == written(
            views(events@),
            ids@,
            old(state)@,
            Self::write_step(0),
        ));
        r
    }
}

} // verus!
