//! The Responses format: streams.

use super::annotations::{
    annotation_from_openai, annotation_to_openai, annotations_to_openai, openai_annotation,
    openai_annotation_value, openai_annotation_writer,
};

use super::common::{
    array0, array1, json1, json2, json3, json_array0, json_array1, json_object0, object0, object1,
    object2, object3, protocol_name, protocol_text,
};
use super::error::{AdapterError, ErrorView};
use super::fresh::{call_id, ids_at, item_id, opt_ids, FreshIds, IdsView};
use super::openai_chat::{either_str, or_fresh};
use super::openai_responses::{
    incomplete_reason, incomplete_text, output_of, reasoning_from_responses, reasoning_item_of,
    responses, responses_finish_reason, responses_output_from_value, responses_part,
    responses_part_from_value, responses_part_of, responses_reason_of, responses_status,
    responses_usage_at, responses_usage_of_opt, responses_usage_to_value, responses_usage_value,
    status_text,
};
use super::sse::{json_event, SseEvent, SseView};
use super::state::{
    annotations_at, ascending, get, put_annotations, put_text, target_of, text_at, StateView,
    StreamState,
};
use super::stream::{
    add_event, add_sse, content_ends, ends, no_sse, progress, written, written_fails, Progress,
    WriteStep,
};
use crate::json::{
    copy_all, int_num, jint, jopt, jtext, opt_view, without, Json, JsonMap, JsonView,
};
use crate::model::{
    copy_annotations, copy_text, copy_usage, no_fields, opt_usage, text_part, AnnotationView,
    ContentView, EventView, Fields, KindView, LLMAnnotation, LLMContent, LLMContentKind,
    LLMFinishReason, LLMProtocol, LLMStreamEvent, LLMUsage, UsageView,
};
use crate::seqs::{outcome, outcomes, try_map, views};
use crate::text::{borrow, cat, either, one_of, opt_str, opt_text, or_text, own, same, texts};
use crate::wire::{parse, text_value};
use vstd::prelude::*;
use vstd::std_specs::btree::group_btree_axioms;

verus! {

broadcast use group_btree_axioms;

/// The index of the part that an event belongs to.
pub open spec fn output_index(value: JsonView) -> usize {
    match value.at("output_index"@).uint() {
        Some(n) => n as usize,
        None => 0,
    }
}

fn index_of(value: &Json) -> (r: usize)
    ensures
        r == output_index(value@),
{
    match value.uint_at("output_index") {
        Some(n) => n as usize,
        None => 0,
    }
}

/// The part that starts with an item of the output.
pub open spec fn started_item(item: JsonView) -> Option<ContentView> {
    let kind = or_text(item.at("type"@).text(), ""@);
    if kind == "message"@ {
        Some(text_part(""@))
    } else if kind == "function_call"@ {
        Some(
            responses_part(
                KindView::ToolCall {
                    id: either(item.at("call_id"@).text(), item.at("id"@).text()),
                    name: or_text(item.at("name"@).text(), ""@),
                    arguments: object0(),
                },
                no_fields(),
            ),
        )
    } else if kind == "reasoning"@ {
        Some(reasoning_item_of(item))
    } else if kind == "refusal"@ {
        Some(responses_part(KindView::Refusal { refusal: Seq::empty() }, no_fields()))
    } else {
        None
    }
}

fn responses_output_item_from_value(item: &Json) -> (r: Option<LLMContent>)
    ensures
        match r {
            Some(c) => started_item(item@) == Some(c@),
            None => started_item(item@) is None,
        },
{
    let kind = item.text_at("type").unwrap_or("");
    if same(kind, "message") {
        Some(LLMContent::text(""))
    } else if same(kind, "function_call") {
        Some(
            LLMContent {
                source: Some(LLMProtocol::OpenAiResponses),
                kind: LLMContentKind::ToolCall {
                    id: own(either_str(item.text_at("call_id"), item.text_at("id"))),
                    name: item.text_at("name").unwrap_or("").to_owned(),
                    arguments: json_object0(),
                },
                metadata: JsonMap::new(),
            },
        )
    } else if same(kind, "reasoning") {
        Some(reasoning_from_responses(item))
    } else if same(kind, "refusal") {
        let refusal = String::new();
        assert(refusal@ =~= Seq::empty());
        Some(
            LLMContent {
                source: Some(LLMProtocol::OpenAiResponses),
                kind: LLMContentKind::Refusal { refusal },
                metadata: JsonMap::new(),
            },
        )
    } else {
        None
    }
}

/// With the start of the message, where it has not started.
pub open spec fn message_started(s: StateView, value: JsonView) -> Progress {
    if s.started {
        Progress { state: s, events: Seq::empty() }
    } else {
        Progress {
            state: StateView { started: true, ..s },
            events: seq![
                EventView::MessageStart {
                    id: value.at("response_id"@).text(),
                    model: None,
                    usage: None,
                },
            ],
        }
    }
}

/// With the start of a part.
pub open spec fn part_started(p: Progress, index: usize, content: ContentView) -> Progress {
    Progress {
        state: StateView { open_content: p.state.open_content.insert(index), ..p.state },
        events: p.events.push(EventView::ContentStart { index, content }),
    }
}

/// The events that change nothing.
pub open spec fn silent_events() -> Seq<Seq<char>> {
    seq![
        "response.queued"@,
        "response.content_part.done"@,
        "response.output_text.done"@,
        "response.refusal.done"@,
        "response.function_call_arguments.done"@,
        "response.reasoning_summary_part.added"@,
        "response.reasoning_summary_part.done"@,
        "response.reasoning_summary_text.done"@,
        "response.reasoning_text.done"@,
    ]
}

/// One event, and the state as it is.
pub open spec fn just(s: StateView, event: EventView) -> Progress {
    Progress { state: s, events: seq![event] }
}

/// What the start of a response gives.
pub open spec fn response_started(s: StateView, response: JsonView) -> Progress {
    if s.started {
        Progress { state: s, events: Seq::empty() }
    } else {
        let id = response.at("id"@).text();
        let model = response.at("model"@).text();
        let usage = responses_usage_of_opt(response.field("usage"@));
        just(
            StateView { id, model, started: true, usage, ..s },
            EventView::MessageStart { id, model, usage },
        )
    }
}

/// The state after the end of a response, and the events that it gives.
pub open spec fn response_ended(s: StateView, response: JsonView) -> (
    StateView,
    Result<Seq<EventView>, ErrorView>,
) {
    let closed = StateView { open_content: Set::empty(), ..s };
    match output_of(response.at("output"@).list()) {
        Err(e) => (closed, Err(e)),
        Ok(content) => (
            StateView { ended: true, ..closed },
            Ok(
                ends(ascending(s.open_content)).push(
                    EventView::MessageEnd {
                        finish_reason: Some(
                            responses_reason_of(
                                or_text(response.at("status"@).text(), "completed"@),
                                response.at("incomplete_details"@),
                                content,
                            ),
                        ),
                        usage: responses_usage_of_opt(response.field("usage"@)),
                        metadata: without(
                            response.fields_or_none(),
                            seq!["status"@, "usage"@, "output"@],
                        ),
                    },
                ),
            ),
        ),
    }
}

/// What an event of the stream that does not end the response gives.
pub open spec fn responses_progress(kind: Seq<char>, value: JsonView, s: StateView) -> Progress {
    let index = output_index(value);
    let delta = value.at("delta"@).text();
    if kind == "response.created"@ || kind == "response.in_progress"@ {
        response_started(s, value.at("response"@))
    } else if kind == "response.output_item.added"@ {
        match started_item(value.at("item"@)) {
            Some(content) => part_started(message_started(s, value), index, content),
            None => message_started(s, value),
        }
    } else if kind == "response.content_part.added"@ {
        if s.open_content.contains(index) {
            message_started(s, value)
        } else {
            part_started(message_started(s, value), index, responses_part_of(value.at("part"@)))
        }
    } else if kind == "response.output_text.delta"@ {
        just(s, EventView::TextDelta { index, text: or_text(delta, ""@) })
    } else if kind == "response.refusal.delta"@ {
        just(s, EventView::RefusalDelta { index, refusal: or_text(delta, ""@) })
    } else if kind == "response.output_text.annotation.added"@ {
        just(
            s,
            EventView::AnnotationAdded {
                index,
                annotation: openai_annotation(value.at("annotation"@), responses()),
            },
        )
    } else if kind == "response.reasoning_summary_text.delta"@ || kind
        == "response.reasoning_text.delta"@ {
        just(s, EventView::ReasoningDelta { index, text: delta, signature: None })
    } else if kind == "response.function_call_arguments.delta"@ {
        just(
            s,
            EventView::ToolCallDelta {
                index,
                id: value.at("item_id"@).text(),
                name: value.at("name"@).text(),
                arguments_delta: or_text(delta, ""@),
            },
        )
    } else if kind == "response.output_item.done"@ {
        if s.open_content.contains(index) {
            just(
                StateView { open_content: s.open_content.remove(index), ..s },
                EventView::ContentEnd { index },
            )
        } else {
            Progress { state: s, events: Seq::empty() }
        }
    } else if kind == "error"@ {
        just(
            s,
            EventView::Error {
                message: or_text(
                    either(value.at("error"@).at("message"@).text(), value.at("message"@).text()),
                    "upstream stream error"@,
                ),
                metadata: match value.field("error"@) {
                    Some(error) => error.fields_or_none(),
                    None => value.fields_or_none(),
                },
            },
        )
    } else if silent_events().contains(kind) {
        Progress { state: s, events: Seq::empty() }
    } else {
        just(s, EventView::Raw { protocol: responses(), value })
    }
}

/// The type of an event: the one that its data gives, or else its own.
pub open spec fn event_type(value: JsonView, event: Option<Seq<char>>) -> Seq<char> {
    or_text(either(value.at("type"@).text(), event), ""@)
}

/// Whether an event ends the response.
pub open spec fn is_final(kind: Seq<char>) -> bool {
    kind == "response.completed"@ || kind == "response.incomplete"@ || kind == "response.failed"@
}

/// The state after an event of the stream that was read as `parsed`, and the events that it gives.
pub open spec fn responses_parsed_read(
    parsed: Option<JsonView>,
    event: Option<Seq<char>>,
    s: StateView,
) -> (StateView, Result<Seq<EventView>, ErrorView>) {
    match parsed {
        None => (s, Err(ErrorView::InvalidField("stream_json"@))),
        Some(value) => {
            let kind = event_type(value, event);
            if is_final(kind) {
                response_ended(s, value.at("response"@))
            } else {
                let p = responses_progress(kind, value, s);
                (p.state, Ok(p.events))
            }
        },
    }
}

/// The state after an event of the stream, and the events that it gives.
pub open spec fn responses_event_read(e: SseView, s: StateView) -> (
    StateView,
    Result<Seq<EventView>, ErrorView>,
) {
    responses_parsed_read(text_value(e.data), e.event, s)
}

fn one_event(event: LLMStreamEvent) -> (r: Vec<LLMStreamEvent>)
    ensures
        views(r@) == seq![event@],
{
    let mut out: Vec<LLMStreamEvent> = Vec::new();
    out.push(event);
    assert(views(out@) =~= seq![event@]);
    out
}

fn no_events() -> (r: Vec<LLMStreamEvent>)
    ensures
        views(r@) == Seq::<EventView>::empty(),
{
    let out: Vec<LLMStreamEvent> = Vec::new();
    assert(views(out@) =~= Seq::empty());
    out
}

fn ensure_message_started(state: &mut StreamState, value: &Json) -> (r: Vec<LLMStreamEvent>)
    ensures
        progress(r@, final(state)@) == message_started(old(state)@, value@),
{
    if !state.started {
        state.started = true;
        one_event(
            LLMStreamEvent::MessageStart {
                id: own(value.text_at("response_id")),
                model: None,
                usage: None,
            },
        )
    } else {
        no_events()
    }
}

fn start_response(state: &mut StreamState, response: &Json) -> (r: Vec<LLMStreamEvent>)
    ensures
        progress(r@, final(state)@) == response_started(old(state)@, response@),
{
    if state.started {
        return no_events();
    }
    state.id = own(response.text_at("id"));
    state.model = own(response.text_at("model"));
    state.started = true;
    state.usage = responses_usage_at(response, "usage");
    one_event(
        LLMStreamEvent::MessageStart {
            id: copy_text(&state.id),
            model: copy_text(&state.model),
            usage: copy_usage(&state.usage),
        },
    )
}

fn end_response(state: &mut StreamState, response: &Json) -> (r: Result<
    Vec<LLMStreamEvent>,
    AdapterError,
>)
    ensures
        (final(state)@, outcomes(r)) == response_ended(old(state)@, response@),
{
    let mut events = content_ends(&state.open_content);
    state.open_content.clear();
    let usage = responses_usage_at(response, "usage");
    let content = match responses_output_from_value(response.at("output")) {
        Ok(content) => content,
        Err(e) => {
            return Err(e);
        },
    };
    let known = ["status", "usage", "output"];
    assert(texts(known@) =~= seq!["status"@, "usage"@, "output"@]);
    add_event(
        &mut events,
        LLMStreamEvent::MessageEnd {
            finish_reason: Some(
                responses_finish_reason(
                    response.text_at("status").unwrap_or("completed"),
                    response.at("incomplete_details"),
                    &content,
                ),
            ),
            usage,
            metadata: response.fields_without(&known),
        },
    );
    state.ended = true;
    Ok(events)
}

fn read_added(kind: &str, value: &Json, state: &mut StreamState) -> (r: Vec<LLMStreamEvent>)
    requires
        kind@ == "response.output_item.added"@ || kind@ == "response.content_part.added"@,
        kind@ != "response.created"@ && kind@ != "response.in_progress"@,
    ensures
        progress(r@, final(state)@) == responses_progress(kind@, value@, old(state)@),
{
    let index = index_of(value);
    let mut events = ensure_message_started(state, value);
    if same(kind, "response.output_item.added") {
        if let Some(content) = responses_output_item_from_value(value.at("item")) {
            state.open_content.insert(index);
            add_event(&mut events, LLMStreamEvent::ContentStart { index, content });
        }
    } else if !state.open_content.contains(&index) {
        let content = responses_part_from_value(value.at("part"));
        state.open_content.insert(index);
        add_event(&mut events, LLMStreamEvent::ContentStart { index, content });
    }
    events
}

fn read_progress(kind: &str, value: &Json, state: &mut StreamState) -> (r: Vec<LLMStreamEvent>)
    ensures
        progress(r@, final(state)@) == responses_progress(kind@, value@, old(state)@),
{
    let index = index_of(value);
    let delta = value.text_at("delta");
    if same(kind, "response.created") || same(kind, "response.in_progress") {
        return start_response(state, value.at("response"));
    }
    if same(kind, "response.output_item.added") || same(kind, "response.content_part.added") {
        return read_added(kind, value, state);
    }
    if same(kind, "response.output_text.delta") {
        one_event(LLMStreamEvent::TextDelta { index, text: delta.unwrap_or("").to_owned() })
    } else if same(kind, "response.refusal.delta") {
        one_event(LLMStreamEvent::RefusalDelta { index, refusal: delta.unwrap_or("").to_owned() })
    } else if same(kind, "response.output_text.annotation.added") {
        one_event(
            LLMStreamEvent::AnnotationAdded {
                index,
                annotation: annotation_from_openai(
                    value.at("annotation"),
                    LLMProtocol::OpenAiResponses,
                ),
            },
        )
    } else if same(kind, "response.reasoning_summary_text.delta") || same(
        kind,
        "response.reasoning_text.delta",
    ) {
        one_event(LLMStreamEvent::ReasoningDelta { index, text: own(delta), signature: None })
    } else if same(kind, "response.function_call_arguments.delta") {
        one_event(
            LLMStreamEvent::ToolCallDelta {
                index,
                id: own(value.text_at("item_id")),
                name: own(value.text_at("name")),
                arguments_delta: delta.unwrap_or("").to_owned(),
            },
        )
    } else if same(kind, "response.output_item.done") {
        if state.open_content.remove(&index) {
            one_event(LLMStreamEvent::ContentEnd { index })
        } else {
            assert(state.open_content@ =~= old(state).open_content@);
            no_events()
        }
    } else if same(kind, "error") {
        let metadata = match value.get("error") {
            Some(error) => error.fields(),
            None => value.fields(),
        };
        one_event(
            LLMStreamEvent::Error {
                message: either_str(
                    value.at("error").text_at("message"),
                    value.text_at("message"),
                ).unwrap_or("upstream stream error").to_owned(),
                metadata,
            },
        )
    } else {
        let silent = [
            "response.queued",
            "response.content_part.done",
            "response.output_text.done",
            "response.refusal.done",
            "response.function_call_arguments.done",
            "response.reasoning_summary_part.added",
            "response.reasoning_summary_part.done",
            "response.reasoning_summary_text.done",
            "response.reasoning_text.done",
        ];
        assert(texts(silent@) =~= silent_events());
        if one_of(kind, &silent) {
            no_events()
        } else {
            one_event(
                LLMStreamEvent::Raw {
                    protocol: LLMProtocol::OpenAiResponses,
                    value: value.clone(),
                },
            )
        }
    }
}

/// Reads an event of the stream, by the value of its data, where it has one, and by its name.
pub fn read_parsed(parsed: Option<Json>, event: Option<&str>, state: &mut StreamState) -> (r:
    Result<Vec<LLMStreamEvent>, AdapterError>)
    ensures
        (final(state)@, outcomes(r)) == responses_parsed_read(
            opt_view(parsed),
            opt_str(event),
            old(state)@,
        ),
{
    let value = match parsed {
        Some(value) => value,
        None => {
            return Err(AdapterError::InvalidField("stream_json"));
        },
    };
    let kind = either_str(value.text_at("type"), event).unwrap_or("");
    if same(kind, "response.completed") || same(kind, "response.incomplete") || same(
        kind,
        "response.failed",
    ) {
        end_response(state, value.at("response"))
    } else {
        Ok(read_progress(kind, &value, state))
    }
}

/// Reads an event of the stream.
pub fn read_event(event: &SseEvent, state: &mut StreamState) -> (r: Result<
    Vec<LLMStreamEvent>,
    AdapterError,
>)
    ensures
        (final(state)@, outcomes(r)) == responses_event_read(event@, old(state)@),
{
    read_parsed(parse(event.data.as_str()), borrow(&event.event), state)
}

/// The state of a conversion and what it has written.
#[verifier::ext_equal]
pub struct Written {
    pub state: StateView,
    pub out: Seq<SseView>,
}

impl Written {
    /// With one more event, which takes the next number.
    pub open spec fn emit(self, kind: Seq<char>, fields: Fields) -> Written {
        Written {
            state: StateView {
                sequence_number: self.state.sequence_number.wrapping_add(1),
                ..self.state
            },
            out: self.out.push(
                json_event(
                    Some(kind),
                    JsonView::Object(
                        fields.insert("type"@, jtext(kind)).insert(
                            "sequence_number"@,
                            jint(self.state.sequence_number),
                        ),
                    ),
                ),
            ),
        }
    }
}

/// Nothing written yet.
pub open spec fn blank(state: StateView) -> Written {
    Written { state, out: Seq::empty() }
}

fn emit(state: &mut StreamState, out: &mut Vec<SseEvent>, kind: &str, fields: JsonMap)
    ensures
        (Written { state: final(state)@, out: views(final(out)@) }) == (Written {
            state: old(state)@,
            out: views(old(out)@),
        }).emit(kind@, fields@),
{
    let mut value = fields;
    value.put_text("type", kind);
    value.put_uint("sequence_number", state.sequence_number);
    state.sequence_number = state.sequence_number.wrapping_add(1);
    add_sse(out, SseEvent::json(Some(kind), &Json::object(value)));
}

/// The value of a response in a stream.
pub open spec fn response_object(
    s: StateView,
    status: Seq<char>,
    usage: Option<UsageView>,
    now: i64,
) -> Fields {
    no_fields().insert("id"@, jopt(s.id)).insert("object"@, jtext("response"@)).insert(
        "created_at"@,
        JsonView::Number(int_num(now)),
    ).insert("status"@, jtext(status)).insert("model"@, jopt(s.model)).insert(
        "output"@,
        JsonView::Array(s.completed_items),
    ).insert(
        "usage"@,
        match usage {
            Some(usage) => responses_usage_value(usage),
            None => JsonView::Null,
        },
    )
}

fn response_stream_object(state: &StreamState, status: &str, usage: &Option<LLMUsage>, now: i64)
    -> (r: JsonMap)
    ensures
        r@ == response_object(state@, status@, opt_usage(*usage), now),
{
    let mut value = JsonMap::new();
    value.put("id", Json::opt_text(borrow(&state.id)));
    value.put_text("object", "response");
    value.put("created_at", Json::signed(now));
    value.put_text("status", status);
    value.put("model", Json::opt_text(borrow(&state.model)));
    value.put_array("output", copy_all(&state.completed_items));
    let usage = match usage {
        Some(usage) => responses_usage_to_value(usage),
        None => Json::null(),
    };
    value.put("usage", usage);
    value
}

/// The identifier of the item that a part becomes.
pub open spec fn content_id_text(c: ContentView, ids: IdsView) -> Seq<char> {
    match c.kind {
        KindView::ToolCall { .. } => "fc_"@ + ids.item,
        KindView::Reasoning { .. } => "rs_"@ + ids.item,
        _ => "msg_"@ + ids.item,
    }
}

fn content_id(content: &LLMContent, ids: Option<&FreshIds>) -> (r: String)
    ensures
        r@ == content_id_text(content@, opt_ids(ids)),
{
    match &content.kind {
        LLMContentKind::ToolCall { .. } => cat("fc_", item_id(ids)),
        LLMContentKind::Reasoning { .. } => cat("rs_", item_id(ids)),
        _ => cat("msg_", item_id(ids)),
    }
}

/// The kind of the item that a part becomes, and the item at its start.
pub open spec fn item_started(c: ContentView, id: Seq<char>) -> Result<
    (Seq<char>, JsonView),
    ErrorView,
> {
    let base = no_fields().insert("id"@, jtext(id));
    match c.kind {
        KindView::ToolCall { id: call, name, .. } => Ok(
            (
                "tool_call"@,
                JsonView::Object(
                    base.insert("type"@, jtext("function_call"@)).insert(
                        "status"@,
                        jtext("in_progress"@),
                    ).insert("call_id"@, jopt(call)).insert("name"@, jtext(name)).insert(
                        "arguments"@,
                        jtext(""@),
                    ),
                ),
            ),
        ),
        KindView::Reasoning { .. } => Ok(
            (
                "reasoning"@,
                JsonView::Object(
                    base.insert("type"@, jtext("reasoning"@)).insert(
                        "status"@,
                        jtext("in_progress"@),
                    ).insert("summary"@, array0()),
                ),
            ),
        ),
        KindView::ToolResult { .. } => Err(
            ErrorView::Unsupported("Responses output stream cannot contain tool results"@),
        ),
        _ => Ok(
            (
                if c.kind is Refusal {
                    "refusal"@
                } else {
                    "text"@
                },
                JsonView::Object(
                    base.insert("type"@, jtext("message"@)).insert(
                        "status"@,
                        jtext("in_progress"@),
                    ).insert("role"@, jtext("assistant"@)).insert("content"@, array0()),
                ),
            ),
        ),
    }
}

fn response_stream_item(content: &LLMContent, id: &str) -> (r: Result<
    (&'static str, Json),
    AdapterError,
>)
    ensures
        match r {
            Ok((kind, item)) => item_started(content@, id@) == Ok::<
                (Seq<char>, JsonView),
                ErrorView,
            >((kind@, item@)),
            Err(e) => item_started(content@, id@) == Err::<(Seq<char>, JsonView), ErrorView>(e@),
        },
{
    let mut item = JsonMap::new();
    item.put_text("id", id);
    match &content.kind {
        LLMContentKind::ToolCall { id: call, name, .. } => {
            item.put_text("type", "function_call");
            item.put_text("status", "in_progress");
            item.put("call_id", Json::opt_text(borrow(call)));
            item.put_text("name", name.as_str());
            item.put_text("arguments", "");
            Ok(("tool_call", Json::object(item)))
        },
        LLMContentKind::Reasoning { .. } => {
            item.put_text("type", "reasoning");
            item.put_text("status", "in_progress");
            item.put("summary", json_array0());
            Ok(("reasoning", Json::object(item)))
        },
        LLMContentKind::ToolResult { .. } => Err(
            AdapterError::Unsupported(
                "Responses output stream cannot contain tool results".to_owned(),
            ),
        ),
        other => {
            let kind = match other {
                LLMContentKind::Refusal { .. } => "refusal",
                _ => "text",
            };
            item.put_text("type", "message");
            item.put_text("status", "in_progress");
            item.put_text("role", "assistant");
            item.put("content", json_array0());
            Ok((kind, Json::object(item)))
        },
    }
}

/// The citations of a part, as values.
pub open spec fn cited_values(s: StateView, index: usize) -> Result<Seq<JsonView>, ErrorView> {
    match get(s.content_annotations, index) {
        Some(list) => try_map(list, openai_annotation_writer(responses())),
        None => Ok(Seq::empty()),
    }
}

fn citations_of(state: &StreamState, index: usize) -> (r: Result<Vec<Json>, AdapterError>)
    ensures
        outcomes(r) == cited_values(state@, index),
{
    match annotations_at(&state.content_annotations, index) {
        Some(list) => annotations_to_openai(list.as_slice(), LLMProtocol::OpenAiResponses),
        None => {
            let none: Vec<Json> = Vec::new();
            assert(views(none@) =~= Seq::empty());
            Ok(none)
        },
    }
}

/// A text of the output.
pub open spec fn output_text(text: Seq<char>, annotations: JsonView) -> JsonView {
    object3("type"@, jtext("output_text"@), "text"@, jtext(text), "annotations"@, annotations)
}

/// What was collected at `index`.
pub open spec fn buffered(s: StateView, index: usize) -> Seq<char> {
    or_text(get(s.content_buffers, index), ""@)
}

/// The item that a part has become at its end.
pub open spec fn item_completed(
    s: StateView,
    index: usize,
    id: Seq<char>,
    kind: Seq<char>,
) -> Result<JsonView, ErrorView> {
    let base = no_fields().insert("id"@, jtext(id));
    let content = buffered(s, index);
    if kind == "tool_call"@ {
        Ok(
            JsonView::Object(
                base.insert("type"@, jtext("function_call"@)).insert(
                    "status"@,
                    jtext("completed"@),
                ).insert("call_id"@, jopt(get(s.tool_call_ids, index))).insert(
                    "name"@,
                    jopt(get(s.tool_names, index)),
                ).insert("arguments"@, jtext(content)),
            ),
        )
    } else if kind == "reasoning"@ {
        Ok(
            JsonView::Object(
                base.insert("type"@, jtext("reasoning"@)).insert(
                    "status"@,
                    jtext("completed"@),
                ).insert(
                    "summary"@,
                    array1(object2("type"@, jtext("summary_text"@), "text"@, jtext(content))),
                ),
            ),
        )
    } else if kind == "refusal"@ {
        Ok(
            JsonView::Object(
                base.insert("type"@, jtext("message"@)).insert(
                    "status"@,
                    jtext("completed"@),
                ).insert("role"@, jtext("assistant"@)).insert(
                    "content"@,
                    array1(object2("type"@, jtext("refusal"@), "refusal"@, jtext(content))),
                ),
            ),
        )
    } else {
        match cited_values(s, index) {
            Err(e) => Err(e),
            Ok(list) => Ok(
                JsonView::Object(
                    base.insert("type"@, jtext("message"@)).insert(
                        "status"@,
                        jtext("completed"@),
                    ).insert("role"@, jtext("assistant"@)).insert(
                        "content"@,
                        array1(output_text(content, JsonView::Array(list))),
                    ),
                ),
            ),
        }
    }
}

fn completed_response_item(state: &StreamState, index: usize, id: &str, kind: &str) -> (r: Result<
    Json,
    AdapterError,
>)
    ensures
        outcome(r) == item_completed(state@, index, id@, kind@),
{
    let content = text_at(&state.content_buffers, index).unwrap_or("");
    let mut item = JsonMap::new();
    item.put_text("id", id);
    if same(kind, "tool_call") {
        item.put_text("type", "function_call");
        item.put_text("status", "completed");
        item.put("call_id", Json::opt_text(text_at(&state.tool_call_ids, index)));
        item.put("name", Json::opt_text(text_at(&state.tool_names, index)));
        item.put_text("arguments", content);
    } else if same(kind, "reasoning") {
        item.put_text("type", "reasoning");
        item.put_text("status", "completed");
        item.put(
            "summary",
            json_array1(json2("type", Json::text("summary_text"), "text", Json::text(content))),
        );
    } else if same(kind, "refusal") {
        item.put_text("type", "message");
        item.put_text("status", "completed");
        item.put_text("role", "assistant");
        item.put(
            "content",
            json_array1(json2("type", Json::text("refusal"), "refusal", Json::text(content))),
        );
    } else {
        item.put_text("type", "message");
        item.put_text("status", "completed");
        item.put_text("role", "assistant");
        match citations_of(state, index) {
            Ok(list) => {
                item.put(
                    "content",
                    json_array1(
                        json3(
                            "type",
                            Json::text("output_text"),
                            "text",
                            Json::text(content),
                            "annotations",
                            Json::array(list),
                        ),
                    ),
                );
            },
            Err(e) => {
                return Err(e);
            },
        }
    }
    Ok(Json::object(item))
}

/// The state with `text` added to what was collected at `index`.
pub open spec fn collected(s: StateView, index: usize, text: Seq<char>) -> StateView {
    StateView { content_buffers: s.content_buffers.insert(index, buffered(s, index) + text), ..s }
}

fn collect(state: &mut StreamState, index: usize, text: &str)
    ensures
        final(state)@ == collected(old(state)@, index, text@),
{
    let mut all = text_at(&state.content_buffers, index).unwrap_or("").to_owned();
    all.push_str(text);
    put_text(&mut state.content_buffers, index, all);
}

/// The identifier of the item at `index`, or a new one.
pub open spec fn known_id(s: StateView, index: usize, other: Seq<char>) -> Seq<char> {
    or_text(get(s.content_ids, index), other)
}

fn id_at(state: &StreamState, index: usize, prefix: &str, ids: Option<&FreshIds>) -> (r: String)
    ensures
        r@ == known_id(state@, index, prefix@ + opt_ids(ids).item),
{
    match text_at(&state.content_ids, index) {
        Some(id) => id.to_owned(),
        None => cat(prefix, item_id(ids)),
    }
}

/// The fields that say which item an event is about.
pub open spec fn about(id: Seq<char>, index: usize) -> Fields {
    no_fields().insert("item_id"@, jtext(id)).insert("output_index"@, jint(index as u64))
}

fn about_item(id: &str, index: usize) -> (r: JsonMap)
    ensures
        r@ == about(id@, index),
{
    let mut fields = JsonMap::new();
    fields.put_text("item_id", id);
    fields.put_uint("output_index", index as u64);
    fields
}

/// The state once the start of a part is remembered.
pub open spec fn remembered(s: StateView, target: usize, c: ContentView, ids: IdsView) -> StateView {
    let s = StateView {
        content_ids: s.content_ids.insert(target, content_id_text(c, ids)),
        content_buffers: s.content_buffers.insert(target, Seq::empty()),
        ..s
    };
    match c.kind {
        KindView::Text { annotations, .. } => StateView {
            content_annotations: s.content_annotations.insert(target, annotations),
            ..s
        },
        KindView::ToolCall { id, name, .. } => StateView {
            tool_names: s.tool_names.insert(target, name),
            tool_call_ids: s.tool_call_ids.insert(target, or_text(id, "call_"@ + ids.call)),
            ..s
        },
        _ => s,
    }
}

fn remember(
    state: &mut StreamState,
    target: usize,
    content: &LLMContent,
    id: &str,
    ids: Option<&FreshIds>,
)
    requires
        id@ == content_id_text(content@, opt_ids(ids)),
    ensures
        final(state)@ == remembered(old(state)@, target, content@, opt_ids(ids)),
{
    put_text(&mut state.content_ids, target, id.to_owned());
    let empty = String::new();
    assert(empty@ =~= Seq::empty());
    put_text(&mut state.content_buffers, target, empty);
    match &content.kind {
        LLMContentKind::Text { annotations, .. } => {
            put_annotations(
                &mut state.content_annotations,
                target,
                copy_annotations(annotations),
            );
        },
        LLMContentKind::ToolCall { id, name, .. } => {
            put_text(&mut state.tool_names, target, name.clone());
            put_text(&mut state.tool_call_ids, target, or_fresh(id, "call_", call_id(ids)));
        },
        _ => {},
    }
}

/// What the start of a part is written as.
pub open spec fn start_written(s: StateView, index: usize, c: ContentView, ids: IdsView) -> (
    StateView,
    Result<Seq<SseView>, ErrorView>,
) {
    let (s, target) = target_of(s, index);
    let id = content_id_text(c, ids);
    let s = remembered(s, target, c, ids);
    match item_started(c, id) {
        Err(e) => (s, Err(e)),
        Ok((kind, item)) => {
            let s = StateView {
                content_kinds: s.content_kinds.insert(target, kind),
                open_content: s.open_content.insert(target),
                ..s
            };
            let w = blank(s).emit(
                "response.output_item.added"@,
                no_fields().insert("output_index"@, jint(target as u64)).insert("item"@, item),
            );
            let w = if kind == "text"@ || kind == "refusal"@ {
                w.emit(
                    "response.content_part.added"@,
                    about(id, target).insert("content_index"@, jint(0)).insert(
                        "part"@,
                        if kind == "text"@ {
                            output_text(""@, array0())
                        } else {
                            object2("type"@, jtext("refusal"@), "refusal"@, jtext(""@))
                        },
                    ),
                )
            } else {
                w
            };
            (w.state, Ok(w.out))
        },
    }
}

fn write_start(
    index: usize,
    content: &LLMContent,
    state: &mut StreamState,
    ids: Option<&FreshIds>,
) -> (r: Result<Vec<SseEvent>, AdapterError>)
    ensures
        (final(state)@, outcomes(r)) == start_written(
            old(state)@,
            index,
            content@,
            opt_ids(ids),
        ),
{
    let target = state.target_content_index(index);
    let id = content_id(content, ids);
    remember(state, target, content, id.as_str(), ids);
    let (kind, item) = match response_stream_item(content, id.as_str()) {
        Ok(started) => started,
        Err(e) => {
            return Err(e);
        },
    };
    put_text(&mut state.content_kinds, target, kind.to_owned());
    state.open_content.insert(target);
    let mut out = no_sse();
    let mut fields = JsonMap::new();
    fields.put_uint("output_index", target as u64);
    fields.put("item", item);
    emit(state, &mut out, "response.output_item.added", fields);
    let text = same(kind, "text");
    if text || same(kind, "refusal") {
        let part = if text {
            json3(
                "type",
                Json::text("output_text"),
                "text",
                Json::text(""),
                "annotations",
                json_array0(),
            )
        } else {
            json2("type", Json::text("refusal"), "refusal", Json::text(""))
        };
        let mut fields = about_item(id.as_str(), target);
        fields.put_uint("content_index", 0);
        fields.put("part", part);
        emit(state, &mut out, "response.content_part.added", fields);
    }
    Ok(out)
}

/// What an addition to a text is written as.
pub open spec fn delta_written(
    s: StateView,
    index: usize,
    kind: Seq<char>,
    text: Seq<char>,
    ids: IdsView,
) -> Written {
    let (s, target) = target_of(s, index);
    let s = collected(s, target, text);
    blank(s).emit(
        kind,
        about(known_id(s, target, "msg_"@ + ids.item), target).insert(
            "content_index"@,
            jint(0),
        ).insert("delta"@, jtext(text)),
    )
}

fn write_delta(
    index: usize,
    kind: &str,
    text: &str,
    state: &mut StreamState,
    ids: Option<&FreshIds>,
) -> (r: Vec<SseEvent>)
    ensures
        (Written { state: final(state)@, out: views(r@) }) == delta_written(
            old(state)@,
            index,
            kind@,
            text@,
            opt_ids(ids),
        ),
{
    let target = state.target_content_index(index);
    collect(state, target, text);
    let id = id_at(state, target, "msg_", ids);
    let mut fields = about_item(id.as_str(), target);
    fields.put_uint("content_index", 0);
    fields.put_text("delta", text);
    let mut out = no_sse();
    emit(state, &mut out, kind, fields);
    out
}

/// What a citation is written as.
pub open spec fn citation_written(
    s: StateView,
    index: usize,
    annotation: AnnotationView,
    ids: IdsView,
) -> (StateView, Result<Seq<SseView>, ErrorView>) {
    let (s, target) = target_of(s, index);
    match openai_annotation_value(annotation, responses()) {
        Err(e) => (s, Err(e)),
        Ok(value) => {
            let list = match get(s.content_annotations, target) {
                Some(list) => list,
                None => Seq::empty(),
            };
            let s = StateView {
                content_annotations: s.content_annotations.insert(target, list.push(annotation)),
                ..s
            };
            let w = blank(s).emit(
                "response.output_text.annotation.added"@,
                about(known_id(s, target, "msg_"@ + ids.item), target).insert(
                    "content_index"@,
                    jint(0),
                ).insert("annotation_index"@, jint(list.len() as u64)).insert(
                    "annotation"@,
                    value,
                ),
            );
            (w.state, Ok(w.out))
        },
    }
}

fn write_citation(
    index: usize,
    annotation: &LLMAnnotation,
    state: &mut StreamState,
    ids: Option<&FreshIds>,
) -> (r: Result<Vec<SseEvent>, AdapterError>)
    ensures
        (final(state)@, outcomes(r)) == citation_written(
            old(state)@,
            index,
            annotation@,
            opt_ids(ids),
        ),
{
    let target = state.target_content_index(index);
    let value = match annotation_to_openai(annotation, LLMProtocol::OpenAiResponses) {
        Ok(value) => value,
        Err(e) => {
            return Err(e);
        },
    };
    let mut list = match annotations_at(&state.content_annotations, target) {
        Some(list) => copy_annotations(list),
        None => {
            let none: Vec<LLMAnnotation> = Vec::new();
            assert(views(none@) =~= Seq::empty());
            none
        },
    };
    let position = list.len() as u64;
    let ghost before = views(list@);
    list.push(annotation.clone());
    assert(views(list@) =~= before.push(annotation@));
    put_annotations(&mut state.content_annotations, target, list);
    let id = id_at(state, target, "msg_", ids);
    let mut fields = about_item(id.as_str(), target);
    fields.put_uint("content_index", 0);
    fields.put_uint("annotation_index", position);
    fields.put("annotation", value);
    let mut out = no_sse();
    emit(state, &mut out, "response.output_text.annotation.added", fields);
    Ok(out)
}

/// What an addition to a thought is written as.
pub open spec fn reasoning_written(
    s: StateView,
    index: usize,
    text: Option<Seq<char>>,
    signature: Option<Seq<char>>,
    ids: IdsView,
) -> Written {
    let (s, target) = target_of(s, index);
    let s = match text {
        Some(text) => collected(s, target, text),
        None => s,
    };
    let id = known_id(s, target, "rs_"@ + ids.item);
    let w = blank(s);
    let w = match text {
        Some(text) => w.emit(
            "response.reasoning_summary_text.delta"@,
            about(id, target).insert("summary_index"@, jint(0)).insert("delta"@, jtext(text)),
        ),
        None => w,
    };
    match signature {
        Some(signature) => w.emit(
            "response.reasoning_text.delta"@,
            about(id, target).insert("delta"@, jtext(signature)),
        ),
        None => w,
    }
}

fn write_reasoning(
    index: usize,
    text: &Option<String>,
    signature: &Option<String>,
    state: &mut StreamState,
    ids: Option<&FreshIds>,
) -> (r: Vec<SseEvent>)
    ensures
        (Written { state: final(state)@, out: views(r@) }) == reasoning_written(
            old(state)@,
            index,
            opt_text(*text),
            opt_text(*signature),
            opt_ids(ids),
        ),
{
    let target = state.target_content_index(index);
    if let Some(text) = text {
        collect(state, target, text.as_str());
    }
    let id = id_at(state, target, "rs_", ids);
    let mut out = no_sse();
    if let Some(text) = text {
        let mut fields = about_item(id.as_str(), target);
        fields.put_uint("summary_index", 0);
        fields.put_text("delta", text.as_str());
        emit(state, &mut out, "response.reasoning_summary_text.delta", fields);
    }
    if let Some(signature) = signature {
        let mut fields = about_item(id.as_str(), target);
        fields.put_text("delta", signature.as_str());
        emit(state, &mut out, "response.reasoning_text.delta", fields);
    }
    out
}

/// What an addition to the arguments of a call is written as.
pub open spec fn arguments_written(s: StateView, index: usize, delta: Seq<char>, ids: IdsView)
    -> Written {
    let (s, target) = target_of(s, index);
    let s = collected(s, target, delta);
    blank(s).emit(
        "response.function_call_arguments.delta"@,
        about(known_id(s, target, "fc_"@ + ids.item), target).insert("delta"@, jtext(delta)),
    )
}

fn write_arguments(index: usize, delta: &str, state: &mut StreamState, ids: Option<&FreshIds>)
    -> (r: Vec<SseEvent>)
    ensures
        (Written { state: final(state)@, out: views(r@) }) == arguments_written(
            old(state)@,
            index,
            delta@,
            opt_ids(ids),
        ),
{
    let target = state.target_content_index(index);
    collect(state, target, delta);
    let id = id_at(state, target, "fc_", ids);
    let mut fields = about_item(id.as_str(), target);
    fields.put_text("delta", delta);
    let mut out = no_sse();
    emit(state, &mut out, "response.function_call_arguments.delta", fields);
    out
}

/// What closes the content of an item, before the item itself is closed.
pub open spec fn content_closed(
    s: StateView,
    target: usize,
    id: Seq<char>,
    kind: Seq<char>,
) -> Result<Written, ErrorView> {
    let content = buffered(s, target);
    if kind == "text"@ {
        match cited_values(s, target) {
            Err(e) => Err(e),
            Ok(list) => Ok(
                blank(s).emit(
                    "response.output_text.done"@,
                    about(id, target).insert("content_index"@, jint(0)).insert(
                        "text"@,
                        jtext(content),
                    ),
                ).emit(
                    "response.content_part.done"@,
                    about(id, target).insert("content_index"@, jint(0)).insert(
                        "part"@,
                        output_text(content, JsonView::Array(list)),
                    ),
                ),
            ),
        }
    } else if kind == "tool_call"@ {
        Ok(
            blank(s).emit(
                "response.function_call_arguments.done"@,
                about(id, target).insert("arguments"@, jtext(content)),
            ),
        )
    } else {
        Ok(blank(s))
    }
}

/// What the end of a part is written as.
pub open spec fn end_written(s: StateView, index: usize) -> (
    StateView,
    Result<Seq<SseView>, ErrorView>,
) {
    let (s, target) = target_of(s, index);
    let id = or_text(get(s.content_ids, target), ""@);
    let kind = or_text(get(s.content_kinds, target), "text"@);
    match content_closed(s, target, id, kind) {
        Err(e) => (s, Err(e)),
        Ok(w) => match item_completed(w.state, target, id, kind) {
            Err(e) => (w.state, Err(e)),
            Ok(item) => {
                let w = w.emit(
                    "response.output_item.done"@,
                    no_fields().insert("output_index"@, jint(target as u64)).insert("item"@, item),
                );
                (
                    StateView {
                        completed_items: w.state.completed_items.push(item),
                        open_content: w.state.open_content.remove(target),
                        ..w.state
                    },
                    Ok(w.out),
                )
            },
        },
    }
}

fn close_content(state: &mut StreamState, target: usize, id: &str, kind: &str) -> (r: Result<
    Vec<SseEvent>,
    AdapterError,
>)
    ensures
        match r {
            Ok(out) => content_closed(old(state)@, target, id@, kind@) == Ok::<Written, ErrorView>(
                Written { state: final(state)@, out: views(out@) },
            ),
            Err(e) => final(state)@ == old(state)@ && content_closed(
                old(state)@,
                target,
                id@,
                kind@,
            ) == Err::<Written, ErrorView>(e@),
        },
{
    let content = text_at(&state.content_buffers, target).unwrap_or("").to_owned();
    let mut out = no_sse();
    if same(kind, "text") {
        let list = match citations_of(state, target) {
            Ok(list) => list,
            Err(e) => {
                return Err(e);
            },
        };
        let mut fields = about_item(id, target);
        fields.put_uint("content_index", 0);
        fields.put_text("text", content.as_str());
        emit(state, &mut out, "response.output_text.done", fields);
        let part = json3(
            "type",
            Json::text("output_text"),
            "text",
            Json::text(content.as_str()),
            "annotations",
            Json::array(list),
        );
        let mut fields = about_item(id, target);
        fields.put_uint("content_index", 0);
        fields.put("part", part);
        emit(state, &mut out, "response.content_part.done", fields);
    } else if same(kind, "tool_call") {
        let mut fields = about_item(id, target);
        fields.put_text("arguments", content.as_str());
        emit(state, &mut out, "response.function_call_arguments.done", fields);
    }
    Ok(out)
}

fn write_content_end(index: usize, state: &mut StreamState) -> (r: Result<
    Vec<SseEvent>,
    AdapterError,
>)
    ensures
        (final(state)@, outcomes(r)) == end_written(old(state)@, index),
{
    let target = state.target_content_index(index);
    let id = text_at(&state.content_ids, target).unwrap_or("").to_owned();
    let kind = text_at(&state.content_kinds, target).unwrap_or("text").to_owned();
    let mut out = match close_content(state, target, id.as_str(), kind.as_str()) {
        Ok(out) => out,
        Err(e) => {
            return Err(e);
        },
    };
    let item = match completed_response_item(state, target, id.as_str(), kind.as_str()) {
        Ok(item) => item,
        Err(e) => {
            return Err(e);
        },
    };
    let mut fields = JsonMap::new();
    fields.put_uint("output_index", target as u64);
    fields.put("item", item.clone());
    emit(state, &mut out, "response.output_item.done", fields);
    let ghost before = views(state.completed_items@);
    state.completed_items.push(item);
    assert(views(state.completed_items@) =~= before.push(item@));
    state.open_content.remove(&target);
    Ok(out)
}

/// The event that ends a response, by its status.
pub open spec fn final_event(status: Seq<char>) -> Seq<char> {
    if status == "failed"@ {
        "response.failed"@
    } else if status == "incomplete"@ {
        "response.incomplete"@
    } else {
        "response.completed"@
    }
}

/// What the end of a message is written as.
pub open spec fn finish_written(
    s: StateView,
    finish_reason: Option<LLMFinishReason>,
    usage: Option<UsageView>,
    metadata: Fields,
    now: i64,
) -> Written {
    let s = match usage {
        Some(usage) => StateView { usage: Some(usage), ..s },
        None => s,
    };
    let status = status_text(finish_reason);
    let response = response_object(s, status, s.usage, now).union_prefer_right(metadata);
    let response = if status == "incomplete"@ {
        response.insert(
            "incomplete_details"@,
            object1("reason"@, jtext(incomplete_text(finish_reason))),
        )
    } else {
        response
    };
    let w = blank(s).emit(
        final_event(status),
        no_fields().insert("response"@, JsonView::Object(response)),
    );
    Written { state: StateView { ended: true, ..w.state }, ..w }
}

fn write_finish(
    finish_reason: Option<LLMFinishReason>,
    usage: &Option<LLMUsage>,
    metadata: &JsonMap,
    state: &mut StreamState,
    now: i64,
) -> (r: Vec<SseEvent>)
    ensures
        (Written { state: final(state)@, out: views(r@) }) == finish_written(
            old(state)@,
            finish_reason,
            opt_usage(*usage),
            metadata@,
            now,
        ),
{
    if let Some(usage) = usage {
        state.usage = Some(usage.clone());
    }
    let status = responses_status(finish_reason);
    let kind = if same(status, "failed") {
        "response.failed"
    } else if same(status, "incomplete") {
        "response.incomplete"
    } else {
        "response.completed"
    };
    let mut response = response_stream_object(state, status, &state.usage, now);
    response.extend(metadata);
    if same(status, "incomplete") {
        response.put(
            "incomplete_details",
            json1("reason", Json::text(incomplete_reason(finish_reason))),
        );
    }
    let mut fields = JsonMap::new();
    fields.put_object("response", response);
    let mut out = no_sse();
    emit(state, &mut out, kind, fields);
    state.ended = true;
    out
}

/// The state after an event is written, and what it is written as.
pub open spec fn responses_event_written(s: StateView, event: EventView, ids: IdsView, now: i64)
    -> (StateView, Result<Seq<SseView>, ErrorView>) {
    match event {
        EventView::MessageStart { id, model, usage } => {
            let s = StateView {
                id: Some(or_text(id, "resp_"@ + ids.item)),
                model,
                usage,
                started: true,
                ..s
            };
            let w = blank(s).emit(
                "response.created"@,
                no_fields().insert(
                    "response"@,
                    JsonView::Object(response_object(s, "in_progress"@, usage, now)),
                ),
            );
            (w.state, Ok(w.out))
        },
        EventView::ContentStart { index, content } => start_written(s, index, content, ids),
        EventView::TextDelta { index, text } => {
            let w = delta_written(s, index, "response.output_text.delta"@, text, ids);
            (w.state, Ok(w.out))
        },
        EventView::RefusalDelta { index, refusal } => {
            let w = delta_written(s, index, "response.refusal.delta"@, refusal, ids);
            (w.state, Ok(w.out))
        },
        EventView::AnnotationAdded { index, annotation } => citation_written(
            s,
            index,
            annotation,
            ids,
        ),
        EventView::ReasoningDelta { index, text, signature } => {
            let w = reasoning_written(s, index, text, signature, ids);
            (w.state, Ok(w.out))
        },
        EventView::ToolCallDelta { index, arguments_delta, .. } => {
            let w = arguments_written(s, index, arguments_delta, ids);
            (w.state, Ok(w.out))
        },
        EventView::ContentEnd { index } => end_written(s, index),
        EventView::Usage { usage } => (StateView { usage: Some(usage), ..s }, Ok(Seq::empty())),
        EventView::MessageEnd { finish_reason, usage, metadata } => {
            let w = finish_written(s, finish_reason, usage, metadata, now);
            (w.state, Ok(w.out))
        },
        EventView::Error { message, metadata } => {
            let w = blank(s).emit(
                "error"@,
                no_fields().insert(
                    "error"@,
                    JsonView::Object(metadata.insert("message"@, jtext(message))),
                ),
            );
            (w.state, Ok(w.out))
        },
        EventView::Raw { protocol, value } => if protocol != responses() {
            (
                s,
                Err(
                    ErrorView::Unsupported(
                        "OpenAI Responses cannot represent a "@ + protocol_text(protocol)
                            + " stream event"@,
                    ),
                ),
            )
        } else {
            (s, Ok(seq![json_event(value.at("type"@).text(), value)]))
        },
    }
}

/// `responses_event_written` at one time.
pub open spec fn responses_write_step(now: i64) -> WriteStep {
    |s: StateView, event: EventView, ids: IdsView| responses_event_written(s, event, ids, now)
}

fn write_event(
    event: &LLMStreamEvent,
    state: &mut StreamState,
    ids: Option<&FreshIds>,
    now: i64,
) -> (r: Result<Vec<SseEvent>, AdapterError>)
    ensures
        (final(state)@, outcomes(r)) == responses_event_written(
            old(state)@,
            event@,
            opt_ids(ids),
            now,
        ),
{
    match event {
        LLMStreamEvent::MessageStart { id, model, usage } => {
            state.id = Some(or_fresh(id, "resp_", item_id(ids)));
            state.model = copy_text(model);
            state.usage = copy_usage(usage);
            state.started = true;
            let mut fields = JsonMap::new();
            fields.put_object(
                "response",
                response_stream_object(state, "in_progress", usage, now),
            );
            let mut out = no_sse();
            emit(state, &mut out, "response.created", fields);
            Ok(out)
        },
        LLMStreamEvent::ContentStart { index, content } => write_start(
            *index,
            content,
            state,
            ids,
        ),
        LLMStreamEvent::TextDelta { index, text } => Ok(
            write_delta(*index, "response.output_text.delta", text.as_str(), state, ids),
        ),
        LLMStreamEvent::RefusalDelta { index, refusal } => Ok(
            write_delta(*index, "response.refusal.delta", refusal.as_str(), state, ids),
        ),
        LLMStreamEvent::AnnotationAdded { index, annotation } => write_citation(
            *index,
            annotation,
            state,
            ids,
        ),
        LLMStreamEvent::ReasoningDelta { index, text, signature } => Ok(
            write_reasoning(*index, text, signature, state, ids),
        ),
        LLMStreamEvent::ToolCallDelta { index, arguments_delta, .. } => Ok(
            write_arguments(*index, arguments_delta.as_str(), state, ids),
        ),
        LLMStreamEvent::ContentEnd { index } => write_content_end(*index, state),
        LLMStreamEvent::Usage { usage } => {
            state.usage = Some(usage.clone());
            Ok(no_sse())
        },
        LLMStreamEvent::MessageEnd { finish_reason, usage, metadata } => Ok(
            write_finish(*finish_reason, usage, metadata, state, now),
        ),
        LLMStreamEvent::Error { message, metadata } => {
            let mut error = metadata.clone();
            error.put_text("message", message.as_str());
            let mut fields = JsonMap::new();
            fields.put_object("error", error);
            let mut out = no_sse();
            emit(state, &mut out, "error", fields);
            Ok(out)
        },
        LLMStreamEvent::Raw { protocol, value } => {
            if *protocol != LLMProtocol::OpenAiResponses {
                let mut message = "OpenAI Responses cannot represent a ".to_owned();
                message.push_str(protocol_name(*protocol));
                message.push_str(" stream event");
                return Err(AdapterError::Unsupported(message));
            }
            Ok(super::stream::one_sse(SseEvent::json(value.text_at("type"), value)))
        },
    }
}

/// Writes events, with the given identifiers where the format wants one that the stream does not
/// have, and the given time of creation.
pub fn write_events(
    events: &[LLMStreamEvent],
    state: &mut StreamState,
    ids: Option<&FreshIds>,
    now: i64,
) -> (r: Result<Vec<SseEvent>, AdapterError>)
    ensures
        (final(state)@, outcomes(r)) == written(
            views(events@),
            opt_ids(ids),
            old(state)@,
            responses_write_step(now),
        ),
{
    let ghost all = views(events@);
    let ghost named = opt_ids(ids);
    let ghost start = state@;
    let ghost step = responses_write_step(now);
    let mut out = no_sse();
    let mut i: usize = 0;
    assert(all.take(0) =~= Seq::empty());
    while i < events.len()
        invariant
            all == views(events@),
            named == opt_ids(ids),
            start == old(state)@,
            step == responses_write_step(now),
            i <= events@.len(),
            written(all.take(i as int), named, start, step) == (
                state@,
                Ok::<Seq<SseView>, ErrorView>(views(out@)),
            ),
        decreases events@.len() - i,
    {
        assert(all.take(i + 1).drop_last() =~= all.take(i as int));
        assert(all.take(i + 1).last() == events@[i as int]@);
        let ghost done = views(out@);
        match write_event(&events[i], state, ids_at(ids, i), now) {
            Ok(mut more) => {
                let ghost added = views(more@);
                out.append(&mut more);
                assert(views(out@) =~= done + added);
            },
            Err(e) => {
                proof {
                    written_fails(all, named, start, step, i + 1);
                }
                return Err(e);
            },
        }
        i = i + 1;
    }
    assert(all.take(i as int) =~= all);
    Ok(out)
}

} // verus!
