//! The Chat Completions format: streams.

use super::annotations::{
    annotation_from_openai, annotation_to_openai, openai_annotation, openai_annotation_value,
};
use super::common::{
    array0, array1, cannot, json1, json2, json3, json_array0, json_array1, json_object0, object0,
    object1, object2, object3, protocol_name, protocol_text,
};
use super::error::{AdapterError, ErrorView};
use super::fresh::{ids_at, item_id, opt_ids, FreshIds, IdsView};
use super::openai_chat::{
    chat, chat_finish_reason_to_value, chat_part, chat_reason_of, chat_reason_text, chat_usage_at,
    chat_usage_of_opt, chat_usage_to_value, chat_usage_value, either_str, marked, only_object,
    or_fresh, parse_chat_finish_reason,
};
use super::sse::{json_event, SseEvent, SseView};
use super::state::{ascending, get, target_of, StateView, StreamState};
use super::stream::{
    add_event, content_ends, ends, ensure_content_started, no_sse, one_sse, progress, written,
    written_fails, Progress, WriteStep,
};
use crate::json::{
    int_num, jint, jopt, jtext, opt_view, with_some, with_text, Json, JsonMap, JsonView,
};
use crate::model::{
    copy_text, copy_usage, no_fields, opt_usage, text_part, ContentView, EventView, Fields,
    KindView, LLMContent, LLMContentKind, LLMFinishReason, LLMProtocol, LLMStreamEvent, LLMUsage,
};
use crate::seqs::{outcomes, views};
use crate::text::{borrow, either, opt_str, opt_text, or_text, own, same, strings, trim, trimmed};
use crate::wire::{parse, text_value};
use vstd::prelude::*;
use vstd::std_specs::btree::group_btree_axioms;

verus! {

broadcast use group_btree_axioms;

/// A thought without words.
pub open spec fn empty_reasoning() -> ContentView {
    chat_part(
        KindView::Reasoning {
            text: None,
            summary: Seq::empty(),
            signature: None,
            encrypted_content: None,
        },
        no_fields(),
    )
}

fn reasoning_content() -> (r: LLMContent)
    ensures
        r@ == empty_reasoning(),
{
    let summary: Vec<String> = Vec::new();
    assert(strings(summary@) =~= Seq::empty());
    LLMContent {
        source: Some(LLMProtocol::OpenAiChat),
        kind: LLMContentKind::Reasoning {
            text: None,
            summary,
            signature: None,
            encrypted_content: None,
        },
        metadata: JsonMap::new(),
    }
}

/// A refusal without words.
pub open spec fn empty_refusal() -> ContentView {
    chat_part(KindView::Refusal { refusal: Seq::empty() }, no_fields())
}

fn refusal_content() -> (r: LLMContent)
    ensures
        r@ == empty_refusal(),
{
    let refusal = String::new();
    assert(refusal@ =~= Seq::empty());
    LLMContent {
        source: Some(LLMProtocol::OpenAiChat),
        kind: LLMContentKind::Refusal { refusal },
        metadata: JsonMap::new(),
    }
}

/// What the text of a delta gives.
pub open spec fn delta_text(p: Progress, delta: JsonView) -> Progress {
    match delta.at("content"@).text() {
        Some(text) => p.ensure_started(0, text_part(""@)).push(
            EventView::TextDelta { index: 0, text },
        ),
        None => p,
    }
}

/// What the thought of a delta gives.
pub open spec fn delta_reasoning(p: Progress, delta: JsonView) -> Progress {
    match either(delta.at("reasoning_content"@).text(), delta.at("reasoning"@).text()) {
        Some(text) => p.ensure_started(1, empty_reasoning()).push(
            EventView::ReasoningDelta { index: 1, text: Some(text), signature: None },
        ),
        None => p,
    }
}

/// What the refusal of a delta gives.
pub open spec fn delta_refusal(p: Progress, delta: JsonView) -> Progress {
    match delta.at("refusal"@).text() {
        Some(refusal) => p.ensure_started(2, empty_refusal()).push(
            EventView::RefusalDelta { index: 2, refusal },
        ),
        None => p,
    }
}

/// The event that a citation of a delta gives.
pub open spec fn cited(value: JsonView) -> EventView {
    EventView::AnnotationAdded { index: 0, annotation: openai_annotation(value, chat()) }
}

/// What the citations of a delta give.
pub open spec fn delta_citations(p: Progress, list: Seq<JsonView>) -> Progress {
    Progress { events: p.events + Seq::new(list.len(), |i: int| cited(list[i])), ..p }
}

/// The start of a call without arguments.
pub open spec fn empty_call(
    id: Option<Seq<char>>,
    name: Option<Seq<char>>,
    metadata: Fields,
) -> ContentView {
    chat_part(
        KindView::ToolCall { id, name: or_text(name, ""@), arguments: object0() },
        metadata,
    )
}

/// The index of the part that a call of a delta belongs to.
pub open spec fn call_index(tool: JsonView) -> usize {
    (match tool.at("index"@).uint() {
        Some(n) => n,
        None => 0u64,
    } as usize).wrapping_add(3)
}

/// What a call of a delta gives.
pub open spec fn delta_call(p: Progress, tool: JsonView) -> Progress {
    let function = tool.at("function"@);
    let id = tool.at("id"@).text();
    let name = function.at("name"@).text();
    p.ensure_started(call_index(tool), empty_call(id, name, no_fields())).push(
        EventView::ToolCallDelta {
            index: call_index(tool),
            id,
            name,
            arguments_delta: or_text(function.at("arguments"@).text(), ""@),
        },
    )
}

/// What the calls of a delta give.
pub open spec fn delta_calls(p: Progress, tools: Seq<JsonView>) -> Progress
    decreases tools.len(),
{
    if tools.len() == 0 {
        p
    } else {
        delta_call(delta_calls(p, tools.drop_last()), tools.last())
    }
}

/// What the call of the older form of a delta gives.
pub open spec fn delta_legacy_call(p: Progress, delta: JsonView) -> Progress {
    match only_object(delta.field("function_call"@)) {
        Some(function) => p.ensure_started(
            3,
            empty_call(None, function.at("name"@).text(), marked("legacy_function_call"@)),
        ).push(
            EventView::ToolCallDelta {
                index: 3,
                id: None,
                name: function.at("name"@).text(),
                arguments_delta: or_text(function.at("arguments"@).text(), ""@),
            },
        ),
        None => p,
    }
}

/// The fields of a delta that the neutral form names.
pub open spec fn delta_keys() -> Seq<Seq<char>> {
    seq![
        "role"@,
        "content"@,
        "reasoning_content"@,
        "reasoning"@,
        "refusal"@,
        "annotations"@,
        "tool_calls"@,
        "function_call"@,
    ]
}

/// Whether a delta has a field that the neutral form does not name.
pub open spec fn has_unknown(delta: JsonView) -> bool {
    crate::json::without(delta.fields_or_none(), delta_keys()) != no_fields()
}

/// What an answer of a chunk gives.
pub open spec fn chunk_choice(p: Progress, choice: JsonView, whole: JsonView) -> Progress {
    let delta = choice.at("delta"@);
    let p = delta_text(p, delta);
    let p = delta_reasoning(p, delta);
    let p = delta_refusal(p, delta);
    let p = delta_citations(p, delta.at("annotations"@).list());
    let p = delta_calls(p, delta.at("tool_calls"@).list());
    let p = delta_legacy_call(p, delta);
    let p = if has_unknown(delta) {
        p.push(EventView::Raw { protocol: chat(), value: whole })
    } else {
        p
    };
    match choice.at("finish_reason"@).text() {
        Some(reason) => Progress {
            state: StateView { finish_reason: Some(chat_reason_of(reason)), ..p.state },
            ..p
        },
        None => p,
    }
}

/// What the answers of a chunk give.
pub open spec fn chunk_choices(p: Progress, choices: Seq<JsonView>, whole: JsonView) -> Progress
    decreases choices.len(),
{
    if choices.len() == 0 {
        p
    } else {
        chunk_choice(chunk_choices(p, choices.drop_last(), whole), choices.last(), whole)
    }
}

/// What the start and the consumption of a chunk give.
pub open spec fn chunk_head(s: StateView, value: JsonView) -> Progress {
    let p = if s.started {
        Progress { state: s, events: Seq::empty() }
    } else {
        let id = value.at("id"@).text();
        let model = value.at("model"@).text();
        Progress {
            state: StateView { id, model, started: true, ..s },
            events: seq![EventView::MessageStart { id, model, usage: None }],
        }
    };
    match chat_usage_of_opt(value.field("usage"@)) {
        Some(usage) => Progress {
            state: StateView { usage: Some(usage), ..p.state },
            events: p.events.push(EventView::Usage { usage }),
        },
        None => p,
    }
}

/// What the end of a stream gives.
pub open spec fn stream_done(s: StateView) -> Progress {
    if s.ended {
        Progress { state: s, events: Seq::empty() }
    } else {
        Progress {
            state: StateView { ended: true, open_content: Set::empty(), ..s },
            events: ends(ascending(s.open_content)).push(
                EventView::MessageEnd {
                    finish_reason: s.finish_reason,
                    usage: s.usage,
                    metadata: no_fields(),
                },
            ),
        }
    }
}

/// The state after a chunk of the stream that was read as `parsed`, and the events that it gives.
pub open spec fn chat_parsed_read(parsed: Option<JsonView>, s: StateView) -> (
    StateView,
    Result<Seq<EventView>, ErrorView>,
) {
    match parsed {
        None => (s, Err(ErrorView::InvalidField("stream_json"@))),
        Some(value) => match value.field("error"@) {
            Some(error) => (
                s,
                Ok(
                    seq![
                        EventView::Error {
                            message: or_text(
                                error.at("message"@).text(),
                                "upstream stream error"@,
                            ),
                            metadata: error.fields_or_none(),
                        },
                    ],
                ),
            ),
            None => {
                let p = chunk_choices(
                    chunk_head(s, value),
                    value.at("choices"@).list(),
                    value,
                );
                (p.state, Ok(p.events))
            },
        },
    }
}

/// The state after an event of the stream, and the events that it gives.
pub open spec fn chat_event_read(data: Seq<char>, s: StateView) -> (
    StateView,
    Result<Seq<EventView>, ErrorView>,
) {
    if trimmed(data) == "[DONE]"@ {
        (stream_done(s).state, Ok(stream_done(s).events))
    } else {
        chat_parsed_read(text_value(data), s)
    }
}

fn read_delta_content(events: &mut Vec<LLMStreamEvent>, state: &mut StreamState, delta: &Json)
    ensures
        progress(final(events)@, final(state)@) == delta_refusal(
            delta_reasoning(delta_text(progress(old(events)@, old(state)@), delta@), delta@),
            delta@,
        ),
{
    if let Some(text) = delta.text_at("content") {
        ensure_content_started(events, state, 0, LLMContent::text(""));
        add_event(events, LLMStreamEvent::TextDelta { index: 0, text: text.to_owned() });
    }
    assert(progress(events@, state@) == delta_text(progress(old(events)@, old(state)@), delta@));
    if let Some(text) = either_str(delta.text_at("reasoning_content"), delta.text_at("reasoning")) {
        ensure_content_started(events, state, 1, reasoning_content());
        add_event(
            events,
            LLMStreamEvent::ReasoningDelta {
                index: 1,
                text: Some(text.to_owned()),
                signature: None,
            },
        );
    }
    if let Some(refusal) = delta.text_at("refusal") {
        ensure_content_started(events, state, 2, refusal_content());
        add_event(
            events,
            LLMStreamEvent::RefusalDelta { index: 2, refusal: refusal.to_owned() },
        );
    }
}

fn read_delta_citations(events: &mut Vec<LLMStreamEvent>, list: &Json, Ghost(s): Ghost<StateView>)
    ensures
        progress(final(events)@, s) == delta_citations(progress(old(events)@, s), list@.list()),
{
    let ghost start = views(events@);
    let ghost all = list@.list();
    match list.as_array() {
        Some(items) => {
            let mut i: usize = 0;
            assert(views(events@) =~= start + Seq::new(0, |j: int| cited(all[j])));
            while i < items.len()
                invariant
                    all == views(items@),
                    i <= items@.len(),
                    views(events@) == start + Seq::new(i as nat, |j: int| cited(all[j])),
                decreases items@.len() - i,
            {
                let annotation = annotation_from_openai(&items[i], LLMProtocol::OpenAiChat);
                add_event(events, LLMStreamEvent::AnnotationAdded { index: 0, annotation });
                assert(views(events@) =~= start + Seq::new((i + 1) as nat, |j: int| cited(all[j])));
                i = i + 1;
            }
        },
        None => {
            assert(views(events@) =~= start + Seq::new(0, |j: int| cited(all[j])));
        },
    }
}

fn read_delta_call(events: &mut Vec<LLMStreamEvent>, state: &mut StreamState, tool: &Json)
    ensures
        progress(final(events)@, final(state)@) == delta_call(
            progress(old(events)@, old(state)@),
            tool@,
        ),
{
    let index = (tool.uint_at("index").unwrap_or(0) as usize).wrapping_add(3);
    let function = tool.at("function");
    let content = LLMContent {
        source: Some(LLMProtocol::OpenAiChat),
        kind: LLMContentKind::ToolCall {
            id: own(tool.text_at("id")),
            name: function.text_at("name").unwrap_or("").to_owned(),
            arguments: json_object0(),
        },
        metadata: JsonMap::new(),
    };
    ensure_content_started(events, state, index, content);
    add_event(
        events,
        LLMStreamEvent::ToolCallDelta {
            index,
            id: own(tool.text_at("id")),
            name: own(function.text_at("name")),
            arguments_delta: function.text_at("arguments").unwrap_or("").to_owned(),
        },
    );
}

fn read_delta_calls(events: &mut Vec<LLMStreamEvent>, state: &mut StreamState, list: &Json)
    ensures
        progress(final(events)@, final(state)@) == delta_calls(
            progress(old(events)@, old(state)@),
            list@.list(),
        ),
{
    let ghost start = progress(events@, state@);
    let ghost all = list@.list();
    match list.as_array() {
        Some(items) => {
            let mut i: usize = 0;
            assert(all.take(0) =~= Seq::empty());
            while i < items.len()
                invariant
                    all == views(items@),
                    i <= items@.len(),
                    progress(events@, state@) == delta_calls(start, all.take(i as int)),
                decreases items@.len() - i,
            {
                assert(all.take(i + 1).drop_last() =~= all.take(i as int));
                read_delta_call(events, state, &items[i]);
                i = i + 1;
            }
            assert(all.take(i as int) =~= all);
        },
        None => {},
    }
}

fn read_legacy_call(events: &mut Vec<LLMStreamEvent>, state: &mut StreamState, delta: &Json)
    ensures
        progress(final(events)@, final(state)@) == delta_legacy_call(
            progress(old(events)@, old(state)@),
            delta@,
        ),
{
    let function = match delta.get("function_call") {
        Some(function) => function,
        None => {
            return;
        },
    };
    if !function.is_object() {
        return;
    }
    let mut metadata = JsonMap::new();
    metadata.put_bool("legacy_function_call", true);
    let content = LLMContent {
        source: Some(LLMProtocol::OpenAiChat),
        kind: LLMContentKind::ToolCall {
            id: None,
            name: function.text_at("name").unwrap_or("").to_owned(),
            arguments: json_object0(),
        },
        metadata,
    };
    ensure_content_started(events, state, 3, content);
    add_event(
        events,
        LLMStreamEvent::ToolCallDelta {
            index: 3,
            id: None,
            name: own(function.text_at("name")),
            arguments_delta: function.text_at("arguments").unwrap_or("").to_owned(),
        },
    );
}

fn read_choice(
    events: &mut Vec<LLMStreamEvent>,
    state: &mut StreamState,
    choice: &Json,
    whole: &Json,
)
    ensures
        progress(final(events)@, final(state)@) == chunk_choice(
            progress(old(events)@, old(state)@),
            choice@,
            whole@,
        ),
{
    let delta = choice.at("delta");
    read_delta_content(events, state, delta);
    let ghost s = state@;
    read_delta_citations(events, delta.at("annotations"), Ghost(s));
    read_delta_calls(events, state, delta.at("tool_calls"));
    read_legacy_call(events, state, delta);
    let known = [
        "role",
        "content",
        "reasoning_content",
        "reasoning",
        "refusal",
        "annotations",
        "tool_calls",
        "function_call",
    ];
    assert(crate::text::texts(known@) =~= delta_keys());
    let unknown = delta.fields_without(&known);
    if !unknown.is_empty() {
        add_event(
            events,
            LLMStreamEvent::Raw { protocol: LLMProtocol::OpenAiChat, value: whole.clone() },
        );
    }
    if let Some(reason) = choice.text_at("finish_reason") {
        state.finish_reason = Some(parse_chat_finish_reason(reason));
    }
}

fn read_choices(
    events: &mut Vec<LLMStreamEvent>,
    state: &mut StreamState,
    list: &Json,
    whole: &Json,
)
    ensures
        progress(final(events)@, final(state)@) == chunk_choices(
            progress(old(events)@, old(state)@),
            list@.list(),
            whole@,
        ),
{
    let ghost start = progress(events@, state@);
    let ghost all = list@.list();
    match list.as_array() {
        Some(items) => {
            let mut i: usize = 0;
            assert(all.take(0) =~= Seq::empty());
            while i < items.len()
                invariant
                    all == views(items@),
                    i <= items@.len(),
                    progress(events@, state@) == chunk_choices(start, all.take(i as int), whole@),
                decreases items@.len() - i,
            {
                assert(all.take(i + 1).drop_last() =~= all.take(i as int));
                read_choice(events, state, &items[i], whole);
                i = i + 1;
            }
            assert(all.take(i as int) =~= all);
        },
        None => {},
    }
}

fn read_head(state: &mut StreamState, value: &Json) -> (r: Vec<LLMStreamEvent>)
    ensures
        progress(r@, final(state)@) == chunk_head(old(state)@, value@),
{
    let mut events: Vec<LLMStreamEvent> = Vec::new();
    assert(views(events@) =~= Seq::empty());
    if !state.started {
        state.id = own(value.text_at("id"));
        state.model = own(value.text_at("model"));
        state.started = true;
        add_event(
            &mut events,
            LLMStreamEvent::MessageStart {
                id: copy_text(&state.id),
                model: copy_text(&state.model),
                usage: None,
            },
        );
        assert(views(events@) =~= seq![
            EventView::MessageStart {
                id: value@.at("id"@).text(),
                model: value@.at("model"@).text(),
                usage: None,
            },
        ]);
    }
    if let Some(usage) = chat_usage_at(value, "usage") {
        state.usage = Some(usage.clone());
        add_event(&mut events, LLMStreamEvent::Usage { usage });
    }
    events
}

/// Reads a chunk of the stream, by the value of its data, where it has one.
pub fn read_parsed(parsed: Option<Json>, state: &mut StreamState) -> (r: Result<
    Vec<LLMStreamEvent>,
    AdapterError,
>)
    ensures
        (final(state)@, outcomes(r)) == chat_parsed_read(opt_view(parsed), old(state)@),
{
    let value = match parsed {
        Some(value) => value,
        None => {
            return Err(AdapterError::InvalidField("stream_json"));
        },
    };
    if let Some(error) = value.get("error") {
        let mut events: Vec<LLMStreamEvent> = Vec::new();
        let failure = LLMStreamEvent::Error {
            message: error.text_at("message").unwrap_or("upstream stream error").to_owned(),
            metadata: error.fields(),
        };
        events.push(failure);
        assert(views(events@) =~= seq![failure@]);
        return Ok(events);
    }
    let mut events = read_head(state, &value);
    read_choices(&mut events, state, value.at("choices"), &value);
    Ok(events)
}

/// Reads an event of the stream.
pub fn read_event(event: &SseEvent, state: &mut StreamState) -> (r: Result<
    Vec<LLMStreamEvent>,
    AdapterError,
>)
    ensures
        (final(state)@, outcomes(r)) == chat_event_read(event@.data, old(state)@),
{
    let data = trim(event.data.as_str());
    if same(data.as_str(), "[DONE]") {
        if state.ended {
            let none: Vec<LLMStreamEvent> = Vec::new();
            assert(views(none@) =~= Seq::empty());
            return Ok(none);
        }
        state.ended = true;
        let mut events = content_ends(&state.open_content);
        state.open_content.clear();
        add_event(
            &mut events,
            LLMStreamEvent::MessageEnd {
                finish_reason: state.finish_reason,
                usage: copy_usage(&state.usage),
                metadata: JsonMap::new(),
            },
        );
        return Ok(events);
    }
    read_parsed(parse(event.data.as_str()), state)
}

/// A chunk of a stream.
pub open spec fn chat_chunk(
    s: StateView,
    delta: JsonView,
    finish_reason: Option<JsonView>,
    usage: Option<JsonView>,
    now: i64,
) -> SseView {
    let choices = if usage is Some && delta == object0() && finish_reason is None {
        array0()
    } else {
        array1(
            object3(
                "index"@,
                jint(0),
                "delta"@,
                delta,
                "finish_reason"@,
                match finish_reason {
                    Some(reason) => reason,
                    None => JsonView::Null,
                },
            ),
        )
    };
    json_event(
        None,
        JsonView::Object(
            with_some(
                no_fields().insert("id"@, jopt(s.id)).insert(
                    "object"@,
                    jtext("chat.completion.chunk"@),
                ).insert("created"@, JsonView::Number(int_num(now))).insert(
                    "model"@,
                    jopt(s.model),
                ).insert("choices"@, choices),
                "usage"@,
                usage,
            ),
        ),
    )
}

fn chat_stream_event(
    state: &StreamState,
    delta: Json,
    finish_reason: Option<Json>,
    usage: Option<Json>,
    now: i64,
) -> (r: SseEvent)
    ensures
        r@ == chat_chunk(
            state@,
            delta@,
            opt_view(finish_reason),
            opt_view(usage),
            now,
        ),
{
    let empty = match delta.as_object() {
        Some(fields) => fields.is_empty(),
        None => false,
    };
    let choices = if usage.is_some() && empty && finish_reason.is_none() {
        json_array0()
    } else {
        let reason = match finish_reason {
            Some(reason) => reason,
            None => Json::null(),
        };
        json_array1(
            json3("index", Json::uint(0), "delta", delta, "finish_reason", reason),
        )
    };
    let mut value = JsonMap::new();
    value.put("id", Json::opt_text(borrow(&state.id)));
    value.put_text("object", "chat.completion.chunk");
    value.put("created", Json::signed(now));
    value.put("model", Json::opt_text(borrow(&state.model)));
    value.put("choices", choices);
    value.put_some("usage", usage.as_ref());
    SseEvent::json(None, &Json::object(value))
}

/// The delta of a call.
pub open spec fn call_delta(
    index: usize,
    id: Option<Seq<char>>,
    name: Option<Seq<char>>,
    arguments: Seq<char>,
) -> JsonView {
    object1(
        "tool_calls"@,
        array1(
            JsonView::Object(
                no_fields().insert("index"@, jint(index as u64)).insert("id"@, jopt(id)).insert(
                    "type"@,
                    jtext("function"@),
                ).insert(
                    "function"@,
                    object2("name"@, jopt(name), "arguments"@, jtext(arguments)),
                ),
            ),
        ),
    )
}

fn call_delta_value(index: usize, id: Option<&str>, name: Option<&str>, arguments: &str) -> (r:
    Json)
    ensures
        r@ == call_delta(index, opt_str(id), opt_str(name), arguments@),
{
    let mut call = JsonMap::new();
    call.put_uint("index", index as u64);
    call.put("id", Json::opt_text(id));
    call.put_text("type", "function");
    call.put(
        "function",
        json2("name", Json::opt_text(name), "arguments", Json::text(arguments)),
    );
    json1("tool_calls", json_array1(Json::object(call)))
}

/// The state after an event is written, and what it is written as.
pub open spec fn chat_event_written(s: StateView, event: EventView, ids: IdsView, now: i64) -> (
    StateView,
    Result<Seq<SseView>, ErrorView>,
) {
    match event {
        EventView::MessageStart { id, model, .. } => {
            let s = StateView {
                id: Some(or_text(id, "chatcmpl_"@ + ids.item)),
                model,
                started: true,
                ..s
            };
            (
                s,
                Ok(
                    seq![
                        chat_chunk(
                            s,
                            object2("role"@, jtext("assistant"@), "content"@, jtext(""@)),
                            None,
                            None,
                            now,
                        ),
                    ],
                ),
            )
        },
        EventView::ContentStart { index, content } => {
            let (s, target) = target_of(s, index);
            let s = StateView { open_content: s.open_content.insert(target), ..s };
            match content.kind {
                KindView::ToolCall { id, name, .. } => (
                    s,
                    Ok(seq![chat_chunk(s, call_delta(target, id, Some(name), ""@), None, None, now)]),
                ),
                _ => (s, Ok(Seq::empty())),
            }
        },
        EventView::TextDelta { text, .. } => (
            s,
            Ok(seq![chat_chunk(s, object1("content"@, jtext(text)), None, None, now)]),
        ),
        EventView::ReasoningDelta { text, signature, .. } => (
            s,
            Ok(
                seq![
                    chat_chunk(
                        s,
                        JsonView::Object(
                            with_text(
                                with_text(no_fields(), "reasoning_content"@, text),
                                "reasoning_signature"@,
                                signature,
                            ),
                        ),
                        None,
                        None,
                        now,
                    ),
                ],
            ),
        ),
        EventView::RefusalDelta { refusal, .. } => (
            s,
            Ok(seq![chat_chunk(s, object1("refusal"@, jtext(refusal)), None, None, now)]),
        ),
        EventView::AnnotationAdded { annotation, .. } => match openai_annotation_value(
            annotation,
            chat(),
        ) {
            Err(e) => (s, Err(e)),
            Ok(value) => (
                s,
                Ok(seq![chat_chunk(s, object1("annotations"@, array1(value)), None, None, now)]),
            ),
        },
        EventView::ToolCallDelta { index, id, name, arguments_delta } => {
            let (s, target) = target_of(s, index);
            (
                s,
                Ok(seq![chat_chunk(s, call_delta(target, id, name, arguments_delta), None, None, now)]),
            )
        },
        EventView::ContentEnd { index } => (
            match get(s.content_indices, index) {
                Some(target) => StateView { open_content: s.open_content.remove(target), ..s },
                None => s,
            },
            Ok(Seq::empty()),
        ),
        EventView::Usage { usage } => (StateView { usage: Some(usage), ..s }, Ok(Seq::empty())),
        EventView::MessageEnd { finish_reason, usage, .. } => {
            let s = match usage {
                Some(usage) => StateView { usage: Some(usage), ..s },
                None => s,
            };
            let end = chat_chunk(
                s,
                object0(),
                match finish_reason {
                    Some(reason) => Some(jtext(chat_reason_text(reason))),
                    None => None,
                },
                None,
                now,
            );
            let done = SseView { event: None, data: "[DONE]"@, id: None, retry: None };
            (
                StateView { ended: true, ..s },
                Ok(
                    match s.usage {
                        Some(usage) => seq![
                            end,
                            chat_chunk(s, object0(), None, Some(chat_usage_value(usage)), now),
                            done,
                        ],
                        None => seq![end, done],
                    },
                ),
            )
        },
        EventView::Error { message, metadata } => (
            s,
            Ok(
                seq![
                    json_event(
                        None,
                        object1(
                            "error"@,
                            JsonView::Object(metadata.insert("message"@, jtext(message))),
                        ),
                    ),
                ],
            ),
        ),
        EventView::Raw { protocol, value } => if protocol != chat() {
            (
                s,
                Err(
                    ErrorView::Unsupported(
                        "OpenAI Chat cannot represent a "@ + protocol_text(protocol)
                            + " stream event"@,
                    ),
                ),
            )
        } else {
            (s, Ok(seq![json_event(None, value)]))
        },
    }
}

/// `chat_event_written` at one time.
pub open spec fn chat_write_step(now: i64) -> WriteStep {
    |s: StateView, event: EventView, ids: IdsView| chat_event_written(s, event, ids, now)
}

fn write_end(
    state: &mut StreamState,
    finish_reason: Option<LLMFinishReason>,
    usage: &Option<LLMUsage>,
    now: i64,
) -> (r: Vec<SseEvent>)
    ensures
        (final(state)@, Ok::<Seq<SseView>, ErrorView>(views(r@))) == chat_event_written(
            old(state)@,
            EventView::MessageEnd { finish_reason, usage: opt_usage(*usage), metadata: no_fields() },
            crate::adapters::fresh::no_ids(),
            now,
        ),
{
    if let Some(usage) = usage {
        state.usage = Some(usage.clone());
    }
    let reason = match finish_reason {
        Some(reason) => Some(chat_finish_reason_to_value(reason)),
        None => None,
    };
    let mut out: Vec<SseEvent> = Vec::new();
    let end = chat_stream_event(state, json_object0(), reason, None, now);
    let done = SseEvent { event: None, data: "[DONE]".to_owned(), id: None, retry: None };
    let ghost s = state@;
    out.push(end);
    if let Some(usage) = &state.usage {
        let total = chat_stream_event(
            state,
            json_object0(),
            None,
            Some(chat_usage_to_value(usage)),
            now,
        );
        out.push(total);
        out.push(done);
        assert(views(out@) =~= seq![end@, total@, done@]);
    } else {
        out.push(done);
        assert(views(out@) =~= seq![end@, done@]);
    }
    state.ended = true;
    out
}

fn write_event(
    event: &LLMStreamEvent,
    state: &mut StreamState,
    ids: Option<&FreshIds>,
    now: i64,
) -> (r: Result<Vec<SseEvent>, AdapterError>)
    ensures
        (final(state)@, outcomes(r)) == chat_event_written(old(state)@, event@, opt_ids(ids), now),
{
    match event {
        LLMStreamEvent::MessageStart { id, model, .. } => {
            state.id = Some(or_fresh(id, "chatcmpl_", item_id(ids)));
            state.model = copy_text(model);
            state.started = true;
            let delta = json2("role", Json::text("assistant"), "content", Json::text(""));
            Ok(one_sse(chat_stream_event(state, delta, None, None, now)))
        },
        LLMStreamEvent::ContentStart { index, content } => {
            let target = state.target_content_index(*index);
            state.open_content.insert(target);
            if let LLMContentKind::ToolCall { id, name, .. } = &content.kind {
                let delta = call_delta_value(target, borrow(id), Some(name.as_str()), "");
                Ok(one_sse(chat_stream_event(state, delta, None, None, now)))
            } else {
                Ok(no_sse())
            }
        },
        LLMStreamEvent::TextDelta { text, .. } => {
            let delta = json1("content", Json::text(text.as_str()));
            Ok(one_sse(chat_stream_event(state, delta, None, None, now)))
        },
        LLMStreamEvent::ReasoningDelta { text, signature, .. } => {
            let mut delta = JsonMap::new();
            delta.put_some_text("reasoning_content", borrow(text));
            delta.put_some_text("reasoning_signature", borrow(signature));
            Ok(one_sse(chat_stream_event(state, Json::object(delta), None, None, now)))
        },
        LLMStreamEvent::RefusalDelta { refusal, .. } => {
            let delta = json1("refusal", Json::text(refusal.as_str()));
            Ok(one_sse(chat_stream_event(state, delta, None, None, now)))
        },
        LLMStreamEvent::AnnotationAdded { annotation, .. } => {
            match annotation_to_openai(annotation, LLMProtocol::OpenAiChat) {
                Ok(value) => {
                    let delta = json1("annotations", json_array1(value));
                    Ok(one_sse(chat_stream_event(state, delta, None, None, now)))
                },
                Err(e) => Err(e),
            }
        },
        LLMStreamEvent::ToolCallDelta { index, id, name, arguments_delta } => {
            let target = state.target_content_index(*index);
            let delta = call_delta_value(
                target,
                borrow(id),
                borrow(name),
                arguments_delta.as_str(),
            );
            Ok(one_sse(chat_stream_event(state, delta, None, None, now)))
        },
        LLMStreamEvent::ContentEnd { index } => {
            let found = match state.content_indices.get(index) {
                Some(target) => Some(*target),
                None => None,
            };
            if let Some(target) = found {
                state.open_content.remove(&target);
            }
            Ok(no_sse())
        },
        LLMStreamEvent::Usage { usage } => {
            state.usage = Some(usage.clone());
            Ok(no_sse())
        },
        LLMStreamEvent::MessageEnd { finish_reason, usage, .. } => Ok(
            write_end(state, *finish_reason, usage, now),
        ),
        LLMStreamEvent::Error { message, metadata } => {
            let mut error = metadata.clone();
            error.put_text("message", message.as_str());
            Ok(one_sse(SseEvent::json(None, &json1("error", Json::object(error)))))
        },
        LLMStreamEvent::Raw { protocol, value } => {
            if *protocol != LLMProtocol::OpenAiChat {
                let mut message = "OpenAI Chat cannot represent a ".to_owned();
                message.push_str(protocol_name(*protocol));
                message.push_str(" stream event");
                return Err(AdapterError::Unsupported(message));
            }
            Ok(one_sse(SseEvent::json(None, value)))
        },
    }
}

/// Writes events, with the given identifiers where the format wants one that the stream does not
/// have, and the given time of creation.
pub fn write_events(
    events: &[LLMStreamEvent],
    state: &mut StreamState,
    ids: Option<&FreshIds>,
    now: i64,
) -> (r: Result<Vec<SseEvent>, AdapterError>)
    ensures
        (final(state)@, outcomes(r)) == written(
            views(events@),
            opt_ids(ids),
            old(state)@,
            chat_write_step(now),
        ),
{
    let ghost all = views(events@);
    let ghost named = opt_ids(ids);
    let ghost start = state@;
    let ghost step = chat_write_step(now);
    let mut out = no_sse();
    let mut i: usize = 0;
    assert(all.take(0) =~= Seq::empty());
    while i < events.len()
        invariant
            all == views(events@),
            named == opt_ids(ids),
            start == old(state)@,
            step == chat_write_step(now),
            i <= events@.len(),
            written(all.take(i as int), named, start, step) == (
                state@,
                Ok::<Seq<SseView>, ErrorView>(views(out@)),
            ),
        decreases events@.len() - i,
    {
        assert(all.take(i + 1).drop_last() =~= all.take(i as int));
        assert(all.take(i + 1).last() == events@[i as int]@);
        let ghost done = views(out@);
        match write_event(&events[i], state, ids_at(ids, i), now) {
            Ok(mut more) => {
                let ghost added = views(more@);
                out.append(&mut more);
                assert(views(out@) =~= done + added);
            },
            Err(e) => {
                proof {
                    written_fails(all, named, start, step, i + 1);
                }
                return Err(e);
            },
        }
        i = i + 1;
    }
    assert(all.take(i as int) =~= all);
    Ok(out)
}

} // verus!
