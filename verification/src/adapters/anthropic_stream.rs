//! The Messages format: streams.

use super::annotations::{
    annotation_from_anthropic, annotation_to_anthropic, anthropic_annotation,
    anthropic_annotation_value,
};
use super::anthropic::{
    anthropic, anthropic_block_from_value, anthropic_block_of, anthropic_block_value,
    anthropic_content_to_value, anthropic_finish_reason_to_value, anthropic_reason_of,
    anthropic_reason_text, anthropic_usage_at, anthropic_usage_of_opt, anthropic_usage_to_value,
    anthropic_usage_value, parse_anthropic_finish_reason,
};
use super::common::{
    array0, json1, json2, json3, json_array0, json_object0, object0, object1, object2, object3,
    protocol_name, protocol_text,
};
use super::error::{AdapterError, ErrorView};
use super::fresh::{ids_at, item_id, opt_ids, FreshIds, IdsView};
use super::openai_chat::{either_str, or_fresh};
use super::sse::{json_event, SseEvent, SseView};
use super::state::{ascending, ascending_list, put_text, target_of, StateView, StreamState};
use super::stream::{
    add_event, add_sse, content_ends, ends, no_sse, one_sse, progress, written, written_fails,
    Progress, WriteStep,
};
use crate::json::{jint, jopt, jtext, opt_view, Json, JsonMap, JsonView};
use crate::model::{
    copy_text, copy_usage, no_fields, no_usage, opt_usage, ContentView, EventView, Fields, KindView,
    LLMContent, LLMContentKind, LLMFinishReason, LLMProtocol, LLMStreamEvent, LLMUsage, UsageView,
};
use crate::seqs::{outcome, outcomes, views};
use crate::text::{borrow, either, opt_str, opt_text, or_text, own, same};
use crate::wire::{parse, text_value};
use vstd::prelude::*;
use vstd::std_specs::btree::group_btree_axioms;

verus! {

broadcast use group_btree_axioms;

/// What came later, where it is there, or what was there before.
pub open spec fn newer<T>(new: Option<T>, before: Option<T>) -> Option<T> {
    match new {
        Some(v) => Some(v),
        None => before,
    }
}

/// A consumption with what an update says of it. The counts of audio stay as they are.
pub open spec fn merged_usage(current: Option<UsageView>, update: UsageView) -> UsageView {
    let u = match current {
        Some(u) => u,
        None => no_usage(),
    };
    UsageView {
        source: newer(update.source, u.source),
        input_tokens: newer(update.input_tokens, u.input_tokens),
        output_tokens: newer(update.output_tokens, u.output_tokens),
        total_tokens: newer(update.total_tokens, u.total_tokens),
        cache_read_tokens: newer(update.cache_read_tokens, u.cache_read_tokens),
        cache_creation_tokens: newer(update.cache_creation_tokens, u.cache_creation_tokens),
        reasoning_tokens: newer(update.reasoning_tokens, u.reasoning_tokens),
        input_audio_tokens: u.input_audio_tokens,
        output_audio_tokens: u.output_audio_tokens,
        accepted_prediction_tokens: newer(
            update.accepted_prediction_tokens,
            u.accepted_prediction_tokens,
        ),
        rejected_prediction_tokens: newer(
            update.rejected_prediction_tokens,
            u.rejected_prediction_tokens,
        ),
        extra: u.extra.union_prefer_right(update.extra),
    }
}

fn newer_count(new: Option<u64>, before: Option<u64>) -> (r: Option<u64>)
    ensures
        r == newer(new, before),
{
    match new {
        Some(_) => new,
        None => before,
    }
}

/// Adds what an update says of the consumption.
pub fn merge_usage(current: &mut Option<LLMUsage>, update: &LLMUsage)
    ensures
        opt_usage(*final(current)) == Some(merged_usage(opt_usage(*old(current)), update@)),
{
    let before = match current.take() {
        Some(usage) => usage,
        None => LLMUsage::default(),
    };
    let mut extra = before.extra.clone();
    extra.extend(&update.extra);
    let source = match update.source {
        Some(_) => update.source,
        None => before.source,
    };
    *current = Some(
        LLMUsage {
            source,
            input_tokens: newer_count(update.input_tokens, before.input_tokens),
            output_tokens: newer_count(update.output_tokens, before.output_tokens),
            total_tokens: newer_count(update.total_tokens, before.total_tokens),
            cache_read_tokens: newer_count(update.cache_read_tokens, before.cache_read_tokens),
            cache_creation_tokens: newer_count(
                update.cache_creation_tokens,
                before.cache_creation_tokens,
            ),
            reasoning_tokens: newer_count(update.reasoning_tokens, before.reasoning_tokens),
            input_audio_tokens: before.input_audio_tokens,
            output_audio_tokens: before.output_audio_tokens,
            accepted_prediction_tokens: newer_count(
                update.accepted_prediction_tokens,
                before.accepted_prediction_tokens,
            ),
            rejected_prediction_tokens: newer_count(
                update.rejected_prediction_tokens,
                before.rejected_prediction_tokens,
            ),
            extra,
        },
    );
}

/// The index that an event of the stream is about.
pub open spec fn event_index(value: JsonView) -> usize {
    match value.at("index"@).uint() {
        Some(n) => n as usize,
        None => 0,
    }
}

fn index_of(value: &Json) -> (r: usize)
    ensures
        r == event_index(value@),
{
    match value.uint_at("index") {
        Some(n) => n as usize,
        None => 0,
    }
}

/// What the start of a message gives.
pub open spec fn message_start_read(value: JsonView, s: StateView) -> Progress {
    let message = value.at("message"@);
    let id = message.at("id"@).text();
    let model = message.at("model"@).text();
    let usage = anthropic_usage_of_opt(message.field("usage"@));
    Progress {
        state: StateView { id, model, usage, started: true, ..s },
        events: seq![EventView::MessageStart { id, model, usage }],
    }
}

/// What the start of a block gives.
pub open spec fn block_start_read(value: JsonView, s: StateView) -> Progress {
    let start = if s.started {
        Seq::empty()
    } else {
        seq![EventView::MessageStart { id: None, model: None, usage: None }]
    };
    Progress {
        state: StateView {
            started: true,
            open_content: s.open_content.insert(event_index(value)),
            ..s
        },
        events: start.push(
            EventView::ContentStart {
                index: event_index(value),
                content: anthropic_block_of(value.at("content_block"@)),
            },
        ),
    }
}

/// The event that a piece of a block gives.
pub open spec fn block_delta_read(value: JsonView) -> EventView {
    let index = event_index(value);
    let delta = value.at("delta"@);
    let kind = or_text(delta.at("type"@).text(), ""@);
    if kind == "text_delta"@ {
        EventView::TextDelta { index, text: or_text(delta.at("text"@).text(), ""@) }
    } else if kind == "input_json_delta"@ {
        EventView::ToolCallDelta {
            index,
            id: None,
            name: None,
            arguments_delta: or_text(delta.at("partial_json"@).text(), ""@),
        }
    } else if kind == "thinking_delta"@ {
        EventView::ReasoningDelta { index, text: delta.at("thinking"@).text(), signature: None }
    } else if kind == "signature_delta"@ {
        EventView::ReasoningDelta { index, text: None, signature: delta.at("signature"@).text() }
    } else if kind == "citations_delta"@ {
        EventView::AnnotationAdded { index, annotation: anthropic_annotation(delta.at("citation"@)) }
    } else {
        EventView::Raw { protocol: anthropic(), value }
    }
}

/// What a change of the message gives.
pub open spec fn message_delta_read(value: JsonView, s: StateView) -> Progress {
    let s = StateView {
        finish_reason: match value.at("delta"@).at("stop_reason"@).text() {
            Some(reason) => Some(anthropic_reason_of(reason)),
            None => None,
        },
        ..s
    };
    match anthropic_usage_of_opt(value.field("usage"@)) {
        Some(update) => {
            let usage = merged_usage(s.usage, update);
            Progress {
                state: StateView { usage: Some(usage), ..s },
                events: seq![EventView::Usage { usage }],
            }
        },
        None => Progress { state: s, events: Seq::empty() },
    }
}

/// What the end of a message gives.
pub open spec fn message_stop_read(s: StateView) -> Progress {
    Progress {
        state: StateView { open_content: Set::empty(), ended: true, ..s },
        events: ends(ascending(s.open_content)).push(
            EventView::MessageEnd {
                finish_reason: s.finish_reason,
                usage: s.usage,
                metadata: no_fields(),
            },
        ),
    }
}

/// What a value of the stream gives, by its type.
pub open spec fn anthropic_value_read(kind: Seq<char>, value: JsonView, s: StateView) -> Progress {
    if kind == "message_start"@ {
        message_start_read(value, s)
    } else if kind == "content_block_start"@ {
        block_start_read(value, s)
    } else if kind == "content_block_delta"@ {
        Progress { state: s, events: seq![block_delta_read(value)] }
    } else if kind == "content_block_stop"@ {
        Progress {
            state: StateView { open_content: s.open_content.remove(event_index(value)), ..s },
            events: seq![EventView::ContentEnd { index: event_index(value) }],
        }
    } else if kind == "message_delta"@ {
        message_delta_read(value, s)
    } else if kind == "message_stop"@ {
        message_stop_read(s)
    } else if kind == "error"@ {
        Progress {
            state: s,
            events: seq![
                EventView::Error {
                    message: or_text(
                        value.at("error"@).at("message"@).text(),
                        "upstream stream error"@,
                    ),
                    metadata: value.at("error"@).fields_or_none(),
                },
            ],
        }
    } else if kind == "ping"@ {
        Progress { state: s, events: Seq::empty() }
    } else {
        Progress { state: s, events: seq![EventView::Raw { protocol: anthropic(), value }] }
    }
}

/// The state after an event of the stream that was read as `parsed`, and the events that it gives.
pub open spec fn anthropic_parsed_read(
    parsed: Option<JsonView>,
    event: Option<Seq<char>>,
    s: StateView,
) -> (StateView, Result<Seq<EventView>, ErrorView>) {
    match parsed {
        None => (s, Err(ErrorView::InvalidField("stream_json"@))),
        Some(value) => {
            let kind = or_text(either(value.at("type"@).text(), event), ""@);
            let p = anthropic_value_read(kind, value, s);
            (p.state, Ok(p.events))
        },
    }
}

/// The state after an event of the stream, and the events that it gives.
pub open spec fn anthropic_event_read(event: SseView, s: StateView) -> (
    StateView,
    Result<Seq<EventView>, ErrorView>,
) {
    anthropic_parsed_read(text_value(event.data), event.event, s)
}

fn no_events() -> (r: Vec<LLMStreamEvent>)
    ensures
        views(r@) == Seq::<EventView>::empty(),
{
    let events: Vec<LLMStreamEvent> = Vec::new();
    assert(views(events@) =~= Seq::empty());
    events
}

fn one_event(event: LLMStreamEvent) -> (r: Vec<LLMStreamEvent>)
    ensures
        views(r@) == seq![event@],
{
    let mut events: Vec<LLMStreamEvent> = Vec::new();
    events.push(event);
    assert(views(events@) =~= seq![event@]);
    events
}

fn read_message_start(value: &Json, state: &mut StreamState) -> (r: Vec<LLMStreamEvent>)
    ensures
        progress(r@, final(state)@) == message_start_read(value@, old(state)@),
{
    let message = value.at("message");
    state.id = own(message.text_at("id"));
    state.model = own(message.text_at("model"));
    state.usage = anthropic_usage_at(message, "usage");
    state.started = true;
    one_event(
        LLMStreamEvent::MessageStart {
            id: copy_text(&state.id),
            model: copy_text(&state.model),
            usage: copy_usage(&state.usage),
        },
    )
}

fn read_block_start(value: &Json, state: &mut StreamState) -> (r: Vec<LLMStreamEvent>)
    ensures
        progress(r@, final(state)@) == block_start_read(value@, old(state)@),
{
    let mut events = no_events();
    if !state.started {
        state.started = true;
        events = one_event(LLMStreamEvent::MessageStart { id: None, model: None, usage: None });
    }
    let index = index_of(value);
    let content = anthropic_block_from_value(value.at("content_block"));
    state.open_content.insert(index);
    add_event(&mut events, LLMStreamEvent::ContentStart { index, content });
    events
}

fn read_block_delta(value: &Json) -> (r: LLMStreamEvent)
    ensures
        r@ == block_delta_read(value@),
{
    let index = index_of(value);
    let delta = value.at("delta");
    let kind = delta.text_at("type").unwrap_or("");
    if same(kind, "text_delta") {
        LLMStreamEvent::TextDelta { index, text: delta.text_at("text").unwrap_or("").to_owned() }
    } else if same(kind, "input_json_delta") {
        LLMStreamEvent::ToolCallDelta {
            index,
            id: None,
            name: None,
            arguments_delta: delta.text_at("partial_json").unwrap_or("").to_owned(),
        }
    } else if same(kind, "thinking_delta") {
        LLMStreamEvent::ReasoningDelta {
            index,
            text: own(delta.text_at("thinking")),
            signature: None,
        }
    } else if same(kind, "signature_delta") {
        LLMStreamEvent::ReasoningDelta {
            index,
            text: None,
            signature: own(delta.text_at("signature")),
        }
    } else if same(kind, "citations_delta") {
        LLMStreamEvent::AnnotationAdded {
            index,
            annotation: annotation_from_anthropic(delta.at("citation")),
        }
    } else {
        LLMStreamEvent::Raw { protocol: LLMProtocol::AnthropicMessages, value: value.clone() }
    }
}

fn read_message_delta(value: &Json, state: &mut StreamState) -> (r: Vec<LLMStreamEvent>)
    ensures
        progress(r@, final(state)@) == message_delta_read(value@, old(state)@),
{
    state.finish_reason = match value.at("delta").text_at("stop_reason") {
        Some(reason) => Some(parse_anthropic_finish_reason(reason)),
        None => None,
    };
    match anthropic_usage_at(value, "usage") {
        Some(update) => {
            let mut usage = copy_usage(&state.usage);
            merge_usage(&mut usage, &update);
            let total = match usage {
                Some(usage) => usage,
                None => update,
            };
            state.usage = Some(total.clone());
            one_event(LLMStreamEvent::Usage { usage: total })
        },
        None => no_events(),
    }
}

fn read_message_stop(state: &mut StreamState) -> (r: Vec<LLMStreamEvent>)
    ensures
        progress(r@, final(state)@) == message_stop_read(old(state)@),
{
    let mut events = content_ends(&state.open_content);
    state.open_content.clear();
    add_event(
        &mut events,
        LLMStreamEvent::MessageEnd {
            finish_reason: state.finish_reason,
            usage: copy_usage(&state.usage),
            metadata: JsonMap::new(),
        },
    );
    state.ended = true;
    events
}

/// Reads an event of the stream, by the value of its data, where it has one, and by its name.
pub fn read_parsed(parsed: Option<Json>, event: Option<&str>, state: &mut StreamState) -> (r:
    Result<Vec<LLMStreamEvent>, AdapterError>)
    ensures
        (final(state)@, outcomes(r)) == anthropic_parsed_read(
            opt_view(parsed),
            opt_str(event),
            old(state)@,
        ),
{
    let value = match parsed {
        Some(value) => value,
        None => {
            return Err(AdapterError::InvalidField("stream_json"));
        },
    };
    let kind = either_str(value.text_at("type"), event).unwrap_or("");
    let events = if same(kind, "message_start") {
        read_message_start(&value, state)
    } else if same(kind, "content_block_start") {
        read_block_start(&value, state)
    } else if same(kind, "content_block_delta") {
        one_event(read_block_delta(&value))
    } else if same(kind, "content_block_stop") {
        let index = index_of(&value);
        state.open_content.remove(&index);
        one_event(LLMStreamEvent::ContentEnd { index })
    } else if same(kind, "message_delta") {
        read_message_delta(&value, state)
    } else if same(kind, "message_stop") {
        read_message_stop(state)
    } else if same(kind, "error") {
        let error = value.at("error");
        one_event(
            LLMStreamEvent::Error {
                message: error.text_at("message").unwrap_or("upstream stream error").to_owned(),
                metadata: error.fields(),
            },
        )
    } else if same(kind, "ping") {
        no_events()
    } else {
        one_event(
            LLMStreamEvent::Raw {
                protocol: LLMProtocol::AnthropicMessages,
                value: value.clone(),
            },
        )
    };
    Ok(events)
}

/// Reads an event of the stream.
pub fn read_event(event: &SseEvent, state: &mut StreamState) -> (r: Result<
    Vec<LLMStreamEvent>,
    AdapterError,
>)
    ensures
        (final(state)@, outcomes(r)) == anthropic_event_read(event@, old(state)@),
{
    read_parsed(parse(event.data.as_str()), borrow(&event.event), state)
}

/// An event of the stream, by its type.
pub open spec fn typed_event(kind: Seq<char>, value: JsonView) -> SseView {
    json_event(Some(kind), value)
}

/// The consumption of a message that starts.
pub open spec fn start_usage(usage: Option<UsageView>) -> JsonView {
    match usage {
        Some(usage) => anthropic_usage_value(usage),
        None => object2("input_tokens"@, jint(0), "output_tokens"@, jint(0)),
    }
}

/// The start of a message.
pub open spec fn message_start_event(s: StateView, usage: Option<UsageView>) -> SseView {
    let message = no_fields().insert("id"@, jopt(s.id)).insert("type"@, jtext("message"@)).insert(
        "role"@,
        jtext("assistant"@),
    ).insert("model"@, jopt(s.model)).insert("content"@, array0()).insert(
        "stop_reason"@,
        JsonView::Null,
    ).insert("stop_sequence"@, JsonView::Null).insert("usage"@, start_usage(usage));
    typed_event(
        "message_start"@,
        object2("type"@, jtext("message_start"@), "message"@, JsonView::Object(message)),
    )
}

fn message_start_to_event(state: &StreamState, usage: &Option<LLMUsage>) -> (r: SseEvent)
    ensures
        r@ == message_start_event(state@, opt_usage(*usage)),
{
    let mut message = JsonMap::new();
    message.put("id", Json::opt_text(borrow(&state.id)));
    message.put_text("type", "message");
    message.put_text("role", "assistant");
    message.put("model", Json::opt_text(borrow(&state.model)));
    message.put("content", json_array0());
    message.put("stop_reason", Json::null());
    message.put("stop_sequence", Json::null());
    let usage = match usage {
        Some(usage) => anthropic_usage_to_value(usage),
        None => json2("input_tokens", Json::uint(0), "output_tokens", Json::uint(0)),
    };
    message.put("usage", usage);
    SseEvent::json(
        Some("message_start"),
        &json2("type", Json::text("message_start"), "message", Json::object(message)),
    )
}

/// The block that a part starts with.
pub open spec fn block_start_value(c: ContentView, ids: IdsView) -> Result<JsonView, ErrorView> {
    match c.kind {
        KindView::Text { .. } => Ok(object2("type"@, jtext("text"@), "text"@, jtext(""@))),
        KindView::Refusal { .. } => Ok(object2("type"@, jtext("text"@), "text"@, jtext(""@))),
        KindView::ToolCall { id, name, .. } => Ok(
            JsonView::Object(
                no_fields().insert("type"@, jtext("tool_use"@)).insert(
                    "id"@,
                    jtext(or_text(id, "toolu_"@ + ids.item)),
                ).insert("name"@, jtext(name)).insert("input"@, object0()),
            ),
        ),
        KindView::Reasoning { encrypted_content: Some(data), .. } => Ok(
            object2("type"@, jtext("redacted_thinking"@), "data"@, jtext(data)),
        ),
        KindView::Reasoning { .. } => Ok(
            object3(
                "type"@,
                jtext("thinking"@),
                "thinking"@,
                jtext(""@),
                "signature"@,
                jtext(""@),
            ),
        ),
        _ => anthropic_block_value(c, ids),
    }
}

fn anthropic_stream_content_start(content: &LLMContent, ids: Option<&FreshIds>) -> (r: Result<
    Json,
    AdapterError,
>)
    ensures
        outcome(r) == block_start_value(content@, opt_ids(ids)),
{
    match &content.kind {
        LLMContentKind::Text { .. } => Ok(
            json2("type", Json::text("text"), "text", Json::text("")),
        ),
        LLMContentKind::Refusal { .. } => Ok(
            json2("type", Json::text("text"), "text", Json::text("")),
        ),
        LLMContentKind::ToolCall { id, name, .. } => {
            let mut block = JsonMap::new();
            block.put_text("type", "tool_use");
            block.put_text("id", or_fresh(id, "toolu_", item_id(ids)).as_str());
            block.put_text("name", name.as_str());
            block.put("input", json_object0());
            Ok(Json::object(block))
        },
        LLMContentKind::Reasoning { encrypted_content, .. } => match encrypted_content {
            Some(data) => Ok(
                json2(
                    "type",
                    Json::text("redacted_thinking"),
                    "data",
                    Json::text(data.as_str()),
                ),
            ),
            None => Ok(
                json3(
                    "type",
                    Json::text("thinking"),
                    "thinking",
                    Json::text(""),
                    "signature",
                    Json::text(""),
                ),
            ),
        },
        _ => anthropic_content_to_value(content, ids),
    }
}

/// The name of the kind of a part.
pub open spec fn kind_name(kind: KindView) -> Seq<char> {
    match kind {
        KindView::ToolCall { .. } => "tool_call"@,
        KindView::Reasoning { .. } => "reasoning"@,
        _ => "text"@,
    }
}

fn anthropic_content_kind(content: &LLMContent) -> (r: &'static str)
    ensures
        r@ == kind_name(content@.kind),
{
    match &content.kind {
        LLMContentKind::ToolCall { .. } => "tool_call",
        LLMContentKind::Reasoning { .. } => "reasoning",
        _ => "text",
    }
}

/// A piece of the block at `target`.
pub open spec fn block_delta_event(
    target: usize,
    kind: Seq<char>,
    key: Seq<char>,
    value: JsonView,
) -> SseView {
    typed_event(
        "content_block_delta"@,
        object3(
            "type"@,
            jtext("content_block_delta"@),
            "index"@,
            jint(target as u64),
            "delta"@,
            object2("type"@, jtext(kind), key, value),
        ),
    )
}

fn block_delta_to_event(target: usize, kind: &str, key: &str, value: Json) -> (r: SseEvent)
    ensures
        r@ == block_delta_event(target, kind@, key@, value@),
{
    SseEvent::json(
        Some("content_block_delta"),
        &json3(
            "type",
            Json::text("content_block_delta"),
            "index",
            Json::uint(target as u64),
            "delta",
            json2("type", Json::text(kind), key, value),
        ),
    )
}

/// The start of a block.
pub open spec fn block_start_event(target: usize, block: JsonView) -> SseView {
    typed_event(
        "content_block_start"@,
        object3(
            "type"@,
            jtext("content_block_start"@),
            "index"@,
            jint(target as u64),
            "content_block"@,
            block,
        ),
    )
}

/// The end of the block at `target`.
pub open spec fn block_stop_event(target: usize) -> SseView {
    typed_event(
        "content_block_stop"@,
        object2("type"@, jtext("content_block_stop"@), "index"@, jint(target as u64)),
    )
}

fn block_stop_to_event(target: usize) -> (r: SseEvent)
    ensures
        r@ == block_stop_event(target),
{
    SseEvent::json(
        Some("content_block_stop"),
        &json2("type", Json::text("content_block_stop"), "index", Json::uint(target as u64)),
    )
}

/// The ends of the blocks at the given indices.
pub open spec fn block_stops(indices: Seq<usize>) -> Seq<SseView> {
    Seq::new(indices.len(), |i: int| block_stop_event(indices[i]))
}

/// What the end of a message is written as, once the open blocks have ended.
pub open spec fn message_end_events(
    usage: Option<UsageView>,
    finish_reason: Option<LLMFinishReason>,
    metadata: Fields,
) -> Seq<SseView> {
    let delta = metadata.insert(
        "stop_reason"@,
        jtext(
            match finish_reason {
                Some(reason) => anthropic_reason_text(reason),
                None => "end_turn"@,
            },
        ),
    ).insert("stop_sequence"@, JsonView::Null);
    seq![
        typed_event(
            "message_delta"@,
            object3(
                "type"@,
                jtext("message_delta"@),
                "delta"@,
                JsonView::Object(delta),
                "usage"@,
                match usage {
                    Some(usage) => anthropic_usage_value(usage),
                    None => object1("output_tokens"@, jint(0)),
                },
            ),
        ),
        typed_event("message_stop"@, object1("type"@, jtext("message_stop"@))),
    ]
}

/// The error of the format, which always has a type.
pub open spec fn error_fields(message: Seq<char>, metadata: Fields) -> Fields {
    (if metadata.contains_key("type"@) {
        metadata
    } else {
        metadata.insert("type"@, jtext("api_error"@))
    }).insert("message"@, jtext(message))
}

/// The state after an event is written, and what it is written as.
pub open spec fn anthropic_event_written(s: StateView, event: EventView, ids: IdsView) -> (
    StateView,
    Result<Seq<SseView>, ErrorView>,
) {
    match event {
        EventView::MessageStart { id, model, usage } => {
            let s = StateView {
                id: Some(or_text(id, "msg_"@ + ids.item)),
                model,
                usage,
                started: true,
                ..s
            };
            (s, Ok(seq![message_start_event(s, usage)]))
        },
        EventView::ContentStart { index, content } => {
            let (s, target) = target_of(s, index);
            let s = StateView {
                open_content: s.open_content.insert(target),
                content_kinds: s.content_kinds.insert(target, kind_name(content.kind)),
                ..s
            };
            match block_start_value(content, ids) {
                Err(e) => (s, Err(e)),
                Ok(block) => (s, Ok(seq![block_start_event(target, block)])),
            }
        },
        EventView::TextDelta { index, text } => {
            let (s, target) = target_of(s, index);
            (s, Ok(seq![block_delta_event(target, "text_delta"@, "text"@, jtext(text))]))
        },
        EventView::ReasoningDelta { index, text, signature } => {
            let (s, target) = target_of(s, index);
            let thought = match text {
                Some(text) => seq![
                    block_delta_event(target, "thinking_delta"@, "thinking"@, jtext(text)),
                ],
                None => Seq::empty(),
            };
            let signed = match signature {
                Some(signature) => seq![
                    block_delta_event(target, "signature_delta"@, "signature"@, jtext(signature)),
                ],
                None => Seq::empty(),
            };
            (s, Ok(thought + signed))
        },
        EventView::RefusalDelta { index, refusal } => {
            let (s, target) = target_of(s, index);
            (s, Ok(seq![block_delta_event(target, "text_delta"@, "text"@, jtext(refusal))]))
        },
        EventView::AnnotationAdded { index, annotation } => {
            let (s, target) = target_of(s, index);
            match anthropic_annotation_value(annotation) {
                Err(e) => (s, Err(e)),
                Ok(citation) => (
                    s,
                    Ok(seq![block_delta_event(target, "citations_delta"@, "citation"@, citation)]),
                ),
            }
        },
        EventView::ToolCallDelta { index, arguments_delta, .. } => {
            let (s, target) = target_of(s, index);
            (
                s,
                Ok(
                    seq![
                        block_delta_event(
                            target,
                            "input_json_delta"@,
                            "partial_json"@,
                            jtext(arguments_delta),
                        ),
                    ],
                ),
            )
        },
        EventView::ContentEnd { index } => {
            let (s, target) = target_of(s, index);
            if s.open_content.contains(target) {
                (
                    StateView { open_content: s.open_content.remove(target), ..s },
                    Ok(seq![block_stop_event(target)]),
                )
            } else {
                (s, Ok(Seq::empty()))
            }
        },
        EventView::Usage { usage } => (
            StateView { usage: Some(merged_usage(s.usage, usage)), ..s },
            Ok(Seq::empty()),
        ),
        EventView::MessageEnd { finish_reason, usage, metadata } => {
            let total = match usage {
                Some(usage) => Some(merged_usage(s.usage, usage)),
                None => s.usage,
            };
            (
                StateView { usage: total, open_content: Set::empty(), ended: true, ..s },
                Ok(
                    block_stops(ascending(s.open_content)) + message_end_events(
                        total,
                        finish_reason,
                        metadata,
                    ),
                ),
            )
        },
        EventView::Error { message, metadata } => (
            s,
            Ok(
                seq![
                    typed_event(
                        "error"@,
                        object2(
                            "type"@,
                            jtext("error"@),
                            "error"@,
                            JsonView::Object(error_fields(message, metadata)),
                        ),
                    ),
                ],
            ),
        ),
        EventView::Raw { protocol, value } => if protocol != anthropic() {
            (
                s,
                Err(
                    ErrorView::Unsupported(
                        "Anthropic Messages cannot represent a "@ + protocol_text(protocol)
                            + " stream event"@,
                    ),
                ),
            )
        } else {
            (s, Ok(seq![typed_event(or_text(value.at("type"@).text(), "message"@), value)]))
        },
    }
}

/// `anthropic_event_written`.
pub open spec fn anthropic_write_step() -> WriteStep {
    |s: StateView, event: EventView, ids: IdsView| anthropic_event_written(s, event, ids)
}

fn write_content_start(
    index: usize,
    content: &LLMContent,
    state: &mut StreamState,
    ids: Option<&FreshIds>,
) -> (r: Result<Vec<SseEvent>, AdapterError>)
    ensures
        (final(state)@, outcomes(r)) == anthropic_event_written(
            old(state)@,
            EventView::ContentStart { index, content: content@ },
            opt_ids(ids),
        ),
{
    let target = state.target_content_index(index);
    state.open_content.insert(target);
    put_text(&mut state.content_kinds, target, anthropic_content_kind(content).to_owned());
    match anthropic_stream_content_start(content, ids) {
        Ok(block) => Ok(
            one_sse(
                SseEvent::json(
                    Some("content_block_start"),
                    &json3(
                        "type",
                        Json::text("content_block_start"),
                        "index",
                        Json::uint(target as u64),
                        "content_block",
                        block,
                    ),
                ),
            ),
        ),
        Err(e) => Err(e),
    }
}

fn write_reasoning(
    index: usize,
    text: &Option<String>,
    signature: &Option<String>,
    state: &mut StreamState,
    Ghost(ids): Ghost<IdsView>,
) -> (r: Vec<SseEvent>)
    ensures
        (final(state)@, Ok::<Seq<SseView>, ErrorView>(views(r@))) == anthropic_event_written(
            old(state)@,
            EventView::ReasoningDelta { index, text: opt_text(*text), signature: opt_text(*signature) },
            ids,
        ),
{
    let target = state.target_content_index(index);
    let mut out = no_sse();
    if let Some(text) = text {
        out = one_sse(
            block_delta_to_event(target, "thinking_delta", "thinking", Json::text(text.as_str())),
        );
    }
    let ghost thought = views(out@);
    if let Some(signature) = signature {
        let signed = block_delta_to_event(
            target,
            "signature_delta",
            "signature",
            Json::text(signature.as_str()),
        );
        add_sse(&mut out, signed);
        assert(views(out@) =~= thought + seq![signed@]);
    } else {
        assert(views(out@) =~= thought + Seq::empty());
    }
    out
}

fn stop_events(list: &Vec<usize>) -> (r: Vec<SseEvent>)
    ensures
        views(r@) == block_stops(list@),
{
    let mut out = no_sse();
    let mut i: usize = 0;
    assert(block_stops(list@.take(0)) =~= Seq::empty());
    while i < list.len()
        invariant
            i <= list@.len(),
            views(out@) == block_stops(list@.take(i as int)),
        decreases list@.len() - i,
    {
        add_sse(&mut out, block_stop_to_event(list[i]));
        assert(views(out@) =~= block_stops(list@.take(i + 1)));
        i = i + 1;
    }
    assert(list@.take(i as int) =~= list@);
    out
}

fn write_end(
    state: &mut StreamState,
    finish_reason: Option<LLMFinishReason>,
    usage: &Option<LLMUsage>,
    metadata: &JsonMap,
    Ghost(ids): Ghost<IdsView>,
) -> (r: Vec<SseEvent>)
    ensures
        (final(state)@, Ok::<Seq<SseView>, ErrorView>(views(r@))) == anthropic_event_written(
            old(state)@,
            EventView::MessageEnd { finish_reason, usage: opt_usage(*usage), metadata: metadata@ },
            ids,
        ),
{
    if let Some(usage) = usage {
        merge_usage(&mut state.usage, usage);
    }
    let list = ascending_list(&state.open_content);
    let mut out = stop_events(&list);
    state.open_content.clear();
    let ghost stops = views(out@);
    let mut delta = metadata.clone();
    let reason = match finish_reason {
        Some(reason) => anthropic_finish_reason_to_value(reason),
        None => Json::text("end_turn"),
    };
    delta.put("stop_reason", reason);
    delta.put("stop_sequence", Json::null());
    let total = match &state.usage {
        Some(usage) => anthropic_usage_to_value(usage),
        None => json1("output_tokens", Json::uint(0)),
    };
    let change = SseEvent::json(
        Some("message_delta"),
        &json3(
            "type",
            Json::text("message_delta"),
            "delta",
            Json::object(delta),
            "usage",
            total,
        ),
    );
    let stop = SseEvent::json(
        Some("message_stop"),
        &json1("type", Json::text("message_stop")),
    );
    add_sse(&mut out, change);
    add_sse(&mut out, stop);
    state.ended = true;
    assert(seq![change@, stop@] =~= message_end_events(state@.usage, finish_reason, metadata@));
    assert(views(out@) =~= stops + seq![change@, stop@]);
    assert(state.open_content@ =~= Set::empty());
    out
}

fn error_to_event(message: &str, metadata: &JsonMap) -> (r: SseEvent)
    ensures
        r@ == typed_event(
            "error"@,
            object2(
                "type"@,
                jtext("error"@),
                "error"@,
                JsonView::Object(error_fields(message@, metadata@)),
            ),
        ),
{
    let mut error = metadata.clone();
    if !error.contains_key("type") {
        error.put_text("type", "api_error");
    }
    error.put_text("message", message);
    SseEvent::json(
        Some("error"),
        &json2("type", Json::text("error"), "error", Json::object(error)),
    )
}

fn write_event(event: &LLMStreamEvent, state: &mut StreamState, ids: Option<&FreshIds>) -> (r:
    Result<Vec<SseEvent>, AdapterError>)
    ensures
        (final(state)@, outcomes(r)) == anthropic_event_written(old(state)@, event@, opt_ids(ids)),
{
    let ghost named = opt_ids(ids);
    match event {
        LLMStreamEvent::MessageStart { id, model, usage } => {
            state.id = Some(or_fresh(id, "msg_", item_id(ids)));
            state.model = copy_text(model);
            state.usage = copy_usage(usage);
            state.started = true;
            Ok(one_sse(message_start_to_event(state, usage)))
        },
        LLMStreamEvent::ContentStart { index, content } => write_content_start(
            *index,
            content,
            state,
            ids,
        ),
        LLMStreamEvent::TextDelta { index, text } => {
            let target = state.target_content_index(*index);
            Ok(
                one_sse(
                    block_delta_to_event(target, "text_delta", "text", Json::text(text.as_str())),
                ),
            )
        },
        LLMStreamEvent::ReasoningDelta { index, text, signature } => Ok(
            write_reasoning(*index, text, signature, state, Ghost(named)),
        ),
        LLMStreamEvent::RefusalDelta { index, refusal } => {
            let target = state.target_content_index(*index);
            Ok(
                one_sse(
                    block_delta_to_event(
                        target,
                        "text_delta",
                        "text",
                        Json::text(refusal.as_str()),
                    ),
                ),
            )
        },
        LLMStreamEvent::AnnotationAdded { index, annotation } => {
            let target = state.target_content_index(*index);
            match annotation_to_anthropic(annotation) {
                Ok(citation) => Ok(
                    one_sse(block_delta_to_event(target, "citations_delta", "citation", citation)),
                ),
                Err(e) => Err(e),
            }
        },
        LLMStreamEvent::ToolCallDelta { index, arguments_delta, .. } => {
            let target = state.target_content_index(*index);
            Ok(
                one_sse(
                    block_delta_to_event(
                        target,
                        "input_json_delta",
                        "partial_json",
                        Json::text(arguments_delta.as_str()),
                    ),
                ),
            )
        },
        LLMStreamEvent::ContentEnd { index } => {
            let target = state.target_content_index(*index);
            let ghost open = state.open_content@;
            if state.open_content.remove(&target) {
                Ok(one_sse(block_stop_to_event(target)))
            } else {
                assert(state.open_content@ =~= open);
                Ok(no_sse())
            }
        },
        LLMStreamEvent::Usage { usage } => {
            merge_usage(&mut state.usage, usage);
            Ok(no_sse())
        },
        LLMStreamEvent::MessageEnd { finish_reason, usage, metadata } => Ok(
            write_end(state, *finish_reason, usage, metadata, Ghost(named)),
        ),
        LLMStreamEvent::Error { message, metadata } => Ok(
            one_sse(error_to_event(message.as_str(), metadata)),
        ),
        LLMStreamEvent::Raw { protocol, value } => {
            if *protocol != LLMProtocol::AnthropicMessages {
                let mut message = "Anthropic Messages cannot represent a ".to_owned();
                message.push_str(protocol_name(*protocol));
                message.push_str(" stream event");
                return Err(AdapterError::Unsupported(message));
            }
            Ok(
                one_sse(
                    SseEvent::json(Some(value.text_at("type").unwrap_or("message")), value),
                ),
            )
        },
    }
}

/// Writes events, with the given identifiers where the format wants one that the stream does not
/// have.
pub fn write_events(
    events: &[LLMStreamEvent],
    state: &mut StreamState,
    ids: Option<&FreshIds>,
) -> (r: Result<Vec<SseEvent>, AdapterError>)
    ensures
        (final(state)@, outcomes(r)) == written(
            views(events@),
            opt_ids(ids),
            old(state)@,
            anthropic_write_step(),
        ),
{
    let ghost all = views(events@);
    let ghost named = opt_ids(ids);
    let ghost start = state@;
    let ghost step = anthropic_write_step();
    let mut out = no_sse();
    let mut i: usize = 0;
    assert(all.take(0) =~= Seq::empty());
    while i < events.len()
        invariant
            all == views(events@),
            named == opt_ids(ids),
            start == old(state)@,
            step == anthropic_write_step(),
            i <= events@.len(),
            written(all.take(i as int), named, start, step) == (
                state@,
                Ok::<Seq<SseView>, ErrorView>(views(out@)),
            ),
        decreases events@.len() - i,
    {
        assert(all.take(i + 1).drop_last() =~= all.take(i as int));
        assert(all.take(i + 1).last() == events@[i as int]@);
        let ghost done = views(out@);
        match write_event(&events[i], state, ids_at(ids, i)) {
            Ok(mut more) => {
                let ghost added = views(more@);
                out.append(&mut more);
                assert(views(out@) =~= done + added);
            },
            Err(e) => {
                proof {
                    written_fails(all, named, start, step, i + 1);
                }
                return Err(e);
            },
        }
        i = i + 1;
    }
    assert(all.take(i as int) =~= all);
    Ok(out)
}

} // verus!
