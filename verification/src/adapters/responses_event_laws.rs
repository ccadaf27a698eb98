//! What the events of a Responses stream say, by the names on the wire.

use super::annotations::{openai_annotation, openai_annotation_value};
use super::common::{array0, object1, object2};
use super::error::ErrorView;
use super::event_laws::{numbered_as, tells, typed};
use super::fresh::IdsView;
use super::names::names_differ;
use super::openai_responses::{
    incomplete_text, output_of, reasoning_item_of, responses_reason_of, responses_usage_of,
    responses_usage_value, status_text,
};
use super::part_laws::says;
use super::responses_stream::{
    about, cited_values, content_id_text, final_event, item_completed, item_started, known_id,
    output_text, response_object, responses_event_written, responses_parsed_read,
};
use super::sse::SseView;
use super::state::{get, target_of, StateView};
use crate::json::{jint, jopt, JsonView};
use crate::model::{no_fields, EventView, Fields, KindView, LLMProtocol};
use crate::text::or_text;
use vstd::prelude::*;

verus! {

/// Whether an event adds a piece to the item of an index.
pub open spec fn adds_to_item(
    e: SseView,
    v: JsonView,
    kind: Seq<char>,
    index: usize,
    piece: Seq<char>,
) -> bool {
    typed(e, v, kind) && numbered_as(v, "output_index"@, index) && says(v, "delta"@, piece)
}

/// Whether an event names the item of an index by the identifier that it began with.
pub open spec fn names_item(v: JsonView, s: StateView, index: usize) -> bool {
    get(s.content_ids, index) matches Some(id) ==> says(v, "item_id"@, id)
}

/// What is kept of the item of an index to be told at its end.
pub open spec fn kept_of(s: StateView, index: usize) -> Seq<char> {
    match get(s.content_buffers, index) {
        Some(text) => text,
        None => Seq::empty(),
    }
}

spec fn sent_value(kind: Seq<char>, fields: Fields, n: u64) -> JsonView {
    JsonView::Object(
        fields.insert("type"@, JsonView::Text(kind)).insert(
            "sequence_number"@,
            jint(n),
        ),
    )
}

/// A piece of a text, of a refusal or of the arguments of a call that is written for Responses is
/// added to the item of its part, and to what is kept of it.
pub proof fn responses_pieces_written(
    s: StateView,
    event: EventView,
    ids: IdsView,
    now: i64,
) -> (v: JsonView)
    ensures
        ({
            let (after, sent) = responses_event_written(s, event, ids, now);
            match event {
                EventView::TextDelta { index, text } => {
                    let t = after.content_indices[index];
                    &&& get(after.content_indices, index) is Some
                    &&& sent matches Ok(out) && out.len() == 1 && adds_to_item(
                        out[0],
                        v,
                        "response.output_text.delta"@,
                        t,
                        text,
                    )
                    &&& kept_of(after, t) == kept_of(s, t) + text
                    &&& names_item(v, s, t)
                },
                EventView::RefusalDelta { index, refusal } => {
                    let t = after.content_indices[index];
                    &&& get(after.content_indices, index) is Some
                    &&& sent matches Ok(out) && out.len() == 1 && adds_to_item(
                        out[0],
                        v,
                        "response.refusal.delta"@,
                        t,
                        refusal,
                    )
                    &&& kept_of(after, t) == kept_of(s, t) + refusal
                    &&& names_item(v, s, t)
                },
                EventView::ToolCallDelta { index, arguments_delta, .. } => {
                    let t = after.content_indices[index];
                    &&& get(after.content_indices, index) is Some
                    &&& sent matches Ok(out) && out.len() == 1 && adds_to_item(
                        out[0],
                        v,
                        "response.function_call_arguments.delta"@,
                        t,
                        arguments_delta,
                    )
                    &&& kept_of(after, t) == kept_of(s, t) + arguments_delta
                    &&& names_item(v, s, t)
                },
                EventView::AnnotationAdded { index, annotation } => sent matches Ok(out) ==> {
                    let t = after.content_indices[index];
                    &&& get(after.content_indices, index) is Some
                    &&& out.len() == 1
                    &&& typed(out[0], v, "response.output_text.annotation.added"@)
                    &&& numbered_as(v, "output_index"@, t)
                    &&& names_item(v, s, t)
                    &&& openai_annotation_value(annotation, LLMProtocol::OpenAiResponses) == Ok::<
                        JsonView,
                        ErrorView,
                    >(v.at("annotation"@))
                    &&& get(after.content_annotations, t) matches Some(list) && list == (match get(
                        s.content_annotations,
                        t,
                    ) {
                        Some(list) => list,
                        None => Seq::empty(),
                    }).push(annotation)
                },
                EventView::MessageStart { id, model, usage } => {
                    let response = v.at("response"@);
                    &&& sent matches Ok(out) && out.len() == 1 && typed(
                        out[0],
                        v,
                        "response.created"@,
                    )
                    &&& response.at("id"@) == jopt(after.id)
                    &&& response.at("model"@) == jopt(model)
                    &&& says(response, "status"@, "in_progress"@)
                    &&& says(response, "object"@, "response"@)
                    &&& usage matches Some(u) ==> response.at("usage"@) == responses_usage_value(u)
                    &&& id is Some ==> after.id == id
                    &&& id is None ==> after.id == Some("resp_"@ + ids.item)
                    &&& after.usage == usage
                },
                EventView::Usage { usage } => (sent matches Ok(out) && out.len() == 0)
                    && after.usage == Some(usage),
                EventView::Error { message, .. } => sent matches Ok(out) && out.len() == 1 && typed(
                    out[0],
                    v,
                    "error"@,
                ) && says(v.at("error"@), "message"@, message),
                EventView::Raw { protocol, value } => {
                    &&& protocol == LLMProtocol::OpenAiResponses ==> (sent matches Ok(out)
                        && out.len() == 1 && tells(out[0], value))
                    &&& protocol != LLMProtocol::OpenAiResponses ==> sent is Err
                },
                EventView::MessageEnd { finish_reason, usage, metadata } => {
                    let response = v.at("response"@);
                    let status = status_text(finish_reason);
                    &&& after.ended
                    &&& usage is Some ==> after.usage == usage
                    &&& usage is None ==> after.usage == s.usage
                    &&& sent matches Ok(out) && out.len() == 1 && (status == "failed"@ ==> typed(
                        out[0],
                        v,
                        "response.failed"@,
                    )) && (status == "incomplete"@ ==> typed(out[0], v, "response.incomplete"@)) && (
                    status != "failed"@ && status != "incomplete"@ ==> typed(
                        out[0],
                        v,
                        "response.completed"@,
                    ))
                    &&& !metadata.contains_key("status"@) ==> says(response, "status"@, status)
                    &&& !metadata.contains_key("id"@) ==> response.at("id"@) == jopt(s.id)
                    &&& !metadata.contains_key("model"@) ==> response.at("model"@) == jopt(s.model)
                    &&& !metadata.contains_key("output"@) ==> response.at("output"@)
                        == JsonView::Array(s.completed_items)
                    &&& !metadata.contains_key("usage"@) ==> (after.usage matches Some(u)
                        ==> response.at("usage"@) == responses_usage_value(u))
                    &&& status == "incomplete"@ ==> says(
                        response.at("incomplete_details"@),
                        "reason"@,
                        incomplete_text(finish_reason),
                    )
                },
                _ => true,
            }
        }),
{
    names_differ();
    reveal_strlit("");
    assert(""@ =~= Seq::<char>::empty());
    let (after, sent) = responses_event_written(s, event, ids, now);
    let n = s.sequence_number;
    match event {
        EventView::TextDelta { index, text } => {
            let t = target_of(s, index).1;
            let id = known_id(s, t, "msg_"@ + ids.item);
            sent_value(
                "response.output_text.delta"@,
                about(id, t).insert(
                    "content_index"@,
                    jint(0),
                ).insert("delta"@, JsonView::Text(text)),
                n,
            )
        },
        EventView::RefusalDelta { index, refusal } => {
            let t = target_of(s, index).1;
            let id = known_id(s, t, "msg_"@ + ids.item);
            sent_value(
                "response.refusal.delta"@,
                about(id, t).insert(
                    "content_index"@,
                    jint(0),
                ).insert("delta"@, JsonView::Text(refusal)),
                n,
            )
        },
        EventView::ToolCallDelta { index, arguments_delta, .. } => {
            let t = target_of(s, index).1;
            let id = known_id(s, t, "fc_"@ + ids.item);
            sent_value(
                "response.function_call_arguments.delta"@,
                about(id, t).insert("delta"@, JsonView::Text(arguments_delta)),
                n,
            )
        },
        EventView::AnnotationAdded { index, annotation } => {
            let t = target_of(s, index).1;
            let id = known_id(s, t, "msg_"@ + ids.item);
            let list = match get(s.content_annotations, t) {
                Some(list) => list,
                None => Seq::empty(),
            };
            sent_value(
                "response.output_text.annotation.added"@,
                about(id, t).insert(
                    "content_index"@,
                    jint(0),
                ).insert("annotation_index"@, jint(list.len() as u64)).insert(
                    "annotation"@,
                    openai_annotation_value(annotation, LLMProtocol::OpenAiResponses)->Ok_0,
                ),
                n,
            )
        },
        EventView::MessageStart { usage, .. } => {
            sent_value(
                "response.created"@,
                no_fields().insert(
                    "response"@,
                    JsonView::Object(
                        response_object(
                            after,
                            "in_progress"@,
                            usage,
                            now,
                        ),
                    ),
                ),
                n,
            )
        },
        EventView::Error { message, metadata } => {
            sent_value(
                "error"@,
                no_fields().insert(
                    "error"@,
                    JsonView::Object(metadata.insert("message"@, JsonView::Text(message))),
                ),
                n,
            )
        },
        EventView::MessageEnd { finish_reason, usage, metadata } => {
            let status = status_text(finish_reason);
            let t = match usage {
                Some(usage) => StateView { usage: Some(usage), ..s },
                None => s,
            };
            let response = response_object(
                t,
                status,
                t.usage,
                now,
            ).union_prefer_right(metadata);
            let response = if status == "incomplete"@ {
                response.insert(
                    "incomplete_details"@,
                    object1("reason"@, JsonView::Text(incomplete_text(finish_reason))),
                )
            } else {
                response
            };
            sent_value(
                final_event(status),
                no_fields().insert("response"@, JsonView::Object(response)),
                n,
            )
        },
        _ => { JsonView::Null },
    }
}

/// Reasoning that is written for Responses is added to the item of its part, and to what is kept
/// of it; its signature follows.
pub proof fn responses_thoughts_written(
    s: StateView,
    event: EventView,
    ids: IdsView,
    now: i64,
) -> (vs: (JsonView, JsonView))
    ensures
        event matches EventView::ReasoningDelta { index, text, signature } ==> {
            let (after, sent) = responses_event_written(s, event, ids, now);
            let t = after.content_indices[index];
            &&& get(after.content_indices, index) is Some
            &&& sent matches Ok(out) && out.len() == if text is Some {
                1int
            } else {
                0int
            } + if signature is Some {
                1int
            } else {
                0int
            }
            &&& text matches Some(text) ==> (sent matches Ok(out) && adds_to_item(
                out[0],
                vs.0,
                "response.reasoning_summary_text.delta"@,
                t,
                text,
            )) && kept_of(after, t) == kept_of(s, t) + text && names_item(vs.0, s, t)
            &&& text is None ==> kept_of(after, t) == kept_of(s, t)
            &&& signature matches Some(text) ==> (sent matches Ok(out) && adds_to_item(
                out.last(),
                vs.1,
                "response.reasoning_text.delta"@,
                t,
                text,
            ))
        },
{
    names_differ();
    reveal_strlit("");
    assert(""@ =~= Seq::<char>::empty());
    match event {
        EventView::ReasoningDelta { index, text, signature } => {
            let t = target_of(s, index).1;
            let n = s.sequence_number;
            let m = if text is Some {
                n.wrapping_add(1)
            } else {
                n
            };
            let base = about(
                known_id(s, t, "rs_"@ + ids.item),
                t,
            );
            (
                sent_value(
                    "response.reasoning_summary_text.delta"@,
                    base.insert("summary_index"@, jint(0)).insert(
                        "delta"@,
                        JsonView::Text(match text {
                            Some(text) => text,
                            None => Seq::empty(),
                        }),
                    ),
                    n,
                ),
                sent_value(
                    "response.reasoning_text.delta"@,
                    base.insert(
                        "delta"@,
                        JsonView::Text(match signature {
                            Some(text) => text,
                            None => Seq::empty(),
                        }),
                    ),
                    m,
                ),
            )
        },
        _ => { (JsonView::Null, JsonView::Null) },
    }
}

/// A part that begins is written for Responses as an item of its kind, with nothing kept of it
/// yet; a call with its name and identifier, a text or a refusal with an empty part.
pub proof fn responses_parts_begin(
    s: StateView,
    event: EventView,
    ids: IdsView,
    now: i64,
) -> (vs: (JsonView, JsonView))
    ensures
        event matches EventView::ContentStart { index, content } ==> {
            let (after, sent) = responses_event_written(s, event, ids, now);
            let t = after.content_indices[index];
            let v = vs.0;
            let item = v.at("item"@);
            let part = vs.1.at("part"@);
            &&& get(after.content_indices, index) is Some
            &&& content.kind is ToolResult ==> sent is Err
            &&& sent matches Ok(out) ==> {
                &&& out.len() == if content.kind is ToolCall || content.kind is Reasoning {
                    1int
                } else {
                    2int
                }
                &&& typed(out[0], v, "response.output_item.added"@)
                &&& numbered_as(v, "output_index"@, t)
                &&& kept_of(after, t) == Seq::<char>::empty()
                &&& after.open_content.contains(t)
                &&& get(after.content_ids, t) is Some
                &&& says(item, "id"@, after.content_ids[t])
                &&& says(item, "status"@, "in_progress"@)
                &&& content.kind matches KindView::ToolCall { id, name, .. } ==> says(
                    item,
                    "type"@,
                    "function_call"@,
                ) && says(item, "name"@, name) && item.at("call_id"@) == jopt(id) && get(
                    after.tool_names,
                    t,
                ) == Some(name) && get(after.tool_call_ids, t) == Some(
                    match id {
                        Some(id) => id,
                        None => "call_"@ + ids.call,
                    },
                ) && get(after.content_kinds, t) == Some("tool_call"@)
                &&& content.kind is Reasoning ==> says(item, "type"@, "reasoning"@) && get(
                    after.content_kinds,
                    t,
                ) == Some("reasoning"@)
                &&& out.len() == 2 ==> typed(out[1], vs.1, "response.content_part.added"@)
                    && numbered_as(vs.1, "output_index"@, t) && says(
                    vs.1,
                    "item_id"@,
                    after.content_ids[t],
                )
                &&& content.kind is Text ==> says(part, "type"@, "output_text"@) && says(
                    part,
                    "text"@,
                    Seq::empty(),
                )
                &&& content.kind is Refusal ==> says(part, "type"@, "refusal"@) && says(
                    part,
                    "refusal"@,
                    Seq::empty(),
                )
                &&& content.kind is Refusal ==> says(item, "type"@, "message"@) && get(
                    after.content_kinds,
                    t,
                ) == Some("refusal"@)
                &&& content.kind matches KindView::Text { annotations, .. } ==> says(
                    item,
                    "type"@,
                    "message"@,
                ) && says(item, "role"@, "assistant"@) && get(after.content_kinds, t) == Some(
                    "text"@,
                ) && get(after.content_annotations, t) == Some(annotations)
            }
        },
{
    names_differ();
    reveal_strlit("");
    assert(""@ =~= Seq::<char>::empty());
    match event {
        EventView::ContentStart { index, content } => {
            let t = target_of(s, index).1;
            let n = s.sequence_number;
            let id = content_id_text(content, ids);
            let part = if content.kind is Refusal {
                object2("type"@, JsonView::Text("refusal"@), "refusal"@, JsonView::Text(""@))
            } else {
                output_text(""@, array0())
            };
            match item_started(content, id) {
                Ok((_, item)) => {
                    (
                        sent_value(
                            "response.output_item.added"@,
                            no_fields().insert("output_index"@, jint(t as u64)).insert(
                                "item"@,
                                item,
                            ),
                            n,
                        ),
                        sent_value(
                            "response.content_part.added"@,
                            about(id, t).insert("content_index"@, jint(0)).insert("part"@, part),
                            n.wrapping_add(1),
                        ),
                    )
                },
                Err(_) => { (JsonView::Null, JsonView::Null) },
            }
        },
        _ => { (JsonView::Null, JsonView::Null) },
    }
}

/// A part that ends is told whole to a Responses client: as the item that is done, with all that
/// was kept of it, and the item is kept for the end of the answer.
pub proof fn responses_parts_end(
    s: StateView,
    event: EventView,
    ids: IdsView,
    now: i64,
) -> (vs: (JsonView, JsonView, JsonView))
    ensures
        event matches EventView::ContentEnd { index } ==> {
            let (after, sent) = responses_event_written(s, event, ids, now);
            let t = after.content_indices[index];
            let kind = match get(s.content_kinds, t) {
                Some(kind) => kind,
                None => "text"@,
            };
            let item = vs.1.at("item"@);
            &&& get(after.content_indices, index) is Some
            &&& sent matches Ok(out) ==> {
                &&& out.len() > 0
                &&& typed(out.last(), vs.1, "response.output_item.done"@)
                &&& numbered_as(vs.1, "output_index"@, t)
                &&& after.completed_items == s.completed_items.push(item)
                &&& !after.open_content.contains(t)
                &&& says(item, "status"@, "completed"@)
                &&& get(s.content_ids, t) matches Some(id) ==> says(item, "id"@, id)
                &&& kind == "tool_call"@ ==> out.len() == 2 && typed(
                    out[0],
                    vs.0,
                    "response.function_call_arguments.done"@,
                ) && says(vs.0, "arguments"@, kept_of(s, t)) && numbered_as(
                    vs.0,
                    "output_index"@,
                    t,
                ) && says(item, "type"@, "function_call"@) && says(
                    item,
                    "arguments"@,
                    kept_of(s, t),
                ) && item.at("name"@) == jopt(get(s.tool_names, t)) && item.at("call_id"@) == jopt(
                    get(s.tool_call_ids, t),
                )
                &&& kind == "text"@ ==> out.len() == 3 && typed(
                    out[0],
                    vs.0,
                    "response.output_text.done"@,
                ) && says(vs.0, "text"@, kept_of(s, t)) && numbered_as(vs.0, "output_index"@, t)
                    && says(item, "type"@, "message"@) && item.at("content"@).list().len() == 1
                    && says(item.at("content"@).list()[0], "text"@, kept_of(s, t)) && says(
                    item.at("content"@).list()[0],
                    "type"@,
                    "output_text"@,
                ) && cited_values(s, t) == Ok::<Seq<JsonView>, ErrorView>(
                    item.at("content"@).list()[0].at("annotations"@).list(),
                )
                &&& kind == "text"@ ==> typed(out[1], vs.2, "response.content_part.done"@) && says(
                    vs.2.at("part"@),
                    "text"@,
                    kept_of(s, t),
                ) && says(vs.2.at("part"@), "type"@, "output_text"@) && vs.2.at("part"@).at(
                    "annotations"@,
                ) == item.at("content"@).list()[0].at("annotations"@)
                &&& kind == "text"@ || kind == "tool_call"@ ==> names_item(vs.0, s, t)
                &&& kind == "reasoning"@ ==> says(item, "type"@, "reasoning"@) && item.at(
                    "summary"@,
                ).list().len() == 1 && says(item.at("summary"@).list()[0], "text"@, kept_of(s, t))
                &&& kind == "refusal"@ ==> says(item, "type"@, "message"@) && item.at(
                    "content"@,
                ).list().len() == 1 && says(
                    item.at("content"@).list()[0],
                    "refusal"@,
                    kept_of(s, t),
                )
            }
        },
{
    names_differ();
    reveal_strlit("");
    assert(""@ =~= Seq::<char>::empty());
    match event {
        EventView::ContentEnd { index } => {
            let (u, t) = target_of(s, index);
            let n = s.sequence_number;
            let id = or_text(get(s.content_ids, t), ""@);
            let kind = or_text(get(s.content_kinds, t), "text"@);
            let base = about(id, t);
            let first = if kind == "tool_call"@ {
                sent_value(
                    "response.function_call_arguments.done"@,
                    base.insert("arguments"@, JsonView::Text(kept_of(s, t))),
                    n,
                )
            } else {
                sent_value(
                    "response.output_text.done"@,
                    base.insert("content_index"@, jint(0)).insert(
                        "text"@,
                        JsonView::Text(kept_of(s, t)),
                    ),
                    n,
                )
            };
            let m = if kind == "tool_call"@ {
                n.wrapping_add(1)
            } else if kind == "text"@ {
                n.wrapping_add(1).wrapping_add(1)
            } else {
                n
            };
            assert(kept_of(u, t) == kept_of(s, t) && cited_values(u, t) == cited_values(s, t));
            let item = item_completed(s, t, id, kind)->Ok_0;
            (
                first,
                sent_value(
                    "response.output_item.done"@,
                    no_fields().insert("output_index"@, jint(t as u64)).insert(
                        "item"@,
                        item,
                    ),
                    m,
                ),
                sent_value(
                    "response.content_part.done"@,
                    base.insert("content_index"@, jint(0)).insert(
                        "part"@,
                        output_text(kept_of(s, t), JsonView::Array(cited_values(s, t)->Ok_0)),
                    ),
                    n.wrapping_add(1),
                ),
            )
        },
        _ => { (JsonView::Null, JsonView::Null, JsonView::Null) },
    }
}

/// What an event of a Responses stream says is read from the names of the format.
pub proof fn responses_events_read(
    v: JsonView,
    name: Option<Seq<char>>,
    s: StateView,
    n: usize,
    text: Seq<char>,
)
    ensures
        ({
            let (after, read) = responses_parsed_read(Some(v), name, s);
            let item = v.at("item"@);
            &&& numbered_as(v, "output_index"@, n) && says(v, "delta"@, text) ==> {
                &&& says(v, "type"@, "response.output_text.delta"@) ==> after == s && (
                read matches Ok(events) && events == seq![EventView::TextDelta { index: n, text }])
                &&& says(v, "type"@, "response.refusal.delta"@) ==> after == s && (
                read matches Ok(events) && events == seq![
                    EventView::RefusalDelta { index: n, refusal: text },
                ])
                &&& says(v, "type"@, "response.reasoning_summary_text.delta"@) || says(
                    v,
                    "type"@,
                    "response.reasoning_text.delta"@,
                ) ==> after == s && (read matches Ok(events) && events == seq![
                    EventView::ReasoningDelta { index: n, text: Some(text), signature: None },
                ])
                &&& says(v, "type"@, "response.function_call_arguments.delta"@) ==> after == s && (
                read matches Ok(events) && events == seq![
                    EventView::ToolCallDelta {
                        index: n,
                        id: v.at("item_id"@).text(),
                        name: v.at("name"@).text(),
                        arguments_delta: text,
                    },
                ])
            }
            &&& says(v, "type"@, "response.output_text.annotation.added"@) && numbered_as(
                v,
                "output_index"@,
                n,
            ) ==> (read matches Ok(events) && events == seq![
                EventView::AnnotationAdded {
                    index: n,
                    annotation: openai_annotation(
                        v.at("annotation"@),
                        LLMProtocol::OpenAiResponses,
                    ),
                },
            ])
            &&& says(v, "type"@, "response.output_item.added"@) && numbered_as(
                v,
                "output_index"@,
                n,
            ) && says(item, "type"@, "function_call"@) && says(item, "name"@, text) ==> (
            read matches Ok(events) && events.len() > 0 && after.open_content.contains(n) && (
            events.last() matches EventView::ContentStart { index, content } && index == n && (
            content.kind matches KindView::ToolCall { id, name: read_name, .. } && read_name == text
                && (item.at("call_id"@) is Text ==> id == item.at("call_id"@).text()))))
            &&& says(v, "type"@, "response.output_item.added"@) && numbered_as(
                v,
                "output_index"@,
                n,
            ) && says(item, "type"@, "message"@) ==> (read matches Ok(events) && events.len() > 0
                && after.open_content.contains(n) && (
            events.last() matches EventView::ContentStart { index, content } && index == n
                && content.kind is Text))
            &&& says(v, "type"@, "response.output_item.added"@) && numbered_as(
                v,
                "output_index"@,
                n,
            ) && says(item, "type"@, "reasoning"@) ==> (read matches Ok(events) && events.len() > 0
                && after.open_content.contains(n) && events.last() == (EventView::ContentStart {
                index: n,
                content: reasoning_item_of(item),
            }))
            &&& says(v, "type"@, "response.output_item.done"@) && numbered_as(
                v,
                "output_index"@,
                n,
            ) && s.open_content.contains(n) ==> (read matches Ok(events) && events == seq![
                EventView::ContentEnd { index: n },
            ]) && after.open_content == s.open_content.remove(n)
            &&& says(v, "type"@, "response.created"@) && !s.started ==> (read matches Ok(events)
                && events.len() == 1 && (events[0] matches EventView::MessageStart {
                id,
                model,
                usage,
            } && id == v.at("response"@).at("id"@).text() && model == v.at("response"@).at(
                "model"@,
            ).text() && (v.at("response"@).at("usage"@) is Object ==> usage == responses_usage_of(
                v.at("response"@).at("usage"@),
            ))))
            &&& says(v, "type"@, "error"@) && says(v.at("error"@), "message"@, text) ==> (
            read matches Ok(events) && events.len() == 1 && (events[0] matches EventView::Error {
                message,
                ..
            } && message == text))
        }),
        responses_parsed_read(None, name, s).1 is Err,
{
    names_differ();
}

/// The end of a Responses stream ends what is open and tells why the answer ended and what it
/// cost.
pub proof fn responses_ends_read(
    v: JsonView,
    name: Option<Seq<char>>,
    s: StateView,
    status: Seq<char>,
)
    requires
        says(v, "type"@, "response.completed"@) || says(v, "type"@, "response.incomplete"@) || says(
            v,
            "type"@,
            "response.failed"@,
        ),
        says(v.at("response"@), "status"@, status),
    ensures
        ({
            let (after, read) = responses_parsed_read(Some(v), name, s);
            let response = v.at("response"@);
            &&& output_of(response.at("output"@).list()) is Err ==> read is Err
            &&& output_of(response.at("output"@).list()) matches Ok(content) ==> after.ended
                && after.open_content == Set::<usize>::empty() && (read matches Ok(events)
                && events.len() > 0 && (events.last() matches EventView::MessageEnd {
                finish_reason,
                usage,
                ..
            } && finish_reason == Some(
                responses_reason_of(status, response.at("incomplete_details"@), content),
            ) && (response.at("usage"@) is Object ==> usage == responses_usage_of(
                response.at("usage"@),
            ))))
        }),
{
    names_differ();
}

} // verus!
