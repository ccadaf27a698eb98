//! What the events of a stream say in each format, by the names on the wire.

use super::annotations::{anthropic_annotation, anthropic_annotation_value, openai_annotation_value};
use super::anthropic::{
    anthropic_block_of, anthropic_reason_of, anthropic_reason_text, anthropic_usage_of,
    anthropic_usage_value,
};
use super::anthropic_stream::{
    anthropic_event_written, anthropic_parsed_read, block_start_value, error_fields, merged_usage,
    start_usage,
};
use super::chat_stream::{call_delta, chat_event_written};
use super::common::{array0, array1, object0, object1, object2, object3};
use super::error::ErrorView;
use super::fresh::IdsView;
use super::names::names_differ;
use super::openai_chat::{chat_reason_text, chat_usage_value};
use super::part_laws::says;
use super::sse::SseView;
use super::state::{get, target_of, StateView};
use crate::json::{int_num, jint, jopt, with_some, with_text, JsonView, NumView};
use crate::model::{no_fields, ContentView, EventView, KindView, LLMProtocol};
use crate::wire::value_text;
use vstd::prelude::*;

verus! {

/// Whether the data of an event is the text of a value.
pub open spec fn tells(e: SseView, v: JsonView) -> bool {
    e.data == value_text(v)
}

/// Whether the event is a value of its own type, under that type's name.
pub open spec fn typed(e: SseView, v: JsonView, kind: Seq<char>) -> bool {
    tells(e, v) && e.event == Some(kind) && says(v, "type"@, kind)
}

/// What the first choice of a chunk adds.
pub open spec fn chunk_delta(v: JsonView) -> JsonView {
    if v.at("choices"@).list().len() > 0 {
        v.at("choices"@).list()[0].at("delta"@)
    } else {
        JsonView::Null
    }
}

/// The call that a chunk adds to.
pub open spec fn chunk_call(v: JsonView) -> JsonView {
    if chunk_delta(v).at("tool_calls"@).list().len() > 0 {
        chunk_delta(v).at("tool_calls"@).list()[0]
    } else {
        JsonView::Null
    }
}

/// Whether a chunk adds to no other fields than two.
pub open spec fn adds_only(v: JsonView, a: Seq<char>, b: Seq<char>) -> bool {
    forall|k: Seq<char>| #[trigger] chunk_delta(v).field(k) is Some ==> k == a || k == b
}

/// Whether a value is a chunk of the response that is being written.
pub open spec fn chunk_of(v: JsonView, s: StateView, now: i64) -> bool {
    let choices = v.at("choices"@).list();
    &&& v.at("id"@) == jopt(s.id)
    &&& v.at("model"@) == jopt(s.model)
    &&& says(v, "object"@, "chat.completion.chunk"@)
    &&& v.at("created"@) == JsonView::Number(int_num(now))
    &&& choices.len() <= 1
    &&& choices.len() == 1 ==> numbered_as(choices[0], "index"@, 0)
}

/// Whether a field holds an index.
pub open spec fn numbered_as(v: JsonView, name: Seq<char>, n: usize) -> bool {
    v.at(name) == JsonView::Number(NumView::PosInt(n as u64))
}

/// What a call's chunk holds.
pub open spec fn tells_call(
    v: JsonView,
    index: usize,
    id: Option<Seq<char>>,
    name: Option<Seq<char>>,
    arguments: Seq<char>,
) -> bool {
    let call = chunk_call(v);
    &&& numbered_as(call, "index"@, index)
    &&& call.at("id"@) == jopt(id)
    &&& says(call, "type"@, "function"@)
    &&& call.at("function"@).at("name"@) == jopt(name)
    &&& says(call.at("function"@), "arguments"@, arguments)
}

spec fn chunk_value(
    s: StateView,
    delta: JsonView,
    finish_reason: Option<JsonView>,
    usage: Option<JsonView>,
    now: i64,
) -> JsonView {
    let choices = if usage is Some && delta == object0() && finish_reason is None {
        array0()
    } else {
        array1(
            object3(
                "index"@,
                jint(0),
                "delta"@,
                delta,
                "finish_reason"@,
                match finish_reason {
                    Some(reason) => reason,
                    None => JsonView::Null,
                },
            ),
        )
    };
    JsonView::Object(
        with_some(
            no_fields().insert("id"@, jopt(s.id)).insert(
                "object"@,
                JsonView::Text("chat.completion.chunk"@),
            ).insert("created"@, JsonView::Number(int_num(now))).insert(
                "model"@,
                jopt(s.model),
            ).insert("choices"@, choices),
            "usage"@,
            usage,
        ),
    )
}

/// A piece of a text, of reasoning, of a refusal or of a call that is written for Chat is one
/// chunk that holds it, at the index of its part.
pub proof fn chat_pieces_written(s: StateView, event: EventView, ids: IdsView, now: i64) -> (v:
    JsonView)
    ensures
        ({
            let (after, sent) = chat_event_written(s, event, ids, now);
            match event {
                EventView::TextDelta { text, .. } => sent matches Ok(out) && out.len() == 1 && tells(
                    out[0],
                    v,
                ) && chunk_of(v, s, now) && says(chunk_delta(v), "content"@, text) && adds_only(
                    v,
                    "content"@,
                    "content"@,
                ) && after == s,
                EventView::ReasoningDelta { text, signature, .. } => sent matches Ok(out)
                    && out.len() == 1 && tells(out[0], v) && chunk_of(v, s, now) && adds_only(
                    v,
                    "reasoning_content"@,
                    "reasoning_signature"@,
                ) && chunk_delta(v).at(
                    "reasoning_content"@,
                ).text() == text && chunk_delta(v).at("reasoning_signature"@).text() == signature
                    && after == s,
                EventView::RefusalDelta { refusal, .. } => sent matches Ok(out) && out.len() == 1
                    && tells(out[0], v) && chunk_of(v, s, now) && adds_only(v, "refusal"@, "refusal"@)
                    && says(chunk_delta(v), "refusal"@, refusal)
                    && after == s,
                EventView::AnnotationAdded { annotation, .. } => sent matches Ok(out) ==> out.len()
                    == 1 && tells(out[0], v) && chunk_of(v, s, now) && adds_only(
                    v,
                    "annotations"@,
                    "annotations"@,
                ) && chunk_delta(v).at(
                    "annotations"@,
                ).list().len() == 1 && openai_annotation_value(annotation, LLMProtocol::OpenAiChat)
                    == Ok::<JsonView, ErrorView>(chunk_delta(v).at("annotations"@).list()[0])
                    && after == s,
                EventView::ToolCallDelta { index, id, name, arguments_delta } => sent matches Ok(out)
                    && out.len() == 1 && tells(out[0], v) && chunk_of(v, s, now) && adds_only(
                    v,
                    "tool_calls"@,
                    "tool_calls"@,
                ) && get(after.content_indices, index) is Some && tells_call(
                    v,
                    after.content_indices[index],
                    id,
                    name,
                    arguments_delta,
                ),
                EventView::ContentStart { index, content } => {
                    &&& sent is Ok
                    &&& get(after.content_indices, index) is Some
                    &&& after.open_content.contains(after.content_indices[index])
                    &&& content.kind matches KindView::ToolCall { id, name, .. } ==> (
                    sent matches Ok(out) && out.len() == 1 && tells(out[0], v) && chunk_of(v, s, now)
                        && adds_only(v, "tool_calls"@, "tool_calls"@) && tells_call(
                        v,
                        after.content_indices[index],
                        id,
                        Some(name),
                        Seq::empty(),
                    ))
                    &&& !(content.kind is ToolCall) ==> (sent matches Ok(out) && out.len() == 0)
                },
                EventView::MessageStart { id, model, .. } => {
                    &&& sent matches Ok(out) && out.len() == 1 && tells(out[0], v) && chunk_of(v, after, now) && says(chunk_delta(v), "role"@, "assistant"@) && says(
                        chunk_delta(v),
                        "content"@,
                        Seq::empty(),
                    ) && adds_only(v, "role"@, "content"@)
                    &&& after.model == model
                    &&& id is Some ==> after.id == id
                    &&& id is None ==> after.id == Some("chatcmpl_"@ + ids.item)
                },
                EventView::ContentEnd { .. } => sent matches Ok(out) && out.len() == 0,
                EventView::Usage { usage } => (sent matches Ok(out) && out.len() == 0)
                    && after.usage == Some(usage),
                EventView::Error { message, .. } => sent matches Ok(out) && out.len() == 1 && tells(
                    out[0],
                    v,
                ) && says(v.at("error"@), "message"@, message) && v.field("choices"@) is None,
                EventView::Raw { protocol, value } => {
                    &&& protocol == LLMProtocol::OpenAiChat ==> (sent matches Ok(out) && out.len()
                        == 1 && tells(out[0], value))
                    &&& protocol != LLMProtocol::OpenAiChat ==> sent is Err
                },
                EventView::MessageEnd { .. } => true,
            }
        }),
{
    names_differ();
    reveal_strlit("");
    assert(""@ =~= Seq::<char>::empty());
    let (after, sent) = chat_event_written(s, event, ids, now);
    match event {
        EventView::TextDelta { text, .. } => {
            chunk_value(s, object1("content"@, JsonView::Text(text)), None, None, now)
        },
        EventView::ReasoningDelta { text, signature, .. } => {
            let delta = JsonView::Object(
                with_text(
                    with_text(no_fields(), "reasoning_content"@, text),
                    "reasoning_signature"@,
                    signature,
                ),
            );
            chunk_value(s, delta, None, None, now)
        },
        EventView::RefusalDelta { refusal, .. } => {
            chunk_value(
                s,
                object1("refusal"@, JsonView::Text(refusal)),
                None,
                None,
                now,
            )
        },
        EventView::AnnotationAdded { annotation, .. } => {
            chunk_value(
                s,
                object1(
                    "annotations"@,
                    array1(
                        openai_annotation_value(annotation, LLMProtocol::OpenAiChat)->Ok_0,
                    ),
                ),
                None,
                None,
                now,
            )
        },
        EventView::ToolCallDelta { index, id, name, arguments_delta } => {
            chunk_value(
                after,
                call_delta(
                    target_of(s, index).1,
                    id,
                    name,
                    arguments_delta,
                ),
                None,
                None,
                now,
            )
        },
        EventView::ContentStart { index, content } => {
            match content.kind {
                KindView::ToolCall { id, name, .. } => {
                    chunk_value(
                        after,
                        call_delta(
                            target_of(s, index).1,
                            id,
                            Some(name),
                            ""@,
                        ),
                        None,
                        None,
                        now,
                    )
                },
                _ => { JsonView::Null },
            }
        },
        EventView::MessageStart { .. } => {
            chunk_value(
                after,
                object2(
                    "role"@,
                    JsonView::Text("assistant"@),
                    "content"@,
                    JsonView::Text(""@),
                ),
                None,
                None,
                now,
            )
        },
        EventView::Error { message, metadata } => {
            object1(
                "error"@,
                JsonView::Object(metadata.insert("message"@, JsonView::Text(message))),
            )
        },
        _ => { JsonView::Null },
    }
}

/// The end of a message that is written for Chat is a chunk that tells why it ended, another with
/// what it cost, where that is known, and the mark of the end.
pub proof fn chat_ends_written(s: StateView, event: EventView, ids: IdsView, now: i64) -> (vs: (
    JsonView,
    JsonView,
))
    ensures
        event matches EventView::MessageEnd { finish_reason, usage, .. } ==> {
            let (after, sent) = chat_event_written(s, event, ids, now);
            let end = vs.0.at("choices"@).list();
            &&& after.ended
            &&& usage is Some ==> after.usage == usage
            &&& usage is None ==> after.usage == s.usage
            &&& sent matches Ok(out) && out.len() == if after.usage is Some {
                3int
            } else {
                2int
            } && tells(out[0], vs.0) && out.last().data == "[DONE]"@ && chunk_of(vs.0, s, now)
                && end.len() == 1 && chunk_delta(vs.0) == object0() && (
            finish_reason matches Some(reason) ==> says(
                end[0],
                "finish_reason"@,
                chat_reason_text(reason),
            )) && (finish_reason is None ==> end[0].at("finish_reason"@) == JsonView::Null) && (
            after.usage matches Some(total) ==> tells(out[1], vs.1) && vs.1.at("usage"@)
                == chat_usage_value(total) && chunk_of(vs.1, s, now) && chunk_delta(vs.1)
                == JsonView::Null)
        },
{
    names_differ();
    let (after, sent) = chat_event_written(s, event, ids, now);
    match event {
        EventView::MessageEnd { finish_reason, .. } => {
            (
                chunk_value(
                    s,
                    object0(),
                    match finish_reason {
                        Some(reason) => Some(JsonView::Text(chat_reason_text(reason))),
                        None => None,
                    },
                    None,
                    now,
                ),
                chunk_value(
                    s,
                    object0(),
                    None,
                    match after.usage {
                        Some(total) => Some(chat_usage_value(total)),
                        None => None,
                    },
                    now,
                ),
            )
        },
        _ => { (JsonView::Null, JsonView::Null) },
    }
}

/// Whether an event adds a piece to the block of an index.
pub open spec fn adds_to_block(
    e: SseView,
    v: JsonView,
    index: usize,
    kind: Seq<char>,
    key: Seq<char>,
    piece: JsonView,
) -> bool {
    typed(e, v, "content_block_delta"@) && numbered_as(v, "index"@, index) && says(
        v.at("delta"@),
        "type"@,
        kind,
    ) && v.at("delta"@).at(key) == piece && (forall|k: Seq<char>| #[trigger]
        v.at("delta"@).field(k) is Some ==> k == "type"@ || k == key)
}

spec fn block_piece(index: usize, kind: Seq<char>, key: Seq<char>, piece: JsonView) -> JsonView {
    object3(
        "type"@,
        JsonView::Text("content_block_delta"@),
        "index"@,
        jint(index as u64),
        "delta"@,
        object2("type"@, JsonView::Text(kind), key, piece),
    )
}

/// A piece of a text, of reasoning, of a refusal or of a call that is written for Messages is
/// added to the block of its part.
pub proof fn messages_pieces_written(s: StateView, event: EventView, ids: IdsView) -> (vs: Seq<
    JsonView,
>)
    ensures
        ({
            let (after, sent) = anthropic_event_written(s, event, ids);
            match event {
                EventView::TextDelta { index, text } => get(after.content_indices, index) is Some
                    && (sent matches Ok(out) && out.len() == 1 && vs.len() == 1 && adds_to_block(
                    out[0],
                    vs[0],
                    after.content_indices[index],
                    "text_delta"@,
                    "text"@,
                    JsonView::Text(text),
                )),
                EventView::RefusalDelta { index, refusal } => get(
                    after.content_indices,
                    index,
                ) is Some && (sent matches Ok(out) && out.len() == 1 && vs.len() == 1
                    && adds_to_block(
                    out[0],
                    vs[0],
                    after.content_indices[index],
                    "text_delta"@,
                    "text"@,
                    JsonView::Text(refusal),
                )),
                EventView::ToolCallDelta { index, arguments_delta, .. } => get(
                    after.content_indices,
                    index,
                ) is Some && (sent matches Ok(out) && out.len() == 1 && vs.len() == 1
                    && adds_to_block(
                    out[0],
                    vs[0],
                    after.content_indices[index],
                    "input_json_delta"@,
                    "partial_json"@,
                    JsonView::Text(arguments_delta),
                )),
                EventView::ReasoningDelta { index, text, signature } => {
                    &&& get(after.content_indices, index) is Some
                    &&& sent matches Ok(out) && out.len() == vs.len()
                    &&& text matches Some(text) ==> (sent matches Ok(out) && out.len() > 0
                        && adds_to_block(
                        out[0],
                        vs[0],
                        after.content_indices[index],
                        "thinking_delta"@,
                        "thinking"@,
                        JsonView::Text(text),
                    ))
                    &&& signature matches Some(signature) ==> (sent matches Ok(out) && out.len() > 0
                        && adds_to_block(
                        out.last(),
                        vs.last(),
                        after.content_indices[index],
                        "signature_delta"@,
                        "signature"@,
                        JsonView::Text(signature),
                    ))
                    &&& vs.len() == if text is Some {
                        1int
                    } else {
                        0int
                    } + if signature is Some {
                        1int
                    } else {
                        0int
                    }
                },
                EventView::AnnotationAdded { index, annotation } => sent matches Ok(out) ==> get(
                    after.content_indices,
                    index,
                ) is Some && out.len() == 1 && vs.len() == 1 && (anthropic_annotation_value(
                    annotation,
                ) matches Ok(citation) && adds_to_block(
                    out[0],
                    vs[0],
                    after.content_indices[index],
                    "citations_delta"@,
                    "citation"@,
                    citation,
                )),
                EventView::ContentStart { index, content } => {
                    &&& get(after.content_indices, index) is Some
                    &&& after.open_content.contains(after.content_indices[index])
                    &&& sent matches Ok(out) ==> out.len() == 1 && vs.len() == 1 && typed(
                        out[0],
                        vs[0],
                        "content_block_start"@,
                    ) && numbered_as(vs[0], "index"@, after.content_indices[index])
                        && block_start_value(content, ids) == Ok::<JsonView, ErrorView>(
                        vs[0].at("content_block"@),
                    )
                },
                EventView::ContentEnd { index } => {
                    &&& get(after.content_indices, index) is Some
                    &&& !after.open_content.contains(after.content_indices[index])
                    &&& s.open_content.contains(after.content_indices[index]) ==> (
                    sent matches Ok(out) && out.len() == 1 && vs.len() == 1 && typed(
                        out[0],
                        vs[0],
                        "content_block_stop"@,
                    ) && numbered_as(vs[0], "index"@, after.content_indices[index]))
                    &&& !s.open_content.contains(after.content_indices[index]) ==> (
                    sent matches Ok(out) && out.len() == 0 && vs.len() == 0)
                },
                EventView::MessageStart { id, model, usage } => {
                    &&& sent matches Ok(out) && out.len() == 1 && vs.len() == 1 && typed(
                        out[0],
                        vs[0],
                        "message_start"@,
                    )
                    &&& vs[0].at("message"@).at("id"@) == jopt(after.id)
                    &&& vs[0].at("message"@).at("model"@) == jopt(model)
                    &&& says(vs[0].at("message"@), "role"@, "assistant"@)
                    &&& vs[0].at("message"@).at("content"@) == JsonView::Array(Seq::empty())
                    &&& usage matches Some(u) ==> vs[0].at("message"@).at("usage"@)
                        == anthropic_usage_value(u)
                    &&& usage is None ==> numbered_as(
                        vs[0].at("message"@).at("usage"@),
                        "input_tokens"@,
                        0,
                    ) && numbered_as(vs[0].at("message"@).at("usage"@), "output_tokens"@, 0)
                    &&& vs[0].at("message"@).at("stop_reason"@) == JsonView::Null
                    &&& id is Some ==> after.id == id
                    &&& id is None ==> after.id == Some("msg_"@ + ids.item)
                    &&& after.usage == usage
                },
                EventView::Usage { usage } => (sent matches Ok(out) && out.len() == 0 && vs.len() == 0)
                    && after.usage == Some(merged_usage(s.usage, usage)),
                EventView::Error { message, metadata } => sent matches Ok(out) && out.len() == 1
                    && vs.len() == 1 && typed(out[0], vs[0], "error"@) && says(
                    vs[0].at("error"@),
                    "message"@,
                    message,
                ) && (!metadata.contains_key("type"@) ==> says(
                    vs[0].at("error"@),
                    "type"@,
                    "api_error"@,
                )) && (metadata.contains_key("type"@) ==> vs[0].at("error"@).at("type"@)
                    == metadata["type"@]),
                EventView::Raw { protocol, value } => {
                    &&& protocol == LLMProtocol::AnthropicMessages ==> (sent matches Ok(out)
                        && out.len() == 1 && tells(out[0], value))
                    &&& protocol != LLMProtocol::AnthropicMessages ==> sent is Err
                },
                EventView::MessageEnd { finish_reason, usage, .. } => {
                    &&& after.ended
                    &&& after.open_content == Set::<usize>::empty()
                    &&& usage is None ==> after.usage == s.usage
                    &&& usage matches Some(u) ==> after.usage == Some(merged_usage(s.usage, u))
                    &&& sent matches Ok(out) && out.len() >= 2 && vs.len() == 2 && typed(
                        out[out.len() - 2],
                        vs[0],
                        "message_delta"@,
                    ) && typed(out.last(), vs[1], "message_stop"@)
                    &&& finish_reason matches Some(reason) ==> says(
                        vs[0].at("delta"@),
                        "stop_reason"@,
                        anthropic_reason_text(reason),
                    )
                    &&& finish_reason is None ==> says(vs[0].at("delta"@), "stop_reason"@, "end_turn"@)
                    &&& after.usage matches Some(total) ==> vs[0].at("usage"@)
                        == anthropic_usage_value(total)
                },
            }
        }),
{
    names_differ();
    let (after, sent) = anthropic_event_written(s, event, ids);
    match event {
        EventView::TextDelta { index, text } => {
            seq![block_piece(target_of(s, index).1, "text_delta"@, "text"@, JsonView::Text(text))]
        },
        EventView::RefusalDelta { index, refusal } => {
            seq![
                block_piece(target_of(s, index).1, "text_delta"@, "text"@, JsonView::Text(refusal)),
            ]
        },
        EventView::ToolCallDelta { index, arguments_delta, .. } => {
            seq![
                block_piece(
                    target_of(s, index).1,
                    "input_json_delta"@,
                    "partial_json"@,
                    JsonView::Text(arguments_delta),
                ),
            ]
        },
        EventView::ReasoningDelta { index, text, signature } => {
            let t = target_of(s, index).1;
            let thought = match text {
                Some(text) => seq![
                    block_piece(t, "thinking_delta"@, "thinking"@, JsonView::Text(text)),
                ],
                None => Seq::empty(),
            };
            let signed = match signature {
                Some(text) => seq![
                    block_piece(t, "signature_delta"@, "signature"@, JsonView::Text(text)),
                ],
                None => Seq::empty(),
            };
            thought + signed
        },
        EventView::AnnotationAdded { index, annotation } => {
            seq![
                block_piece(
                    target_of(s, index).1,
                    "citations_delta"@,
                    "citation"@,
                    anthropic_annotation_value(annotation)->Ok_0,
                ),
            ]
        },
        EventView::ContentStart { index, content } => {
            seq![
                object3(
                    "type"@,
                    JsonView::Text("content_block_start"@),
                    "index"@,
                    jint(target_of(s, index).1 as u64),
                    "content_block"@,
                    block_start_value(content, ids)->Ok_0,
                ),
            ]
        },
        EventView::ContentEnd { index } => {
            if s.open_content.contains(target_of(s, index).1) {
                seq![
                    object2(
                        "type"@,
                        JsonView::Text("content_block_stop"@),
                        "index"@,
                        jint(target_of(s, index).1 as u64),
                    ),
                ]
            } else {
                Seq::empty()
            }
        },
        EventView::MessageStart { usage, .. } => {
            let message = no_fields().insert("id"@, jopt(after.id)).insert(
                "type"@,
                JsonView::Text("message"@),
            ).insert("role"@, JsonView::Text("assistant"@)).insert("model"@, jopt(after.model)).insert(
                "content"@,
                array0(),
            ).insert("stop_reason"@, JsonView::Null).insert("stop_sequence"@, JsonView::Null).insert(
                "usage"@,
                start_usage(usage),
            );
            seq![
                object2(
                    "type"@,
                    JsonView::Text("message_start"@),
                    "message"@,
                    JsonView::Object(message),
                ),
            ]
        },
        EventView::Error { message, metadata } => {
            seq![
                object2(
                    "type"@,
                    JsonView::Text("error"@),
                    "error"@,
                    JsonView::Object(error_fields(message, metadata)),
                ),
            ]
        },
        EventView::MessageEnd { finish_reason, metadata, .. } => {
            let delta = metadata.insert(
                "stop_reason"@,
                JsonView::Text(
                    match finish_reason {
                        Some(reason) => anthropic_reason_text(reason),
                        None => "end_turn"@,
                    },
                ),
            ).insert("stop_sequence"@, JsonView::Null);
            seq![
                object3(
                    "type"@,
                    JsonView::Text("message_delta"@),
                    "delta"@,
                    JsonView::Object(delta),
                    "usage"@,
                    match after.usage {
                        Some(usage) => anthropic_usage_value(usage),
                        None => object1("output_tokens"@, jint(0)),
                    },
                ),
                object1("type"@, JsonView::Text("message_stop"@)),
            ]
        },
        _ => { Seq::empty() },
    }
}

/// The block of a part begins with its kind; of a call, with its identifier and name too.
pub proof fn messages_blocks_begin(c: ContentView, ids: IdsView)
    ensures
        match c.kind {
            KindView::Text { .. } | KindView::Refusal { .. } => block_start_value(c, ids) matches Ok(
                v,
            ) && says(v, "type"@, "text"@) && says(v, "text"@, Seq::empty()),
            KindView::ToolCall { id, name, .. } => block_start_value(c, ids) matches Ok(v) && says(
                v,
                "type"@,
                "tool_use"@,
            ) && says(v, "name"@, name) && v.at("input"@) == object0() && (id matches Some(id)
                ==> says(v, "id"@, id)) && (id is None ==> says(v, "id"@, "toolu_"@ + ids.item)),
            KindView::Reasoning { encrypted_content, .. } => block_start_value(c, ids) matches Ok(v)
                && (encrypted_content matches Some(data) ==> says(v, "type"@, "redacted_thinking"@)
                && says(v, "data"@, data)) && (encrypted_content is None ==> says(
                v,
                "type"@,
                "thinking"@,
            ) && says(v, "thinking"@, Seq::empty())),
            _ => true,
        },
{
    names_differ();
    reveal_strlit("");
    assert(""@ =~= Seq::<char>::empty());
}

/// What an event of a Messages stream says is read from the names of the format.
pub proof fn messages_events_read(
    v: JsonView,
    name: Option<Seq<char>>,
    s: StateView,
    n: usize,
    text: Seq<char>,
)
    ensures
        ({
            let (after, read) = anthropic_parsed_read(Some(v), name, s);
            let delta = v.at("delta"@);
            &&& says(v, "type"@, "content_block_delta"@) && numbered_as(v, "index"@, n) ==> {
                &&& after == s
                &&& says(delta, "type"@, "text_delta"@) && says(delta, "text"@, text) ==> (
                read matches Ok(events) && events == seq![EventView::TextDelta { index: n, text }])
                &&& says(delta, "type"@, "input_json_delta"@) && says(
                    delta,
                    "partial_json"@,
                    text,
                ) ==> (read matches Ok(events) && events == seq![
                    EventView::ToolCallDelta {
                        index: n,
                        id: None,
                        name: None,
                        arguments_delta: text,
                    },
                ])
                &&& says(delta, "type"@, "thinking_delta"@) && says(delta, "thinking"@, text) ==> (
                read matches Ok(events) && events == seq![
                    EventView::ReasoningDelta { index: n, text: Some(text), signature: None },
                ])
                &&& says(delta, "type"@, "signature_delta"@) && says(delta, "signature"@, text) ==> (
                read matches Ok(events) && events == seq![
                    EventView::ReasoningDelta { index: n, text: None, signature: Some(text) },
                ])
                &&& says(delta, "type"@, "citations_delta"@) ==> (read matches Ok(events) && events
                    == seq![
                    EventView::AnnotationAdded {
                        index: n,
                        annotation: anthropic_annotation(delta.at("citation"@)),
                    },
                ])
            }
            &&& says(v, "type"@, "content_block_start"@) && numbered_as(v, "index"@, n) ==> (
            read matches Ok(events) && events.last() == (EventView::ContentStart {
                index: n,
                content: anthropic_block_of(v.at("content_block"@)),
            }) && after.open_content == s.open_content.insert(n) && (s.started ==> events.len()
                == 1))
            &&& says(v, "type"@, "content_block_stop"@) && numbered_as(v, "index"@, n) ==> (
            read matches Ok(events) && events == seq![EventView::ContentEnd { index: n }]
                && after.open_content == s.open_content.remove(n))
            &&& says(v, "type"@, "message_start"@) ==> (read matches Ok(events) && events.len() == 1
                && (events[0] matches EventView::MessageStart { id, model, usage } && id == v.at(
                "message"@,
            ).at("id"@).text() && model == v.at("message"@).at("model"@).text() && (v.at(
                "message"@,
            ).at("usage"@) is Object ==> usage == anthropic_usage_of(v.at("message"@).at("usage"@)))
                && after.usage == usage))
            &&& says(v, "type"@, "message_delta"@) && says(delta, "stop_reason"@, text)
                ==> after.finish_reason == Some(anthropic_reason_of(text))
            &&& says(v, "type"@, "message_delta"@) ==> (v.at("usage"@) is Object ==> (
            anthropic_usage_of(v.at("usage"@)) matches Some(update) && after.usage == Some(
                merged_usage(s.usage, update),
            ) && (read matches Ok(events) && events == seq![
                EventView::Usage { usage: merged_usage(s.usage, update) },
            ])))
            &&& says(v, "type"@, "message_stop"@) ==> after.ended && (read matches Ok(events)
                && events.last() == (EventView::MessageEnd {
                finish_reason: s.finish_reason,
                usage: s.usage,
                metadata: no_fields(),
            }))
            &&& says(v, "type"@, "error"@) && says(v.at("error"@), "message"@, text) ==> (
            read matches Ok(events) && events.len() == 1 && (events[0] matches EventView::Error {
                message,
                ..
            } && message == text))
            &&& says(v, "type"@, "ping"@) ==> after == s && (read matches Ok(events) && events.len()
                == 0)
        }),
        anthropic_parsed_read(None, name, s).1 is Err,
{
    names_differ();
}

} // verus!
