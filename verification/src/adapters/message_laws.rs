//! What messages say in each format, by the names on the wire.

use super::annotations::{openai_annotation_writer, openai_annotations};
use super::anthropic::{anthropic_block_value, anthropic_blocks_value};
use super::common::{all_text, arguments_of, arguments_text};
use super::error::ErrorView;
use super::fresh::IdsView;
use super::names::names_differ;
use super::openai_chat::{
    all_annotations, chat_audio_value, chat_call_of, chat_call_reader, chat_call_value,
    chat_call_values, chat_content_of, chat_content_value, chat_content_writer, chat_message_of,
    chat_message_value, chat_message_writer, chat_parts_of, chat_request_value, chat_visible_value,
    first_audio, first_result, is_visible, reasoning_text, refusal_text, visible_parts,
    with_annotations,
};
use super::openai_responses::{
    input_items, input_parts, message_items, output_item_of, output_of, output_parts, output_value,
    reasoning_item_of, reasoning_item_value, responses_body_value, responses_content_of,
    responses_item_of, responses_part_value, responses_part_writer, responses_request_value,
    summary_of,
};
use super::part_laws::says;
use super::request_laws::chat_request_made;
use crate::json::JsonView;
use crate::model::{
    text_part, texts_joined, AnnotationView, ContentView, KindView, LLMProtocol, LLMRole,
    MessageView, RequestView,
};
use crate::seqs::{try_map_each, try_map_ids};
use crate::text::joined;
use vstd::prelude::*;

verus! {

/// What one more part adds to what a message says: its text to the texts, its reasoning to the
/// reasoning, its refusal to the refusal, its citations to the citations, and a call to the calls.
pub proof fn one_more_part(a: Seq<ContentView>, c: ContentView, ids: IdsView)
    ensures
        texts_joined(Seq::empty()) == Seq::<char>::empty(),
        texts_joined(a.push(c)) == texts_joined(a) + match c.kind {
            KindView::Text { text, .. } => text,
            _ => Seq::empty(),
        },
        reasoning_text(Seq::empty()) == Seq::<char>::empty(),
        reasoning_text(a.push(c)) == reasoning_text(a) + match c.kind {
            KindView::Reasoning { text: Some(text), .. } => text,
            KindView::Reasoning { text: None, summary, .. } => joined(summary, "\n"@),
            _ => Seq::empty(),
        },
        refusal_text(Seq::empty()) == Seq::<char>::empty(),
        refusal_text(a.push(c)) == refusal_text(a) + match c.kind {
            KindView::Refusal { refusal } => refusal,
            _ => Seq::empty(),
        },
        all_annotations(Seq::empty()) == Seq::<AnnotationView>::empty(),
        all_annotations(a.push(c)) == all_annotations(a) + match c.kind {
            KindView::Text { annotations, .. } => annotations,
            _ => Seq::empty(),
        },
        visible_parts(Seq::empty()) == Seq::<ContentView>::empty(),
        visible_parts(a.push(c)) == visible_parts(a) + if is_visible(c) {
            seq![c]
        } else {
            Seq::empty()
        },
        c.kind is Text || c.kind is Image || c.kind is File || c.kind is Raw ==> is_visible(c),
        c.kind is ToolCall || c.kind is ToolResult || c.kind is Reasoning || c.kind is Refusal
            ==> !is_visible(c),
        chat_call_values(Seq::empty(), ids) == Seq::<JsonView>::empty(),
        chat_call_values(a.push(c), ids) == chat_call_values(a, ids) + match c.kind {
            KindView::ToolCall { id, name, arguments } => seq![
                chat_call_value(id, name, arguments, ids.at(a.len() as int)),
            ],
            _ => Seq::empty(),
        },
        first_result(Seq::empty()) is None,
        first_result(a) is Some ==> first_result(a.push(c)) == first_result(a),
        first_result(a) is None ==> first_result(a.push(c)) == match c.kind {
            KindView::ToolResult { tool_call_id, content, .. } => Some((tool_call_id, content)),
            _ => None,
        },
        first_audio(a) is Some ==> first_audio(a.push(c)) == first_audio(a),
{
    assert(a.push(c).drop_last() =~= a);
    if let KindView::Reasoning { text: None, summary, .. } = c.kind {
        if summary.len() == 0 {
            assert(joined(summary, "\n"@) =~= Seq::empty());
        }
    }
}

/// The blocks of a message are written one by one, in order.
pub proof fn one_more_block(a: Seq<ContentView>, c: ContentView, ids: IdsView)
    ensures
        anthropic_blocks_value(Seq::empty(), ids) == Ok::<Seq<JsonView>, ErrorView>(Seq::empty()),
        anthropic_blocks_value(a.push(c), ids) matches Ok(all) ==> (anthropic_blocks_value(
            a,
            ids,
        ) matches Ok(before) && (anthropic_block_value(c, ids.at(a.len() as int)) matches Ok(v)
            && all == before.push(v))),
{
    assert(a.push(c).drop_last() =~= a);
}

/// The name of a role in Chat and Responses.
pub open spec fn role_name(role: LLMRole) -> Seq<char> {
    match role {
        LLMRole::System => "system"@,
        LLMRole::Developer => "developer"@,
        LLMRole::User => "user"@,
        LLMRole::Assistant => "assistant"@,
        LLMRole::Tool => "tool"@,
    }
}

/// Parts that a Chat message shows are one text where all are texts, else a list of the parts.
pub proof fn shown_parts(s: Seq<ContentView>, i: int)
    ensures
        all_text(s) ==> chat_visible_value(s) == Ok::<JsonView, ErrorView>(
            JsonView::Text(texts_joined(s)),
        ),
        !all_text(s) ==> (chat_visible_value(s) matches Ok(v) ==> v is Array && v.list().len()
            == s.len() && (0 <= i < s.len() ==> chat_content_value(s[i]) == Ok::<
            JsonView,
            ErrorView,
        >(v.list()[i]))),
        all_text(s) ==> responses_body_value(s, LLMRole::User) == Ok::<JsonView, ErrorView>(
            JsonView::Text(texts_joined(s)),
        ),
{
    try_map_each(s, chat_content_writer());
    if 0 <= i < s.len() {
        assert(chat_content_writer()(s[i]) == chat_content_value(s[i]));
    }
}

/// Parts that a Responses message shows are one text where all are texts, else a list of the
/// parts.
pub proof fn shown_parts_in_responses(s: Seq<ContentView>, role: LLMRole, i: int)
    ensures
        all_text(s) ==> responses_body_value(s, role) == Ok::<JsonView, ErrorView>(
            JsonView::Text(texts_joined(s)),
        ),
        !all_text(s) ==> (responses_body_value(s, role) matches Ok(v) ==> v is Array
            && v.list().len() == s.len() && (0 <= i < s.len() ==> responses_part_value(s[i], role)
            == Ok::<JsonView, ErrorView>(v.list()[i]))),
{
    try_map_each(s, responses_part_writer(role));
    if 0 <= i < s.len() {
        assert(responses_part_writer(role)(s[i]) == responses_part_value(s[i], role));
    }
}

/// A message that is written for Chat holds its role, what it shows, its calls, its reasoning and
/// its refusal under the names of the format.
pub proof fn chat_messages_written(m: MessageView, ids: IdsView)
    requires
        m.role != LLMRole::Tool,
    ensures
        chat_message_value(m, ids) matches Ok(v) ==> {
            &&& says(v, "role"@, role_name(m.role))
            &&& m.name matches Some(name) ==> says(v, "name"@, name)
            &&& visible_parts(m.content).len() == 0 ==> v.at("content"@) == JsonView::Null
            &&& visible_parts(m.content).len() > 0 ==> chat_visible_value(
                visible_parts(m.content),
            ) == Ok::<JsonView, ErrorView>(v.at("content"@))
            &&& chat_call_values(m.content, ids).len() > 0 ==> v.at("tool_calls"@)
                == JsonView::Array(chat_call_values(m.content, ids))
            &&& reasoning_text(m.content).len() > 0 ==> says(
                v,
                "reasoning_content"@,
                reasoning_text(m.content),
            )
            &&& refusal_text(m.content).len() > 0 ==> says(v, "refusal"@, refusal_text(m.content))
            &&& first_audio(m.content) matches Some(c) ==> v.at("audio"@) == chat_audio_value(c)
            &&& all_annotations(m.content).len() > 0 ==> v.at("annotations"@).list().len()
                == all_annotations(m.content).len()
        },
{
    names_differ();
    try_map_each(
        all_annotations(m.content),
        openai_annotation_writer(LLMProtocol::OpenAiChat),
    );
}

/// The result of a call is written for Chat with the identifier of the call and what came back.
pub proof fn chat_results_written(m: MessageView, ids: IdsView)
    requires
        m.role == LLMRole::Tool,
    ensures
        first_result(m.content) is None ==> chat_message_value(m, ids) is Err,
        chat_message_value(m, ids) matches Ok(v) ==> (first_result(m.content) matches Some(
            (id, parts),
        ) && says(v, "role"@, "tool"@) && says(v, "tool_call_id"@, id) && chat_visible_value(parts)
            == Ok::<JsonView, ErrorView>(v.at("content"@))),
{
    names_differ();
}

pub(crate) proof fn each_with_ids<A, B>(
    s: Seq<A>,
    ids: IdsView,
    f: spec_fn(A, IdsView) -> Result<B, ErrorView>,
    i: int,
)
    ensures
        try_map_ids(s, ids, f) matches Ok(out) ==> out.len() == s.len() && (0 <= i < s.len() ==> f(
            s[i],
            ids.at(i),
        ) == Ok::<B, ErrorView>(out[i])),
    decreases s.len(),
{
    if s.len() > 0 {
        each_with_ids(s.drop_last(), ids, f, i);
    }
}

/// Each message of a conversation is written for Chat, in order.
pub proof fn every_message_in_chat(r: RequestView, ids: IdsView, i: int)
    ensures
        chat_request_value(r, ids) matches Ok(v) ==> v.at("messages"@) is Array && v.at(
            "messages"@,
        ).list().len() == r.messages.len() && (0 <= i < r.messages.len() ==> chat_message_value(
            r.messages[i],
            ids.at(i),
        ) == Ok::<JsonView, ErrorView>(v.at("messages"@).list()[i])),
{
    chat_request_made(r, ids);
    each_with_ids(r.messages, ids, chat_message_writer(), i);
    if 0 <= i < r.messages.len() {
        assert(chat_message_writer()(r.messages[i], ids.at(i)) == chat_message_value(
            r.messages[i],
            ids.at(i),
        ));
    }
}

/// A message that is read from Chat has the role that it names; what it shows comes first, in
/// order, then its reasoning, its refusal and its sound, then its calls, in order.
pub proof fn chat_messages_read(v: JsonView, reasoning: Seq<char>, refusal: Seq<char>, i: int)
    requires
        v.field("annotations"@) is None,
        v.field("function_call"@) is None,
        !says(v, "role"@, "tool"@),
        !says(v, "role"@, "function"@),
    ensures
        chat_message_of(v) matches Ok(m) ==> {
            let shown = chat_content_of(v.at("content"@));
            let calls = v.at("tool_calls"@).list();
            let n = shown.len() as int;
            &&& says(v, "role"@, role_name(m.role))
            &&& m.role != LLMRole::Tool
            &&& m.name == v.at("name"@).text()
            &&& m.content.len() >= n + calls.len()
            &&& 0 <= i < n ==> m.content[i] == shown[i]
            &&& 0 <= i < calls.len() ==> chat_call_of(calls[i]) == Ok::<ContentView, ErrorView>(
                m.content[m.content.len() - calls.len() + i],
            )
            &&& v.field("reasoning_content"@) is None && v.field("reasoning"@) is None && v.field(
                "refusal"@,
            ) is None && v.field("audio"@) is None ==> m.content.len() == n + calls.len()
            &&& says(v, "reasoning_content"@, reasoning) ==> m.content.len() > n + calls.len() && (
            m.content[n].kind matches KindView::Reasoning { text, signature, .. } && text == Some(
                reasoning,
            ) && signature == v.at("reasoning_signature"@).text())
            &&& says(v, "refusal"@, refusal) && v.field("reasoning_content"@) is None && v.field(
                "reasoning"@,
            ) is None ==> m.content.len() > n + calls.len() && m.content[n].kind
                == (KindView::Refusal { refusal })
        },
{
    names_differ();
    let calls = v.at("tool_calls"@).list();
    try_map_each(calls, chat_call_reader());
    if 0 <= i < calls.len() {
        assert(chat_call_reader()(calls[i]) == chat_call_of(calls[i]));
    }
    let none = openai_annotations(v.at("annotations"@), LLMProtocol::OpenAiChat);
    assert(none.len() == 0);
    assert(with_annotations(chat_content_of(v.at("content"@)), none) == chat_content_of(
        v.at("content"@),
    ));
}

/// The result of a call that is read from Chat has the identifier of the call and what came back.
pub proof fn chat_results_read(v: JsonView, id: Seq<char>, text: Seq<char>)
    requires
        says(v, "role"@, "tool"@),
        says(v, "tool_call_id"@, id),
        says(v, "content"@, text),
        v.field("annotations"@) is None,
        v.field("reasoning_content"@) is None,
        v.field("reasoning"@) is None,
        v.field("refusal"@) is None,
        v.field("audio"@) is None,
        v.field("tool_calls"@) is None,
        v.field("function_call"@) is None,
    ensures
        chat_message_of(v) matches Ok(m) && m.role == LLMRole::Tool && m.content.len() == 1 && (
        m.content[0].kind matches KindView::ToolResult { tool_call_id, content, .. }
            && tool_call_id == id && content == seq![text_part(text)]),
{
    names_differ();
    let none = openai_annotations(v.at("annotations"@), LLMProtocol::OpenAiChat);
    assert(none.len() == 0);
    let calls = v.at("tool_calls"@).list();
    assert(calls.len() == 0);
    try_map_each(calls, chat_call_reader());
    let parts = chat_parts_of(v);
    assert(parts is Ok);
    assert(parts->Ok_0 =~= seq![text_part(text)]);
}

/// What one more part adds to the items of a Responses request: a call, the result of a call or
/// reasoning is an item of its own; another part is shown by the message.
pub proof fn one_more_input(a: Seq<ContentView>, c: ContentView, ids: IdsView)
    ensures
        input_parts(Seq::empty(), ids) matches Ok(none) && none.items.len() == 0
            && none.visible.len() == 0,
        input_parts(a.push(c), ids) matches Ok(all) ==> (input_parts(a, ids) matches Ok(before) && {
            let item = all.items.last();
            match c.kind {
                KindView::ToolCall { id, name, arguments } => {
                    &&& all.visible == before.visible
                    &&& all.items == before.items.push(item)
                    &&& says(item, "type"@, "function_call"@)
                    &&& says(item, "name"@, name)
                    &&& id matches Some(id) ==> says(item, "call_id"@, id)
                    &&& id is None ==> says(item, "call_id"@, "call_"@ + ids.at(a.len() as int).call)
                    &&& says(item, "arguments"@, arguments_text(arguments))
                },
                KindView::ToolResult { tool_call_id, content, is_error } => {
                    &&& all.visible == before.visible
                    &&& all.items == before.items.push(item)
                    &&& says(item, "type"@, "function_call_output"@)
                    &&& says(item, "call_id"@, tool_call_id)
                    &&& all_text(content) ==> says(item, "output"@, texts_joined(content))
                    &&& !all_text(content) ==> responses_body_value(content, LLMRole::Tool) == Ok::<
                        JsonView,
                        ErrorView,
                    >(item.at("output"@))
                    &&& is_error == Some(true) ==> says(item, "status"@, "failed"@)
                    &&& is_error != Some(true) ==> says(item, "status"@, "completed"@)
                },
                KindView::Reasoning { .. } => all.visible == before.visible && all.items
                    == before.items.push(reasoning_item_value(c, ids.at(a.len() as int))),
                KindView::Raw { value, .. } => all.visible == before.visible && all.items
                    == before.items.push(value),
                _ => all.items == before.items && all.visible == before.visible.push(c),
            }
        }),
{
    names_differ();
    assert(a.push(c).drop_last() =~= a);
}

/// A message is its items in a Responses request, and at the end, with its role, what it shows.
pub proof fn messages_in_responses(m: MessageView, ids: IdsView)
    ensures
        message_items(m, ids) matches Ok(items) ==> (input_parts(m.content, ids) matches Ok(all) && {
            &&& all.visible.len() == 0 ==> items == all.items
            &&& all.visible.len() > 0 ==> items.len() == all.items.len() + 1 && items.drop_last()
                == all.items && says(items.last(), "type"@, "message"@) && says(
                items.last(),
                "role"@,
                role_name(m.role),
            ) && responses_body_value(all.visible, m.role) == Ok::<JsonView, ErrorView>(
                items.last().at("content"@),
            )
        }),
{
    names_differ();
    if let Ok(all) = input_parts(m.content, ids) {
        if all.visible.len() > 0 {
            if let Ok(items) = message_items(m, ids) {
                assert(items.drop_last() =~= all.items);
            }
        }
    }
}

/// The items of the messages follow one another in a Responses request.
pub proof fn every_message_in_responses(a: Seq<MessageView>, m: MessageView, ids: IdsView)
    ensures
        input_items(Seq::empty(), ids) == Ok::<Seq<JsonView>, ErrorView>(Seq::empty()),
        input_items(a.push(m), ids) matches Ok(all) ==> (input_items(a, ids) matches Ok(before) && (
        message_items(m, ids.at(a.len() as int)) matches Ok(more) && all == before + more)),
{
    assert(a.push(m).drop_last() =~= a);
}

/// A Responses request has the items of its messages as its input.
pub proof fn inputs_in_responses(r: RequestView, ids: IdsView)
    ensures
        responses_request_value(r, ids) matches Ok(v) ==> v.at("input"@) is Array && input_items(
            r.messages,
            ids,
        ) == Ok::<Seq<JsonView>, ErrorView>(v.at("input"@).list()),
{
    names_differ();
}

/// An item that is read from a Responses request is a message with the role and parts that it
/// names, a call, the result of a call, or reasoning.
pub proof fn responses_items_read(item: JsonView, name: Seq<char>, id: Seq<char>)
    ensures
        says(item, "type"@, "message"@) ==> (responses_item_of(item) matches Ok(m) && m.content
            == responses_content_of(item.at("content"@)) && (item.at("role"@) == JsonView::Text(
            "system"@,
        ) || item.at("role"@) == JsonView::Text("developer"@) || item.at("role"@)
            == JsonView::Text("user"@) || item.at("role"@) == JsonView::Text("assistant"@)
            || item.at("role"@) == JsonView::Text("tool"@) ==> says(
            item,
            "role"@,
            role_name(m.role),
        ))),
        says(item, "type"@, "function_call"@) && says(item, "name"@, name) && says(
            item,
            "call_id"@,
            id,
        ) ==> (responses_item_of(item) matches Ok(m) && m.role == LLMRole::Assistant
            && m.content.len() == 1 && (m.content[0].kind matches KindView::ToolCall {
            id: read_id,
            name: read_name,
            arguments,
        } && read_id == Some(id) && read_name == name && (item.at("arguments"@) matches JsonView::Text(
            text,
        ) ==> arguments == arguments_of(text)))),
        says(item, "type"@, "function_call_output"@) && says(item, "call_id"@, id) ==> (
        responses_item_of(item) matches Ok(m) && m.role == LLMRole::Tool && m.content.len() == 1
            && (m.content[0].kind matches KindView::ToolResult { tool_call_id, content, is_error }
            && tool_call_id == id && content == responses_content_of(item.at("output"@)) && (says(
            item,
            "status"@,
            "failed"@,
        ) ==> is_error == Some(true)) && (says(item, "status"@, "completed"@) ==> is_error == Some(
            false,
        )))),
        says(item, "type"@, "reasoning"@) ==> (responses_item_of(item) matches Ok(m) && m.role
            == LLMRole::Assistant && m.content == seq![reasoning_item_of(item)]),
        says(item, "type"@, "function_call"@) && item.at("name"@).text() is None
            ==> responses_item_of(item) is Err,
        says(item, "type"@, "function_call_output"@) && item.at("call_id"@).text() is None
            ==> responses_item_of(item) is Err,
{
    names_differ();
}

/// The parts of the items of a Responses answer follow one another.
pub proof fn one_more_output_read(a: Seq<JsonView>, item: JsonView)
    ensures
        output_of(Seq::empty()) == Ok::<Seq<ContentView>, ErrorView>(Seq::empty()),
        output_of(a.push(item)) matches Ok(all) ==> (output_of(a) matches Ok(before) && (
        output_item_of(item) matches Ok(more) && all == before + more)),
        summary_of(Seq::empty()) == Seq::<Seq<char>>::empty(),
        summary_of(a.push(item)) == match item.at("text"@) {
            JsonView::Text(text) => summary_of(a).push(text),
            _ => summary_of(a),
        },
{
    assert(a.push(item).drop_last() =~= a);
}

/// An item of a Responses answer is the parts of a message, a call or reasoning.
pub proof fn output_items_read(item: JsonView, name: Seq<char>, id: Seq<char>)
    ensures
        says(item, "type"@, "message"@) ==> output_item_of(item) == Ok::<
            Seq<ContentView>,
            ErrorView,
        >(responses_content_of(item.at("content"@))),
        says(item, "type"@, "function_call"@) && says(item, "name"@, name) && says(
            item,
            "call_id"@,
            id,
        ) ==> (output_item_of(item) matches Ok(parts) && parts.len() == 1 && (
        parts[0].kind matches KindView::ToolCall { id: read_id, name: read_name, arguments }
            && read_id == Some(id) && read_name == name && (item.at(
            "arguments"@,
        ) matches JsonView::Text(text) ==> arguments == arguments_of(text)))),
        says(item, "type"@, "reasoning"@) ==> output_item_of(item) == Ok::<
            Seq<ContentView>,
            ErrorView,
        >(seq![reasoning_item_of(item)]),
{
    names_differ();
}

/// What one more part adds to a Responses answer: a call or reasoning is an item of its own;
/// another part is shown by the message.
pub proof fn one_more_output(a: Seq<ContentView>, c: ContentView, ids: IdsView)
    ensures
        output_parts(Seq::empty(), ids) matches Ok(none) && none.items.len() == 0
            && none.visible.len() == 0,
        output_parts(a.push(c), ids) matches Ok(all) ==> (output_parts(a, ids) matches Ok(before)
            && {
            let item = all.items.last();
            match c.kind {
                KindView::ToolCall { id, name, arguments } => {
                    &&& all.visible == before.visible
                    &&& all.items == before.items.push(item)
                    &&& says(item, "type"@, "function_call"@)
                    &&& says(item, "status"@, "completed"@)
                    &&& says(item, "name"@, name)
                    &&& id matches Some(id) ==> says(item, "call_id"@, id)
                    &&& id is None ==> says(item, "call_id"@, "call_"@ + ids.at(a.len() as int).call)
                    &&& says(item, "arguments"@, arguments_text(arguments))
                },
                KindView::Reasoning { .. } => all.visible == before.visible && all.items
                    == before.items.push(reasoning_item_value(c, ids.at(a.len() as int))),
                KindView::Raw { value, .. } => all.visible == before.visible && all.items
                    == before.items.push(value),
                KindView::ToolResult { .. } => false,
                _ => all.items == before.items && all.visible == before.visible.push(c),
            }
        }),
{
    names_differ();
    assert(a.push(c).drop_last() =~= a);
}

/// A Responses answer is the message with what it shows, then the other items.
pub proof fn outputs_written(s: Seq<ContentView>, ids: IdsView, i: int)
    ensures
        output_value(s, ids) matches Ok(items) ==> (output_parts(s, ids) matches Ok(all) && {
            &&& all.visible.len() == 0 ==> items == all.items
            &&& all.visible.len() > 0 ==> {
                let shown = items[0].at("content"@).list();
                &&& items.len() == all.items.len() + 1
                &&& items.skip(1) == all.items
                &&& says(items[0], "type"@, "message"@)
                &&& says(items[0], "role"@, "assistant"@)
                &&& says(items[0], "status"@, "completed"@)
                &&& shown.len() == all.visible.len()
                &&& 0 <= i < shown.len() ==> responses_part_value(all.visible[i], LLMRole::Assistant)
                    == Ok::<JsonView, ErrorView>(shown[i])
            }
        }),
{
    names_differ();
    if let Ok(all) = output_parts(s, ids) {
        let f = responses_part_writer(LLMRole::Assistant);
        try_map_each(all.visible, f);
        if all.visible.len() > 0 {
            if let Ok(items) = output_value(s, ids) {
                assert(items.skip(1) =~= all.items);
                if 0 <= i < all.visible.len() {
                    assert(f(all.visible[i]) == responses_part_value(
                        all.visible[i],
                        LLMRole::Assistant,
                    ));
                }
            }
        }
    }
}

} // verus!
