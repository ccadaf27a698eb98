//! What the parts of messages say in each format, by the names on the wire.

use super::anthropic::{
    anthropic_block_of, anthropic_block_value, anthropic_blocks_value, anthropic_content_of,
    anthropic_source_of, anthropic_source_value,
};
use super::common::{all_text, arguments_of, arguments_text};
use super::error::ErrorView;
use super::fresh::IdsView;
use super::names::names_differ;
use super::openai_chat::{
    chat_call_of, chat_call_value, chat_content_of, chat_content_value, chat_part_of,
};
use super::openai_responses::{
    reasoning_item_of, reasoning_item_value, responses_call_of, responses_content_of,
    responses_part_of, responses_part_value, summary_of,
};
use crate::json::JsonView;
use crate::model::{
    no_fields, text_part, texts_joined, ContentView, KindView, LLMProtocol, LLMRole, MediaView,
};
use crate::wire::{text_value, value_text};
use vstd::prelude::*;

verus! {

/// Whether a field holds a text.
pub open spec fn says(v: JsonView, name: Seq<char>, text: Seq<char>) -> bool {
    v.at(name) == JsonView::Text(text)
}

/// A source of media in Messages: an address, data with its type, or the identifier of a file.
pub proof fn messages_sources(source: MediaView)
    ensures
        ({
            let v = anthropic_source_value(source);
            match source {
                MediaView::Url { url } => says(v, "type"@, "url"@) && says(v, "url"@, url) || says(
                    v,
                    "type"@,
                    "base64"@,
                ) && "data:"@.is_prefix_of(url),
                MediaView::Data { data, media_type } => says(v, "type"@, "base64"@) && says(
                    v,
                    "data"@,
                    data,
                ) && (media_type matches Some(kind) ==> says(v, "media_type"@, kind)),
                MediaView::FileId { file_id } => says(v, "type"@, "file"@) && says(
                    v,
                    "file_id"@,
                    file_id,
                ),
                MediaView::Raw { value } => v == value,
            }
        }),
        source is FileId || (source matches MediaView::Data { media_type, .. } && media_type is Some)
            || (source matches MediaView::Url { url } && !"data:"@.is_prefix_of(url))
            ==> anthropic_source_of(anthropic_source_value(source)) == source,
{
    names_differ();
}

/// A part that is written for Messages holds what it says under the names of that format.
pub proof fn messages_parts_written(c: ContentView, ids: IdsView)
    ensures
        anthropic_block_value(c, ids) matches Ok(v) ==> match c.kind {
            KindView::Text { text, annotations } => says(v, "type"@, "text"@) && says(
                v,
                "text"@,
                text,
            ),
            KindView::Image { source, .. } => says(v, "type"@, "image"@) && v.at("source"@)
                == anthropic_source_value(source),
            KindView::File { source, filename, media_type } => {
                &&& says(v, "type"@, "document"@)
                &&& media_type is None ==> v.at("source"@) == anthropic_source_value(source)
                &&& media_type matches Some(kind) ==> says(v.at("source"@), "media_type"@, kind)
                &&& filename matches Some(name) ==> says(v, "title"@, name)
                &&& source matches MediaView::Data { data, .. } ==> says(
                    v.at("source"@),
                    "data"@,
                    data,
                )
            },
            KindView::ToolCall { id, name, arguments } => {
                &&& says(v, "type"@, "tool_use"@)
                &&& says(v, "name"@, name)
                &&& id matches Some(id) ==> says(v, "id"@, id)
                &&& id is None ==> says(v, "id"@, "toolu_"@ + ids.call)
                &&& arguments is Object ==> v.at("input"@) == arguments
                &&& arguments matches JsonView::Text(text) ==> (text_value(text) matches Some(parsed)
                    ==> v.at("input"@) == parsed)
                &&& arguments matches JsonView::Text(text) ==> (text_value(text) is None ==> v.at(
                    "input"@,
                ).at("value"@) == arguments)
            },
            KindView::ToolResult { tool_call_id, content, is_error } => {
                &&& says(v, "type"@, "tool_result"@)
                &&& says(v, "tool_use_id"@, tool_call_id)
                &&& all_text(content) ==> says(v, "content"@, texts_joined(content))
                &&& !all_text(content) ==> anthropic_blocks_value(content, ids) == Ok::<
                    Seq<JsonView>,
                    ErrorView,
                >(v.at("content"@).list())
                &&& is_error matches Some(failed) ==> v.at("is_error"@) == JsonView::Bool(failed)
            },
            KindView::Reasoning { text, signature, encrypted_content, .. } => {
                &&& encrypted_content matches Some(data) ==> says(
                    v,
                    "type"@,
                    "redacted_thinking"@,
                ) && says(v, "data"@, data)
                &&& encrypted_content is None ==> says(v, "type"@, "thinking"@) && (text matches Some(
                    text,
                ) ==> says(v, "thinking"@, text)) && (signature matches Some(s) ==> says(
                    v,
                    "signature"@,
                    s,
                ))
            },
            KindView::Refusal { refusal } => says(v, "type"@, "text"@) && says(v, "text"@, refusal),
            KindView::Audio { .. } => false,
            KindView::Raw { protocol, value } => protocol == LLMProtocol::AnthropicMessages && v
                == value,
        },
        c.kind is Audio ==> anthropic_block_value(c, ids) is Err,
        c.kind is Image || c.kind is ToolCall || c.kind is Reasoning || c.kind is Refusal
            ==> anthropic_block_value(c, ids) is Ok,
        (c.kind matches KindView::Text { annotations, .. } && annotations.len() == 0)
            ==> anthropic_block_value(c, ids) is Ok,
{
    names_differ();
    match c.kind {
        KindView::File { source, media_type, .. } => {
            messages_sources(source);
        },
        _ => {},
    }
}

/// A part that is read from Messages says what its block holds under the names of that format.
pub proof fn messages_parts_read(v: JsonView, text: Seq<char>)
    ensures
        ({
            let c = anthropic_block_of(v);
            &&& says(v, "type"@, "text"@) && says(v, "text"@, text) ==> (c.kind matches KindView::Text {
                text: read,
                ..
            } && read == text)
            &&& says(v, "type"@, "image"@) ==> (c.kind matches KindView::Image { source, .. }
                && source == anthropic_source_of(v.at("source"@)))
            &&& says(v, "type"@, "document"@) ==> (c.kind matches KindView::File {
                source,
                filename,
                ..
            } && source == anthropic_source_of(v.at("source"@)) && filename == v.at(
                "title"@,
            ).text())
            &&& says(v, "type"@, "tool_use"@) && says(v, "name"@, text) ==> (
            c.kind matches KindView::ToolCall { id, name, arguments } && name == text && id == v.at(
                "id"@,
            ).text() && (v.at("input"@) != JsonView::Null ==> arguments == v.at("input"@)))
            &&& says(v, "type"@, "tool_result"@) && says(v, "tool_use_id"@, text) ==> (
            c.kind matches KindView::ToolResult { tool_call_id, content, is_error } && tool_call_id
                == text && is_error == v.at("is_error"@).truth() && (v.at("content"@) is Text || v.at(
                "content"@,
            ) is Array ==> content == anthropic_content_of(v.at("content"@))))
            &&& says(v, "type"@, "thinking"@) && says(v, "thinking"@, text) ==> (
            c.kind matches KindView::Reasoning { text: read, signature, encrypted_content, .. }
                && read == Some(text) && signature == v.at("signature"@).text()
                && encrypted_content is None)
            &&& says(v, "type"@, "redacted_thinking"@) && says(v, "data"@, text) ==> (
            c.kind matches KindView::Reasoning { encrypted_content, .. } && encrypted_content
                == Some(text))
            &&& says(v, "type"@, "refusal"@) && says(v, "text"@, text) ==> (
            c.kind matches KindView::Refusal { refusal } && refusal == text)
        }),
{
    names_differ();
    reveal_with_fuel(anthropic_block_of, 2);
}

/// A text is one part that says it, and a list is read part by part, in order.
pub proof fn messages_contents_read(text: Seq<char>, list: Seq<JsonView>, i: int)
    requires
        0 <= i < list.len(),
    ensures
        anthropic_content_of(JsonView::Text(text)) == seq![text_part(text)],
        anthropic_content_of(JsonView::Array(list)).len() == list.len(),
        anthropic_content_of(JsonView::Array(list))[i] == anthropic_block_of(list[i]),
        chat_content_of(JsonView::Text(text)) == seq![text_part(text)],
        chat_content_of(JsonView::Array(list)).len() == list.len(),
        chat_content_of(JsonView::Array(list))[i] == chat_part_of(list[i]),
        responses_content_of(JsonView::Text(text)) == seq![text_part(text)],
        responses_content_of(JsonView::Array(list)).len() == list.len(),
        responses_content_of(JsonView::Array(list))[i] == responses_part_of(list[i]),
        text_part(text).kind matches KindView::Text { text: said, annotations } && said == text
            && annotations.len() == 0,
{
    reveal_with_fuel(anthropic_content_of, 2);
}

/// A part that is written for Chat holds what it says under the names of that format.
pub proof fn chat_parts_written(c: ContentView)
    ensures
        chat_content_value(c) matches Ok(v) ==> match c.kind {
            KindView::Text { text, .. } => says(v, "type"@, "text"@) && says(v, "text"@, text),
            KindView::Image { source, detail } => {
                let image = v.at("image_url"@);
                &&& says(v, "type"@, "image_url"@)
                &&& source matches MediaView::Url { url } ==> says(image, "url"@, url)
                &&& source matches MediaView::Data { data, media_type } ==> (media_type matches Some(
                    kind,
                ) ==> says(image, "url"@, "data:"@ + kind + ";base64,"@ + data))
                &&& source matches MediaView::FileId { file_id } ==> says(image, "url"@, file_id)
                &&& detail matches Some(detail) ==> says(image, "detail"@, detail)
            },
            KindView::Audio { source, format } => {
                let audio = v.at("input_audio"@);
                &&& says(v, "type"@, "input_audio"@)
                &&& source matches MediaView::Data { data, .. } ==> says(audio, "data"@, data)
                &&& format matches Some(format) ==> says(audio, "format"@, format)
            },
            KindView::File { source, filename, .. } => {
                let file = v.at("file"@);
                &&& says(v, "type"@, "file"@)
                &&& source matches MediaView::FileId { file_id } ==> says(file, "file_id"@, file_id)
                &&& source matches MediaView::Data { data, .. } ==> says(file, "file_data"@, data)
                &&& source matches MediaView::Url { url } ==> says(file, "file_data"@, url)
                &&& filename matches Some(name) ==> says(file, "filename"@, name)
            },
            KindView::Raw { protocol, value } => protocol == LLMProtocol::OpenAiChat && v == value,
            _ => false,
        },
        c.kind is Text || c.kind is Image || c.kind is Audio || c.kind is File
            ==> chat_content_value(c) is Ok,
{
    names_differ();
}

/// A part that is read from Chat says what it holds under the names of that format.
pub proof fn chat_parts_read(v: JsonView, text: Seq<char>)
    ensures
        ({
            let c = chat_part_of(v);
            &&& says(v, "type"@, "text"@) && says(v, "text"@, text) ==> (c.kind matches KindView::Text {
                text: read,
                ..
            } && read == text)
            &&& says(v, "type"@, "image_url"@) && says(v.at("image_url"@), "url"@, text) ==> (
            c.kind matches KindView::Image { source, detail } && source == (MediaView::Url {
                url: text,
            }) && detail == v.at("image_url"@).at("detail"@).text())
            &&& says(v, "type"@, "input_audio"@) && says(v.at("input_audio"@), "data"@, text) ==> (
            c.kind matches KindView::Audio { source, format } && source == (MediaView::Data {
                data: text,
                media_type: None,
            }) && format == v.at("input_audio"@).at("format"@).text())
            &&& says(v, "type"@, "file"@) && says(v.at("file"@), "file_id"@, text) ==> (
            c.kind matches KindView::File { source, filename, .. } && source == (MediaView::FileId {
                file_id: text,
            }) && filename == v.at("file"@).at("filename"@).text())
            &&& says(v, "type"@, "file"@) && says(v.at("file"@), "file_data"@, text) && v.at(
                "file"@,
            ).at("file_id"@) == JsonView::Null ==> (c.kind matches KindView::File { source, .. }
                && source == (MediaView::Data { data: text, media_type: None }))
            &&& says(v, "type"@, "refusal"@) && says(v, "refusal"@, text) ==> (
            c.kind matches KindView::Refusal { refusal } && refusal == text)
        }),
{
    names_differ();
}

/// A part that is written for Responses holds what it says under the names of that format.
pub proof fn responses_parts_written(c: ContentView, role: LLMRole)
    ensures
        responses_part_value(c, role) matches Ok(v) ==> match c.kind {
            KindView::Text { text, .. } => says(v, "text"@, text) && says(
                v,
                "type"@,
                if role == LLMRole::Assistant {
                    "output_text"@
                } else {
                    "input_text"@
                },
            ),
            KindView::Image { source, detail } => {
                &&& says(v, "type"@, "input_image"@)
                &&& source matches MediaView::FileId { file_id } ==> says(v, "file_id"@, file_id)
                &&& source matches MediaView::Url { url } ==> says(v, "image_url"@, url)
                &&& source matches MediaView::Data { data, media_type } ==> (media_type matches Some(
                    kind,
                ) ==> says(v, "image_url"@, "data:"@ + kind + ";base64,"@ + data))
                &&& detail matches Some(detail) ==> says(v, "detail"@, detail)
            },
            KindView::File { source, filename, .. } => {
                &&& says(v, "type"@, "input_file"@)
                &&& source matches MediaView::FileId { file_id } ==> says(v, "file_id"@, file_id)
                &&& source matches MediaView::Data { data, .. } ==> says(v, "file_data"@, data)
                &&& source matches MediaView::Url { url } ==> says(v, "file_url"@, url)
                &&& filename matches Some(name) ==> says(v, "filename"@, name)
            },
            KindView::Audio { source, format } => {
                &&& says(v, "type"@, "input_audio"@)
                &&& source matches MediaView::Data { data, .. } ==> says(
                    v.at("input_audio"@),
                    "data"@,
                    data,
                )
                &&& format matches Some(format) ==> says(v.at("input_audio"@), "format"@, format)
            },
            KindView::Refusal { refusal } => says(v, "type"@, "refusal"@) && says(
                v,
                "refusal"@,
                refusal,
            ),
            KindView::Raw { protocol, value } => protocol == LLMProtocol::OpenAiResponses && v
                == value,
            _ => false,
        },
        c.kind is Image || c.kind is File || c.kind is Audio || c.kind is Refusal
            ==> responses_part_value(c, role) is Ok,
        (c.kind matches KindView::Text { annotations, .. } && annotations.len() == 0)
            ==> responses_part_value(c, role) is Ok,
{
    names_differ();
}

/// A part that is read from Responses says what it holds under the names of that format.
pub proof fn responses_parts_read(v: JsonView, text: Seq<char>)
    ensures
        ({
            let c = responses_part_of(v);
            &&& (says(v, "type"@, "input_text"@) || says(v, "type"@, "output_text"@)) && says(
                v,
                "text"@,
                text,
            ) ==> (c.kind matches KindView::Text { text: read, .. } && read == text)
            &&& says(v, "type"@, "input_image"@) && says(v, "file_id"@, text) ==> (
            c.kind matches KindView::Image { source, .. } && source == (MediaView::FileId {
                file_id: text,
            }))
            &&& says(v, "type"@, "input_image"@) && says(v, "image_url"@, text) && v.at("file_id"@)
                == JsonView::Null ==> (c.kind matches KindView::Image { source, detail } && source
                == (MediaView::Url { url: text }) && detail == v.at("detail"@).text())
            &&& says(v, "type"@, "input_file"@) && says(v, "file_id"@, text) ==> (
            c.kind matches KindView::File { source, filename, .. } && source == (MediaView::FileId {
                file_id: text,
            }) && filename == v.at("filename"@).text())
            &&& says(v, "type"@, "input_file"@) && says(v, "file_data"@, text) && v.at("file_id"@)
                == JsonView::Null ==> (c.kind matches KindView::File { source, .. } && source == (
            MediaView::Data { data: text, media_type: None }))
            &&& says(v, "type"@, "input_file"@) && says(v, "file_url"@, text) && v.at("file_id"@)
                == JsonView::Null && v.at("file_data"@) == JsonView::Null ==> (
            c.kind matches KindView::File { source, .. } && source == (MediaView::Url { url: text })
            )
            &&& says(v, "type"@, "input_audio"@) && says(v.at("input_audio"@), "data"@, text) ==> (
            c.kind matches KindView::Audio { source, format } && source == (MediaView::Data {
                data: text,
                media_type: None,
            }) && format == v.at("input_audio"@).at("format"@).text())
            &&& says(v, "type"@, "refusal"@) && says(v, "refusal"@, text) ==> (
            c.kind matches KindView::Refusal { refusal } && refusal == text)
        }),
{
    names_differ();
}

/// A call is written with its name, its arguments as text and its identifier, and is read back
/// with them.
pub proof fn calls_written_and_read(
    id: Seq<char>,
    name: Seq<char>,
    arguments: JsonView,
    item: JsonView,
    ids: IdsView,
)
    ensures
        ({
            let v = chat_call_value(Some(id), name, arguments, ids);
            &&& says(v, "id"@, id)
            &&& says(v, "type"@, "function"@)
            &&& says(v.at("function"@), "name"@, name)
            &&& arguments matches JsonView::Text(text) ==> says(
                v.at("function"@),
                "arguments"@,
                text,
            )
            &&& !(arguments is Text) ==> says(
                v.at("function"@),
                "arguments"@,
                value_text(arguments),
            )
            &&& chat_call_of(v) matches Ok(c) && (c.kind matches KindView::ToolCall {
                id: read_id,
                name: read_name,
                arguments: read,
            } && read_id == Some(id) && read_name == name && read == arguments_of(
                arguments_text(arguments),
            ))
        }),
        says(chat_call_value(None, name, arguments, ids), "id"@, "call_"@ + ids.call),
        says(item, "name"@, name) && says(item, "call_id"@, id) ==> (responses_call_of(
            item,
            name,
            no_fields(),
        ) matches Ok(c) && (c.kind matches KindView::ToolCall {
            id: read_id,
            name: read_name,
            arguments: read,
        } && read_id == Some(id) && read_name == name && (item.at("arguments"@) matches JsonView::Text(
            text,
        ) ==> read == arguments_of(text)))),
        arguments matches JsonView::Text(text) ==> (text_value(text) matches Some(parsed)
            ==> arguments_of(text) == parsed),
        arguments matches JsonView::Text(text) ==> (text_value(text) is None ==> arguments_of(text)
            == arguments),
{
    names_differ();
}

/// Reasoning that is written for Responses holds its text, its summaries in order and what is
/// encrypted of it.
pub proof fn reasoning_written_for_responses(c: ContentView, ids: IdsView, i: int)
    ensures
        c.kind matches KindView::Reasoning { text, summary, encrypted_content, .. } ==> {
            let v = reasoning_item_value(c, ids);
            &&& says(v, "type"@, "reasoning"@)
            &&& says(v, "id"@, "rs_"@ + ids.item)
            &&& v.at("summary"@).list().len() == summary.len()
            &&& 0 <= i < summary.len() ==> says(v.at("summary"@).list()[i], "text"@, summary[i])
                && says(v.at("summary"@).list()[i], "type"@, "summary_text"@)
            &&& text matches Some(text) ==> v.at("content"@).list().len() == 1 && says(
                v.at("content"@).list()[0],
                "text"@,
                text,
            ) && says(v.at("content"@).list()[0], "type"@, "reasoning_text"@)
            &&& encrypted_content matches Some(data) ==> says(v, "encrypted_content"@, data)
        },
{
    names_differ();
}

/// Reasoning that is read from Responses says the text, the summaries and what is encrypted.
pub proof fn reasoning_read_from_responses(v: JsonView, text: Seq<char>, data: Seq<char>)
    ensures
        reasoning_item_of(v).kind matches KindView::Reasoning {
            text: read,
            summary,
            encrypted_content,
            ..
        } && (v.at("content"@).list().len() > 0 && says(v.at("content"@).list()[0], "text"@, text)
            ==> read == Some(text)) && (says(v, "encrypted_content"@, data) ==> encrypted_content
            == Some(data)) && (v.at("summary"@).list().len() == 1 && says(
            v.at("summary"@).list()[0],
            "text"@,
            data,
        ) ==> summary == seq![data]),
{
    names_differ();
    reveal_with_fuel(summary_of, 2);
    let list = v.at("summary"@).list();
    if list.len() == 1 && says(list[0], "text"@, data) {
        assert(list.drop_last() =~= Seq::empty());
        assert(summary_of(list) =~= seq![data]);
    }
}

} // verus!
