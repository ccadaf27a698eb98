//! The Responses format: requests and responses.

use super::annotations::{
    annotations_from_openai, annotations_to_openai, openai_annotation_writer, openai_annotations,
};
use super::common::{
    all_text, arguments_of, arguments_text, arguments_to_string, array1, cannot, cannot_represent,
    content_extensions_for, content_fields, equals, extras_outcome, is_all_text, json1, json2,
    json_array1, media_source_to_url, media_url, object1, object2, parse_arguments, raw_type,
    validate_request_extras,
};
use super::error::{AdapterError, ErrorView};
use super::fresh::{call_id, ids_at, item_id, opt_ids, FreshIds, IdsView};
use super::openai_chat::{
    either_str, or_false, or_fresh, or_zero, pass_through, passed_through, response_base,
    response_extensions_for, role_name, role_text, total_of, total_tokens, usage_extensions_for,
    usage_fields, with_list, with_nonempty,
};
use super::tools::{
    tools_from_openai_responses, tools_of, tools_to_openai_responses, tools_value, ToolDialect,
};
use crate::json::{
    copy_opt, int_num, jint, jopt, jtext, lookup, opt_ref, with_float, with_int, with_some,
    with_text, with_truth, without, Json, JsonMap, JsonView,
};
use crate::model::{
    content_views_are_views, joined_text, no_fields, opt_choice, opt_usage, text_part, texts_joined,
    ChoiceView, ContentView, Fields, KindView, LLMChoice, LLMContent, LLMContentKind,
    LLMFinishReason, LLMMediaSource, LLMMessage, LLMProtocol, LLMRequest, LLMResponse, LLMRole,
    LLMToolChoice, LLMUsage, MediaView, MessageView, RequestView, ResponseView, ToolChoiceView,
    UsageView,
};
use crate::seqs::{map_each, outcome, outcomes, try_each, try_map, views};
use crate::text::{borrow, cat, either, opt_text, or_text, own, same, strings, texts};
use crate::wire::{double, double_of};
use vstd::prelude::*;

verus! {

broadcast use content_views_are_views;

/// The Responses format.
pub struct OpenAiResponsesAdapter;

/// The format's name.
pub open spec fn responses() -> LLMProtocol {
    LLMProtocol::OpenAiResponses
}

/// The fields of a request that the format passes through.
pub open spec fn responses_extra_fields() -> Seq<Seq<char>> {
    seq![
        "background"@,
        "conversation"@,
        "include"@,
        "max_tool_calls"@,
        "previous_response_id"@,
        "prompt"@,
        "prompt_cache_key"@,
        "prompt_cache_retention"@,
        "safety_identifier"@,
        "service_tier"@,
        "store"@,
        "stream_options"@,
        "top_logprobs"@,
        "truncation"@,
        "user"@,
    ]
}

/// A part of the format's own.
pub open spec fn responses_part(kind: KindView, metadata: Fields) -> ContentView {
    ContentView { source: Some(responses()), kind, metadata }
}

/// A message of the format's own.
pub open spec fn responses_message(
    role: LLMRole,
    content: Seq<ContentView>,
    metadata: Fields,
) -> MessageView {
    MessageView { source: Some(responses()), role, content, name: None, metadata }
}

/// The fields of a part that the neutral form names.
pub open spec fn responses_part_keys() -> Seq<Seq<char>> {
    seq![
        "type"@,
        "text"@,
        "image_url"@,
        "file_id"@,
        "file_data"@,
        "file_url"@,
        "filename"@,
        "detail"@,
        "refusal"@,
        "input_audio"@,
        "annotations"@,
    ]
}

/// What kind of part a value is.
pub open spec fn responses_kind_of(part: JsonView) -> KindView {
    let kind = or_text(part.at("type"@).text(), "input_text"@);
    if kind == "input_text"@ || kind == "output_text"@ || kind == "text"@ {
        KindView::Text {
            text: or_text(part.at("text"@).text(), ""@),
            annotations: openai_annotations(part.at("annotations"@), responses()),
        }
    } else if kind == "input_image"@ {
        KindView::Image {
            source: match part.at("file_id"@).text() {
                Some(file_id) => MediaView::FileId { file_id },
                None => MediaView::Url { url: or_text(part.at("image_url"@).text(), ""@) },
            },
            detail: part.at("detail"@).text(),
        }
    } else if kind == "input_file"@ {
        KindView::File {
            source: match part.at("file_id"@).text() {
                Some(file_id) => MediaView::FileId { file_id },
                None => match part.at("file_data"@).text() {
                    Some(data) => MediaView::Data { data, media_type: None },
                    None => MediaView::Url { url: or_text(part.at("file_url"@).text(), ""@) },
                },
            },
            filename: part.at("filename"@).text(),
            media_type: None,
        }
    } else if kind == "input_audio"@ {
        KindView::Audio {
            source: MediaView::Data {
                data: or_text(part.at("input_audio"@).at("data"@).text(), ""@),
                media_type: None,
            },
            format: part.at("input_audio"@).at("format"@).text(),
        }
    } else if kind == "refusal"@ {
        KindView::Refusal { refusal: or_text(part.at("refusal"@).text(), ""@) }
    } else {
        KindView::Raw { protocol: responses(), value: part }
    }
}

/// The part that a value is.
pub open spec fn responses_part_of(part: JsonView) -> ContentView {
    responses_part(
        responses_kind_of(part),
        without(part.fields_or_none(), responses_part_keys()),
    )
}

/// `responses_part_of`.
pub open spec fn responses_part_reader() -> spec_fn(JsonView) -> ContentView {
    |part: JsonView| responses_part_of(part)
}

/// The parts that a value is.
pub open spec fn responses_content_of(value: JsonView) -> Seq<ContentView> {
    match value.text() {
        Some(text) => seq![text_part(text)],
        None => value.list().map_values(responses_part_reader()),
    }
}

pub(crate) fn responses_part_from_value(part: &Json) -> (r: LLMContent)
    ensures
        r@ == responses_part_of(part@),
{
    let known = [
        "type",
        "text",
        "image_url",
        "file_id",
        "file_data",
        "file_url",
        "filename",
        "detail",
        "refusal",
        "input_audio",
        "annotations",
    ];
    assert(texts(known@) =~= responses_part_keys());
    let metadata = part.fields_without(&known);
    let name = part.text_at("type").unwrap_or("input_text");
    let kind = if same(name, "input_text") || same(name, "output_text") || same(name, "text") {
        LLMContentKind::Text {
            text: part.text_at("text").unwrap_or("").to_owned(),
            annotations: annotations_from_openai(
                part.at("annotations"),
                LLMProtocol::OpenAiResponses,
            ),
        }
    } else if same(name, "input_image") {
        let source = if let Some(file_id) = part.text_at("file_id") {
            LLMMediaSource::FileId { file_id: file_id.to_owned() }
        } else {
            LLMMediaSource::Url { url: part.text_at("image_url").unwrap_or("").to_owned() }
        };
        LLMContentKind::Image { source, detail: own(part.text_at("detail")) }
    } else if same(name, "input_file") {
        let source = if let Some(file_id) = part.text_at("file_id") {
            LLMMediaSource::FileId { file_id: file_id.to_owned() }
        } else if let Some(data) = part.text_at("file_data") {
            LLMMediaSource::Data { data: data.to_owned(), media_type: None }
        } else {
            LLMMediaSource::Url { url: part.text_at("file_url").unwrap_or("").to_owned() }
        };
        LLMContentKind::File { source, filename: own(part.text_at("filename")), media_type: None }
    } else if same(name, "input_audio") {
        let audio = part.at("input_audio");
        LLMContentKind::Audio {
            source: LLMMediaSource::Data {
                data: audio.text_at("data").unwrap_or("").to_owned(),
                media_type: None,
            },
            format: own(audio.text_at("format")),
        }
    } else if same(name, "refusal") {
        LLMContentKind::Refusal { refusal: part.text_at("refusal").unwrap_or("").to_owned() }
    } else {
        LLMContentKind::Raw { protocol: LLMProtocol::OpenAiResponses, value: part.clone() }
    };
    LLMContent { source: Some(LLMProtocol::OpenAiResponses), kind, metadata }
}

fn responses_content_from_value(value: &Json) -> (r: Vec<LLMContent>)
    ensures
        views(r@) == responses_content_of(value@),
{
    if let Some(text) = value.as_text() {
        return crate::model::text_content(text);
    }
    match value.as_array() {
        Some(parts) => map_each(
            parts.as_slice(),
            responses_part_from_value,
            Ghost(responses_part_reader()),
        ),
        None => {
            let none: Vec<LLMContent> = Vec::new();
            assert(views(none@) =~= responses_content_of(value@));
            none
        },
    }
}

/// The texts of the parts of a summary.
pub open spec fn summary_of(parts: Seq<JsonView>) -> Seq<Seq<char>>
    decreases parts.len(),
{
    if parts.len() == 0 {
        Seq::empty()
    } else {
        match parts.last().at("text"@).text() {
            Some(text) => summary_of(parts.drop_last()).push(text),
            None => summary_of(parts.drop_last()),
        }
    }
}

/// The first text of a list of parts.
pub open spec fn first_text(value: JsonView) -> Option<Seq<char>> {
    if value.list().len() > 0 {
        value.list()[0].at("text"@).text()
    } else {
        None
    }
}

/// The thought that a value is.
pub open spec fn reasoning_item_of(value: JsonView) -> ContentView {
    responses_part(
        KindView::Reasoning {
            text: first_text(value.at("content"@)),
            summary: summary_of(value.at("summary"@).list()),
            signature: None,
            encrypted_content: value.at("encrypted_content"@).text(),
        },
        without(
            value.fields_or_none(),
            seq!["type"@, "id"@, "status"@, "summary"@, "content"@, "encrypted_content"@],
        ),
    )
}

fn summary_from_value(value: &Json) -> (r: Vec<String>)
    ensures
        strings(r@) == summary_of(value@.list()),
{
    let mut out: Vec<String> = Vec::new();
    let ghost all = value@.list();
    assert(strings(out@) =~= Seq::empty());
    assert(all.take(0) =~= Seq::empty());
    match value.as_array() {
        Some(parts) => {
            let mut i: usize = 0;
            while i < parts.len()
                invariant
                    all == views(parts@),
                    i <= parts@.len(),
                    strings(out@) == summary_of(all.take(i as int)),
                decreases parts@.len() - i,
            {
                assert(all.take(i + 1).drop_last() =~= all.take(i as int));
                assert(all.take(i + 1).last() == parts@[i as int]@);
                let ghost before = strings(out@);
                if let Some(text) = parts[i].text_at("text") {
                    out.push(text.to_owned());
                    assert(strings(out@) =~= before.push(text@));
                }
                i = i + 1;
            }
            assert(all.take(i as int) =~= all);
        },
        None => {},
    }
    out
}

fn first_text_of(value: &Json) -> (r: Option<String>)
    ensures
        opt_text(r) == first_text(value@),
{
    match value.as_array() {
        Some(parts) => if parts.len() > 0 {
            assert(value@.list()[0] == parts@[0]@);
            own(parts[0].text_at("text"))
        } else {
            None
        },
        None => None,
    }
}

pub(crate) fn reasoning_from_responses(value: &Json) -> (r: LLMContent)
    ensures
        r@ == reasoning_item_of(value@),
{
    let known = ["type", "id", "status", "summary", "content", "encrypted_content"];
    assert(texts(known@) =~= seq![
        "type"@,
        "id"@,
        "status"@,
        "summary"@,
        "content"@,
        "encrypted_content"@,
    ]);
    LLMContent {
        source: Some(LLMProtocol::OpenAiResponses),
        kind: LLMContentKind::Reasoning {
            text: first_text_of(value.at("content")),
            summary: summary_from_value(value.at("summary")),
            signature: None,
            encrypted_content: own(value.text_at("encrypted_content")),
        },
        metadata: value.fields_without(&known),
    }
}

/// The name of who a message is from, by the format's name for it.
pub open spec fn responses_role_of(role: Seq<char>) -> LLMRole {
    if role == "system"@ {
        LLMRole::System
    } else if role == "developer"@ {
        LLMRole::Developer
    } else if role == "assistant"@ {
        LLMRole::Assistant
    } else if role == "tool"@ {
        LLMRole::Tool
    } else {
        LLMRole::User
    }
}

fn parse_responses_role(role: &str) -> (r: LLMRole)
    ensures
        r == responses_role_of(role@),
{
    if same(role, "system") {
        LLMRole::System
    } else if same(role, "developer") {
        LLMRole::Developer
    } else if same(role, "assistant") {
        LLMRole::Assistant
    } else if same(role, "tool") {
        LLMRole::Tool
    } else {
        LLMRole::User
    }
}

/// The fields of an item that the neutral form names.
pub open spec fn responses_item_keys() -> Seq<Seq<char>> {
    seq![
        "type"@,
        "role"@,
        "content"@,
        "call_id"@,
        "name"@,
        "arguments"@,
        "output"@,
        "id"@,
        "status"@,
        "summary"@,
        "encrypted_content"@,
    ]
}

/// The call that an item is.
pub open spec fn responses_call_of(item: JsonView, missing: Seq<char>, metadata: Fields) -> Result<
    ContentView,
    ErrorView,
> {
    match item.at("name"@).text() {
        None => Err(ErrorView::MissingField(missing)),
        Some(name) => Ok(
            responses_part(
                KindView::ToolCall {
                    id: either(item.at("call_id"@).text(), item.at("id"@).text()),
                    name,
                    arguments: arguments_of(or_text(item.at("arguments"@).text(), "{}"@)),
                },
                metadata,
            ),
        ),
    }
}

fn call_from_item(item: &Json, missing: &'static str, metadata: JsonMap) -> (r: Result<
    LLMContent,
    AdapterError,
>)
    ensures
        outcome(r) == responses_call_of(item@, missing@, metadata@),
{
    let name = match item.text_at("name") {
        Some(name) => name.to_owned(),
        None => {
            return Err(AdapterError::MissingField(missing));
        },
    };
    Ok(
        LLMContent {
            source: Some(LLMProtocol::OpenAiResponses),
            kind: LLMContentKind::ToolCall {
                id: own(either_str(item.text_at("call_id"), item.text_at("id"))),
                name,
                arguments: parse_arguments(item.text_at("arguments").unwrap_or("{}")),
            },
            metadata,
        },
    )
}

/// The message that an item of the input is.
pub open spec fn responses_item_of(item: JsonView) -> Result<MessageView, ErrorView> {
    let kind = or_text(item.at("type"@).text(), "message"@);
    let metadata = without(item.fields_or_none(), responses_item_keys());
    if kind == "message"@ {
        Ok(
            responses_message(
                responses_role_of(or_text(item.at("role"@).text(), "user"@)),
                responses_content_of(item.at("content"@)),
                metadata,
            ),
        )
    } else if kind == "function_call"@ {
        match responses_call_of(item, "function_call.name"@, metadata) {
            Err(e) => Err(e),
            Ok(call) => Ok(responses_message(LLMRole::Assistant, seq![call], no_fields())),
        }
    } else if kind == "function_call_output"@ {
        match item.at("call_id"@).text() {
            None => Err(ErrorView::MissingField("function_call_output.call_id"@)),
            Some(tool_call_id) => Ok(
                responses_message(
                    LLMRole::Tool,
                    seq![
                        responses_part(
                            KindView::ToolResult {
                                tool_call_id,
                                content: responses_content_of(item.at("output"@)),
                                is_error: match item.at("status"@).text() {
                                    Some(status) => Some(status == "failed"@),
                                    None => None,
                                },
                            },
                            metadata,
                        ),
                    ],
                    no_fields(),
                ),
            ),
        }
    } else if kind == "reasoning"@ {
        Ok(responses_message(LLMRole::Assistant, seq![reasoning_item_of(item)], no_fields()))
    } else {
        Ok(
            responses_message(
                LLMRole::Assistant,
                seq![
                    responses_part(
                        KindView::Raw { protocol: responses(), value: item },
                        no_fields(),
                    ),
                ],
                no_fields(),
            ),
        )
    }
}

/// `responses_item_of`.
pub open spec fn responses_item_reader() -> spec_fn(JsonView) -> Result<MessageView, ErrorView> {
    |item: JsonView| responses_item_of(item)
}

fn message_of_one(role: LLMRole, part: LLMContent) -> (r: LLMMessage)
    ensures
        r@ == responses_message(role, seq![part@], no_fields()),
{
    let mut content: Vec<LLMContent> = Vec::new();
    content.push(part);
    assert(views(content@) =~= seq![part@]);
    LLMMessage {
        source: Some(LLMProtocol::OpenAiResponses),
        role,
        content,
        name: None,
        metadata: JsonMap::new(),
    }
}

fn result_from_item(item: &Json, tool_call_id: &str, metadata: JsonMap) -> (r: LLMContent)
    ensures
        r@ == responses_part(
            KindView::ToolResult {
                tool_call_id: tool_call_id@,
                content: responses_content_of(item@.at("output"@)),
                is_error: match item@.at("status"@).text() {
                    Some(status) => Some(status == "failed"@),
                    None => None,
                },
            },
            metadata@,
        ),
{
    let content = responses_content_from_value(item.at("output"));
    let is_error = match item.text_at("status") {
        Some(status) => Some(same(status, "failed")),
        None => None,
    };
    proof {
        content_views_are_views(content@);
    }
    let kind = LLMContentKind::ToolResult {
        tool_call_id: tool_call_id.to_owned(),
        content,
        is_error,
    };
    assert(kind@ == (KindView::ToolResult {
        tool_call_id: tool_call_id@,
        content: responses_content_of(item@.at("output"@)),
        is_error,
    }));
    LLMContent { source: Some(LLMProtocol::OpenAiResponses), kind, metadata }
}

fn responses_input_item(item: &Json) -> (r: Result<LLMMessage, AdapterError>)
    ensures
        outcome(r) == responses_item_of(item@),
{
    let known = [
        "type",
        "role",
        "content",
        "call_id",
        "name",
        "arguments",
        "output",
        "id",
        "status",
        "summary",
        "encrypted_content",
    ];
    assert(texts(known@) =~= responses_item_keys());
    let metadata = item.fields_without(&known);
    let kind = item.text_at("type").unwrap_or("message");
    if same(kind, "message") {
        Ok(
            LLMMessage {
                source: Some(LLMProtocol::OpenAiResponses),
                role: parse_responses_role(item.text_at("role").unwrap_or("user")),
                content: responses_content_from_value(item.at("content")),
                name: None,
                metadata,
            },
        )
    } else if same(kind, "function_call") {
        match call_from_item(item, "function_call.name", metadata) {
            Ok(call) => Ok(message_of_one(LLMRole::Assistant, call)),
            Err(e) => Err(e),
        }
    } else if same(kind, "function_call_output") {
        match item.text_at("call_id") {
            Some(id) => Ok(message_of_one(LLMRole::Tool, result_from_item(item, id, metadata))),
            None => Err(AdapterError::MissingField("function_call_output.call_id")),
        }
    } else if same(kind, "reasoning") {
        Ok(message_of_one(LLMRole::Assistant, reasoning_from_responses(item)))
    } else {
        Ok(
            message_of_one(
                LLMRole::Assistant,
                LLMContent {
                    source: Some(LLMProtocol::OpenAiResponses),
                    kind: LLMContentKind::Raw {
                        protocol: LLMProtocol::OpenAiResponses,
                        value: item.clone(),
                    },
                    metadata: JsonMap::new(),
                },
            ),
        )
    }
}

/// The messages that the input is.
pub open spec fn responses_input_of(value: JsonView) -> Result<Seq<MessageView>, ErrorView> {
    if value == JsonView::Null {
        Ok(Seq::empty())
    } else {
        match value.text() {
            Some(text) => Ok(
                seq![responses_message(LLMRole::User, seq![text_part(text)], no_fields())],
            ),
            None => match value.items() {
                None => Err(ErrorView::MissingField("input"@)),
                Some(items) => try_map(items, responses_item_reader()),
            },
        }
    }
}

fn responses_input(value: &Json) -> (r: Result<Vec<LLMMessage>, AdapterError>)
    ensures
        outcomes(r) == responses_input_of(value@),
{
    if value.is_null() {
        let none: Vec<LLMMessage> = Vec::new();
        assert(views(none@) =~= Seq::empty());
        return Ok(none);
    }
    if let Some(text) = value.as_text() {
        let message = message_of_one(LLMRole::User, LLMContent::text(text));
        let mut list: Vec<LLMMessage> = Vec::new();
        list.push(message);
        assert(views(list@) =~= seq![message@]);
        return Ok(list);
    }
    match value.as_array() {
        Some(items) => try_each(
            items.as_slice(),
            responses_input_item,
            Ghost(responses_item_reader()),
        ),
        None => Err(AdapterError::MissingField("input")),
    }
}

/// The choice of tools that a value is.
pub open spec fn responses_choice_of(value: Option<JsonView>) -> Option<ToolChoiceView> {
    match value {
        None => None,
        Some(v) => if v.text() == Some("auto"@) {
            Some(ToolChoiceView::Auto)
        } else if v.text() == Some("none"@) {
            Some(ToolChoiceView::NoTools)
        } else if v.text() == Some("required"@) {
            Some(ToolChoiceView::Required)
        } else if v.text() is None && v.at("type"@).text() == Some("function"@) {
            match v.at("name"@).text() {
                Some(name) => Some(ToolChoiceView::Function { name }),
                None => None,
            }
        } else {
            Some(ToolChoiceView::Raw { value: v })
        },
    }
}

fn parse_responses_tool_choice(value: Option<&Json>) -> (r: Option<LLMToolChoice>)
    ensures
        opt_choice(r) == responses_choice_of(opt_ref(value)),
{
    let value = match value {
        Some(value) => value,
        None => {
            return None;
        },
    };
    match value.as_text() {
        Some(name) => if same(name, "auto") {
            Some(LLMToolChoice::Auto)
        } else if same(name, "none") {
            Some(LLMToolChoice::NoTools)
        } else if same(name, "required") {
            Some(LLMToolChoice::Required)
        } else {
            Some(LLMToolChoice::Raw { value: value.clone() })
        },
        None => if equals(value.text_at("type"), "function") {
            match value.text_at("name") {
                Some(name) => Some(LLMToolChoice::Function { name: name.to_owned() }),
                None => None,
            }
        } else {
            Some(LLMToolChoice::Raw { value: value.clone() })
        },
    }
}

/// The value of a choice of tools.
pub open spec fn responses_choice_value(choice: ToolChoiceView) -> JsonView {
    match choice {
        ToolChoiceView::Auto => jtext("auto"@),
        ToolChoiceView::NoTools => jtext("none"@),
        ToolChoiceView::Required => jtext("required"@),
        ToolChoiceView::Function { name } => object2(
            "type"@,
            jtext("function"@),
            "name"@,
            jtext(name),
        ),
        ToolChoiceView::Raw { value } => value,
    }
}

fn responses_tool_choice_to_value(choice: &LLMToolChoice) -> (r: Json)
    ensures
        r@ == responses_choice_value(choice@),
{
    match choice {
        LLMToolChoice::Auto => Json::text("auto"),
        LLMToolChoice::NoTools => Json::text("none"),
        LLMToolChoice::Required => Json::text("required"),
        LLMToolChoice::Function { name } => json2(
            "type",
            Json::text("function"),
            "name",
            Json::text(name.as_str()),
        ),
        LLMToolChoice::Raw { value } => value.clone(),
    }
}

/// The value where it is not null.
pub open spec fn not_null(o: Option<JsonView>) -> Option<JsonView> {
    match o {
        Some(v) => if v == JsonView::Null {
            None
        } else {
            Some(v)
        },
        None => None,
    }
}

/// The field `key`, where it is not null.
pub(crate) fn present_at<'a>(value: &'a Json, key: &str) -> (r: Option<&'a Json>)
    ensures
        opt_ref(r) == not_null(value@.field(key@)),
{
    match value.get(key) {
        Some(v) => if v.is_null() {
            None
        } else {
            Some(v)
        },
        None => None,
    }
}

/// The fields of a request that the neutral form names.
pub open spec fn responses_request_keys() -> Seq<Seq<char>> {
    seq![
        "model"@,
        "input"@,
        "instructions"@,
        "temperature"@,
        "max_output_tokens"@,
        "top_p"@,
        "stop"@,
        "stream"@,
        "tools"@,
        "tool_choice"@,
        "parallel_tool_calls"@,
        "text"@,
        "reasoning"@,
        "metadata"@,
    ]
}

/// The messages of a request: its instructions, then its input.
pub open spec fn responses_messages_of(value: JsonView) -> Result<Seq<MessageView>, ErrorView> {
    match responses_input_of(value.at("input"@)) {
        Err(e) => Err(e),
        Ok(messages) => match not_null(value.field("instructions"@)) {
            None => Ok(messages),
            Some(instructions) => Ok(
                seq![
                    responses_message(
                        LLMRole::Developer,
                        responses_content_of(instructions),
                        no_fields(),
                    ),
                ] + messages,
            ),
        },
    }
}

fn responses_messages(value: &Json) -> (r: Result<Vec<LLMMessage>, AdapterError>)
    ensures
        outcomes(r) == responses_messages_of(value@),
{
    let mut messages = match responses_input(value.at("input")) {
        Ok(messages) => messages,
        Err(e) => {
            return Err(e);
        },
    };
    if let Some(instructions) = present_at(value, "instructions") {
        let first = LLMMessage {
            source: Some(LLMProtocol::OpenAiResponses),
            role: LLMRole::Developer,
            content: responses_content_from_value(instructions),
            name: None,
            metadata: JsonMap::new(),
        };
        let ghost rest = views(messages@);
        messages.insert(0, first);
        assert(views(messages@) =~= seq![first@] + rest);
    }
    Ok(messages)
}

/// The request that a value is.
pub open spec fn responses_request_of(value: JsonView) -> Result<RequestView, ErrorView> {
    match value.at("model"@).text() {
        None => Err(ErrorView::MissingField("model"@)),
        Some(model) => match responses_messages_of(value) {
            Err(e) => Err(e),
            Ok(messages) => match tools_of(value.at("tools"@), ToolDialect::OpenAiResponses) {
                Err(e) => Err(e),
                Ok(tools) => Ok(
                    RequestView {
                        source: responses(),
                        model,
                        messages,
                        temperature: double_of(value.at("temperature"@)),
                        max_tokens: value.at("max_output_tokens"@).uint(),
                        top_p: double_of(value.at("top_p"@)),
                        stop: value.field("stop"@),
                        stream: or_false(value.at("stream"@).truth()),
                        tools,
                        tool_choice: responses_choice_of(value.field("tool_choice"@)),
                        parallel_tool_calls: value.at("parallel_tool_calls"@).truth(),
                        response_format: value.at("text"@).field("format"@),
                        reasoning: value.field("reasoning"@),
                        metadata: value.at("metadata"@).fields_or_none(),
                        extra: with_some(
                            without(value.fields_or_none(), responses_request_keys()),
                            "verbosity"@,
                            value.at("text"@).field("verbosity"@),
                        ),
                    },
                ),
            },
        },
    }
}

/// The request that a value is.
pub fn read_request(value: &Json) -> (r: Result<LLMRequest, AdapterError>)
    ensures
        outcome(r) == responses_request_of(value@),
{
    let model = match value.text_at("model") {
        Some(model) => model.to_owned(),
        None => {
            return Err(AdapterError::MissingField("model"));
        },
    };
    let messages = match responses_messages(value) {
        Ok(messages) => messages,
        Err(e) => {
            return Err(e);
        },
    };
    let known = [
        "model",
        "input",
        "instructions",
        "temperature",
        "max_output_tokens",
        "top_p",
        "stop",
        "stream",
        "tools",
        "tool_choice",
        "parallel_tool_calls",
        "text",
        "reasoning",
        "metadata",
    ];
    assert(texts(known@) =~= responses_request_keys());
    let mut extra = value.fields_without(&known);
    let text = value.at("text");
    extra.put_some("verbosity", text.get("verbosity"));
    let tools = match tools_from_openai_responses(value.at("tools")) {
        Ok(tools) => tools,
        Err(e) => {
            return Err(e);
        },
    };
    Ok(
        LLMRequest {
            source: LLMProtocol::OpenAiResponses,
            model,
            messages,
            temperature: double(value.at("temperature")),
            max_tokens: value.uint_at("max_output_tokens"),
            top_p: double(value.at("top_p")),
            stop: copy_opt(value.get("stop")),
            stream: value.bool_at("stream").unwrap_or(false),
            tools,
            tool_choice: parse_responses_tool_choice(value.get("tool_choice")),
            parallel_tool_calls: value.bool_at("parallel_tool_calls"),
            response_format: copy_opt(text.get("format")),
            reasoning: copy_opt(value.get("reasoning")),
            metadata: value.at("metadata").fields(),
            extra,
        },
    )
}

/// The value of a part.
pub open spec fn responses_part_value(c: ContentView, role: LLMRole) -> Result<
    JsonView,
    ErrorView,
> {
    let base = content_fields(c, responses());
    match c.kind {
        KindView::Text { text, annotations } => {
            let v = base.insert(
                "type"@,
                jtext(
                    if role == LLMRole::Assistant {
                        "output_text"@
                    } else {
                        "input_text"@
                    },
                ),
            ).insert("text"@, jtext(text));
            match try_map(annotations, openai_annotation_writer(responses())) {
                Err(e) => Err(e),
                Ok(list) => Ok(JsonView::Object(with_list(v, "annotations"@, list))),
            }
        },
        KindView::Image { source, detail } => {
            let v = base.insert("type"@, jtext("input_image"@));
            Ok(
                JsonView::Object(
                    with_text(
                        match source {
                            MediaView::FileId { file_id } => v.insert(
                                "file_id"@,
                                jtext(file_id),
                            ),
                            _ => v.insert("image_url"@, jtext(media_url(source))),
                        },
                        "detail"@,
                        detail,
                    ),
                ),
            )
        },
        KindView::File { source, filename, .. } => {
            let v = base.insert("type"@, jtext("input_file"@));
            Ok(
                JsonView::Object(
                    with_text(
                        match source {
                            MediaView::FileId { file_id } => v.insert(
                                "file_id"@,
                                jtext(file_id),
                            ),
                            MediaView::Data { data, .. } => v.insert("file_data"@, jtext(data)),
                            _ => v.insert("file_url"@, jtext(media_url(source))),
                        },
                        "filename"@,
                        filename,
                    ),
                ),
            )
        },
        KindView::Audio { source, format } => Ok(
            JsonView::Object(
                base.insert("type"@, jtext("input_audio"@)).insert(
                    "input_audio"@,
                    object2(
                        "data"@,
                        jtext(
                            match source {
                                MediaView::Data { data, .. } => data,
                                _ => media_url(source),
                            },
                        ),
                        "format"@,
                        jopt(format),
                    ),
                ),
            ),
        ),
        KindView::Refusal { refusal } => Ok(
            JsonView::Object(
                base.insert("type"@, jtext("refusal"@)).insert("refusal"@, jtext(refusal)),
            ),
        ),
        KindView::Raw { protocol, value } => if protocol == responses() {
            Ok(value)
        } else {
            Err(
                cannot(
                    "OpenAI Responses cannot represent "@,
                    protocol,
                    " content block `"@,
                    raw_type(value),
                ),
            )
        },
        _ => Err(ErrorView::InvalidField("responses.content"@)),
    }
}

/// `responses_part_value` for one role.
pub open spec fn responses_part_writer(role: LLMRole) -> spec_fn(ContentView) -> Result<
    JsonView,
    ErrorView,
> {
    |c: ContentView| responses_part_value(c, role)
}

fn responses_part_to_value(content: &LLMContent, role: LLMRole) -> (r: Result<Json, AdapterError>)
    ensures
        outcome(r) == responses_part_value(content@, role),
{
    let mut value = content_extensions_for(content, LLMProtocol::OpenAiResponses);
    match &content.kind {
        LLMContentKind::Text { text, annotations } => {
            value.put_text(
                "type",
                if role == LLMRole::Assistant {
                    "output_text"
                } else {
                    "input_text"
                },
            );
            value.put_text("text", text.as_str());
            match annotations_to_openai(annotations.as_slice(), LLMProtocol::OpenAiResponses) {
                Ok(list) => {
                    if list.len() > 0 {
                        value.put_array("annotations", list);
                    }
                },
                Err(e) => {
                    return Err(e);
                },
            }
        },
        LLMContentKind::Image { source, detail } => {
            value.put_text("type", "input_image");
            match source {
                LLMMediaSource::FileId { file_id } => {
                    value.put_text("file_id", file_id.as_str());
                },
                _ => {
                    value.put_text("image_url", media_source_to_url(source).as_str());
                },
            }
            value.put_some_text("detail", borrow(detail));
        },
        LLMContentKind::File { source, filename, .. } => {
            value.put_text("type", "input_file");
            match source {
                LLMMediaSource::FileId { file_id } => {
                    value.put_text("file_id", file_id.as_str());
                },
                LLMMediaSource::Data { data, .. } => {
                    value.put_text("file_data", data.as_str());
                },
                _ => {
                    value.put_text("file_url", media_source_to_url(source).as_str());
                },
            }
            value.put_some_text("filename", borrow(filename));
        },
        LLMContentKind::Audio { source, format } => {
            value.put_text("type", "input_audio");
            let data = match source {
                LLMMediaSource::Data { data, .. } => data.clone(),
                _ => media_source_to_url(source),
            };
            value.put(
                "input_audio",
                json2(
                    "data",
                    Json::text(data.as_str()),
                    "format",
                    Json::opt_text(borrow(format)),
                ),
            );
        },
        LLMContentKind::Refusal { refusal } => {
            value.put_text("type", "refusal");
            value.put_text("refusal", refusal.as_str());
        },
        LLMContentKind::Raw { protocol, value: raw } => {
            if *protocol == LLMProtocol::OpenAiResponses {
                return Ok(raw.clone());
            }
            return Err(
                cannot_represent(
                    "OpenAI Responses cannot represent ",
                    *protocol,
                    " content block `",
                    raw.text_at("type").unwrap_or("unknown"),
                ),
            );
        },
        _ => {
            return Err(AdapterError::InvalidField("responses.content"));
        },
    }
    Ok(Json::object(value))
}

fn responses_content_to_value(content: &[LLMContent], role: LLMRole) -> (r: Result<
    Vec<Json>,
    AdapterError,
>)
    ensures
        outcomes(r) == try_map(views(content@), responses_part_writer(role)),
{
    let write = |c: &LLMContent| -> (r: Result<Json, AdapterError>)
        ensures
            outcome(r) == responses_part_value(c@, role),
    {
        responses_part_to_value(c, role)
    };
    try_each(content, write, Ghost(responses_part_writer(role)))
}

/// The content of a message: one text where every part is one, else a list of parts.
pub open spec fn responses_body_value(s: Seq<ContentView>, role: LLMRole) -> Result<
    JsonView,
    ErrorView,
> {
    if all_text(s) {
        Ok(jtext(texts_joined(s)))
    } else {
        match try_map(s, responses_part_writer(role)) {
            Ok(list) => Ok(JsonView::Array(list)),
            Err(e) => Err(e),
        }
    }
}

fn responses_message_content_to_value(content: &[LLMContent], role: LLMRole) -> (r: Result<
    Json,
    AdapterError,
>)
    ensures
        outcome(r) == responses_body_value(views(content@), role),
{
    if is_all_text(content) {
        Ok(Json::text(joined_text(content).as_str()))
    } else {
        match responses_content_to_value(content, role) {
            Ok(list) => Ok(Json::array(list)),
            Err(e) => Err(e),
        }
    }
}

/// A part of a summary.
pub open spec fn summary_part(text: Seq<char>) -> JsonView {
    object2("type"@, jtext("summary_text"@), "text"@, jtext(text))
}

/// The value of a thought.
pub open spec fn reasoning_item_value(c: ContentView, ids: IdsView) -> JsonView {
    match c.kind {
        KindView::Reasoning { text, summary, encrypted_content, .. } => {
            let v = content_fields(c, responses()).insert(
                "id"@,
                jtext("rs_"@ + ids.item),
            ).insert("type"@, jtext("reasoning"@)).insert("status"@, jtext("completed"@)).insert(
                "summary"@,
                JsonView::Array(Seq::new(summary.len(), |i: int| summary_part(summary[i]))),
            );
            let v = match text {
                Some(text) => v.insert(
                    "content"@,
                    array1(object2("type"@, jtext("reasoning_text"@), "text"@, jtext(text))),
                ),
                None => v,
            };
            JsonView::Object(with_text(v, "encrypted_content"@, encrypted_content))
        },
        _ => JsonView::Null,
    }
}

fn summary_values(summary: &Vec<String>) -> (r: Vec<Json>)
    ensures
        views(r@) == Seq::new(
            strings(summary@).len(),
            |i: int| summary_part(strings(summary@)[i]),
        ),
{
    let mut out: Vec<Json> = Vec::new();
    let mut i: usize = 0;
    while i < summary.len()
        invariant
            i <= summary@.len(),
            out@.len() == i,
            forall|j: int| 0 <= j < i ==> (#[trigger] out@[j])@ == summary_part(summary@[j]@),
        decreases summary@.len() - i,
    {
        out.push(
            json2("type", Json::text("summary_text"), "text", Json::text(summary[i].as_str())),
        );
        i = i + 1;
    }
    assert(views(out@) =~= Seq::new(
        strings(summary@).len(),
        |i: int| summary_part(strings(summary@)[i]),
    ));
    out
}

fn reasoning_to_responses(content: &LLMContent, ids: Option<&FreshIds>) -> (r: Json)
    ensures
        r@ == reasoning_item_value(content@, opt_ids(ids)),
{
    match &content.kind {
        LLMContentKind::Reasoning { text, summary, encrypted_content, .. } => {
            let mut value = content_extensions_for(content, LLMProtocol::OpenAiResponses);
            value.put_text("id", cat("rs_", item_id(ids)).as_str());
            value.put_text("type", "reasoning");
            value.put_text("status", "completed");
            value.put_array("summary", summary_values(summary));
            if let Some(text) = text {
                value.put(
                    "content",
                    json_array1(
                        json2("type", Json::text("reasoning_text"), "text", Json::text(text.as_str())),
                    ),
                );
            }
            value.put_some_text("encrypted_content", borrow(encrypted_content));
            Json::object(value)
        },
        _ => Json::null(),
    }
}

/// What the parts of a message give: items of their own, and parts of the message's content.
#[verifier::ext_equal]
pub struct Sorted {
    pub items: Seq<JsonView>,
    pub visible: Seq<ContentView>,
}

/// What one more part of a message of the input gives.
pub open spec fn input_part(done: Sorted, c: ContentView, ids: IdsView) -> Result<
    Sorted,
    ErrorView,
> {
    match c.kind {
        KindView::ToolCall { id, name, arguments } => Ok(
            Sorted {
                items: done.items.push(
                    JsonView::Object(
                        no_fields().insert("type"@, jtext("function_call"@)).insert(
                            "call_id"@,
                            jtext(or_text(id, "call_"@ + ids.call)),
                        ).insert("name"@, jtext(name)).insert(
                            "arguments"@,
                            jtext(arguments_text(arguments)),
                        ),
                    ),
                ),
                ..done
            },
        ),
        KindView::ToolResult { tool_call_id, content, is_error } => match responses_body_value(
            content,
            LLMRole::Tool,
        ) {
            Err(e) => Err(e),
            Ok(output) => Ok(
                Sorted {
                    items: done.items.push(
                        JsonView::Object(
                            no_fields().insert("type"@, jtext("function_call_output"@)).insert(
                                "call_id"@,
                                jtext(tool_call_id),
                            ).insert("output"@, output).insert(
                                "status"@,
                                jtext(
                                    if is_error == Some(true) {
                                        "failed"@
                                    } else {
                                        "completed"@
                                    },
                                ),
                            ),
                        ),
                    ),
                    ..done
                },
            ),
        },
        KindView::Reasoning { .. } => Ok(
            Sorted { items: done.items.push(reasoning_item_value(c, ids)), ..done },
        ),
        KindView::Raw { protocol, value } => if protocol == responses() && value.at(
            "type"@,
        ) is Text {
            Ok(Sorted { items: done.items.push(value), ..done })
        } else {
            Err(
                cannot(
                    "OpenAI Responses cannot represent "@,
                    protocol,
                    " input item `"@,
                    raw_type(value),
                ),
            )
        },
        _ => Ok(Sorted { visible: done.visible.push(c), ..done }),
    }
}

/// What the parts of a message of the input give.
pub open spec fn input_parts(s: Seq<ContentView>, ids: IdsView) -> Result<Sorted, ErrorView>
    decreases s.len(),
{
    if s.len() == 0 {
        Ok(Sorted { items: Seq::empty(), visible: Seq::empty() })
    } else {
        match input_parts(s.drop_last(), ids) {
            Err(e) => Err(e),
            Ok(done) => input_part(done, s.last(), ids.at(s.len() - 1)),
        }
    }
}

proof fn input_parts_fail(s: Seq<ContentView>, ids: IdsView, n: int)
    requires
        0 <= n <= s.len(),
        input_parts(s.take(n), ids) is Err,
    ensures
        input_parts(s, ids) == input_parts(s.take(n), ids),
    decreases s.len() - n,
{
    if n < s.len() {
        assert(s.take(n + 1).drop_last() =~= s.take(n));
        input_parts_fail(s, ids, n + 1);
    } else {
        assert(s.take(n) =~= s);
    }
}

/// The items that a message is in the input.
pub open spec fn message_items(m: MessageView, ids: IdsView) -> Result<Seq<JsonView>, ErrorView> {
    match input_parts(m.content, ids) {
        Err(e) => Err(e),
        Ok(done) => if done.visible.len() == 0 {
            Ok(done.items)
        } else {
            match responses_body_value(done.visible, m.role) {
                Err(e) => Err(e),
                Ok(content) => Ok(
                    done.items.push(
                        JsonView::Object(
                            no_fields().insert("type"@, jtext("message"@)).insert(
                                "role"@,
                                jtext(role_text(m.role)),
                            ).insert("content"@, content),
                        ),
                    ),
                ),
            }
        },
    }
}

/// The items that messages are in the input.
pub open spec fn input_items(messages: Seq<MessageView>, ids: IdsView) -> Result<
    Seq<JsonView>,
    ErrorView,
>
    decreases messages.len(),
{
    if messages.len() == 0 {
        Ok(Seq::empty())
    } else {
        match input_items(messages.drop_last(), ids) {
            Err(e) => Err(e),
            Ok(done) => match message_items(messages.last(), ids.at(messages.len() - 1)) {
                Err(e) => Err(e),
                Ok(more) => Ok(done + more),
            },
        }
    }
}

proof fn input_items_fail(messages: Seq<MessageView>, ids: IdsView, n: int)
    requires
        0 <= n <= messages.len(),
        input_items(messages.take(n), ids) is Err,
    ensures
        input_items(messages, ids) == input_items(messages.take(n), ids),
    decreases messages.len() - n,
{
    if n < messages.len() {
        assert(messages.take(n + 1).drop_last() =~= messages.take(n));
        input_items_fail(messages, ids, n + 1);
    } else {
        assert(messages.take(n) =~= messages);
    }
}

/// What lists of items and of parts stand for.
spec fn sorted_view(items: Seq<Json>, visible: Seq<LLMContent>) -> Sorted {
    Sorted { items: views(items), visible: views(visible) }
}

fn push_item(items: &mut Vec<Json>, item: Json)
    ensures
        views(final(items)@) == views(old(items)@).push(item@),
{
    let ghost before = views(items@);
    items.push(item);
    assert(views(items@) =~= before.push(item@));
}

fn push_part(parts: &mut Vec<LLMContent>, part: LLMContent)
    ensures
        views(final(parts)@) == views(old(parts)@).push(part@),
{
    let ghost before = views(parts@);
    parts.push(part);
    assert(views(parts@) =~= before.push(part@));
}

fn sort_input_part(
    items: &mut Vec<Json>,
    visible: &mut Vec<LLMContent>,
    content: &LLMContent,
    ids: Option<&FreshIds>,
) -> (r: Result<(), AdapterError>)
    ensures
        match r {
            Ok(_) => input_part(sorted_view(old(items)@, old(visible)@), content@, opt_ids(ids))
                == Ok::<Sorted, ErrorView>(sorted_view(final(items)@, final(visible)@)),
            Err(e) => input_part(sorted_view(old(items)@, old(visible)@), content@, opt_ids(ids))
                == Err::<Sorted, ErrorView>(e@),
        },
{
    match &content.kind {
        LLMContentKind::ToolCall { id, name, arguments } => {
            let mut item = JsonMap::new();
            item.put_text("type", "function_call");
            item.put_text("call_id", or_fresh(id, "call_", call_id(ids)).as_str());
            item.put_text("name", name.as_str());
            item.put_text("arguments", arguments_to_string(arguments).as_str());
            push_item(items, Json::object(item));
        },
        LLMContentKind::ToolResult { tool_call_id, content: parts, is_error } => {
            proof {
                content_views_are_views(parts@);
                assert(content@.kind == content.kind@);
            }
            let mut item = JsonMap::new();
            item.put_text("type", "function_call_output");
            item.put_text("call_id", tool_call_id.as_str());
            match responses_message_content_to_value(parts.as_slice(), LLMRole::Tool) {
                Ok(output) => {
                    item.put("output", output);
                },
                Err(e) => {
                    return Err(e);
                },
            }
            let failed = match is_error {
                Some(failed) => *failed,
                None => false,
            };
            item.put_text(
                "status",
                if failed {
                    "failed"
                } else {
                    "completed"
                },
            );
            push_item(items, Json::object(item));
        },
        LLMContentKind::Reasoning { .. } => {
            push_item(items, reasoning_to_responses(content, ids));
        },
        LLMContentKind::Raw { protocol, value } => {
            let named = match value.text_at("type") {
                Some(_) => true,
                None => false,
            };
            if *protocol == LLMProtocol::OpenAiResponses && named {
                push_item(items, value.clone());
            } else {
                return Err(
                    cannot_represent(
                        "OpenAI Responses cannot represent ",
                        *protocol,
                        " input item `",
                        value.text_at("type").unwrap_or("unknown"),
                    ),
                );
            }
        },
        _ => {
            push_part(visible, content.clone());
        },
    }
    Ok(())
}

fn sort_input(content: &Vec<LLMContent>, ids: Option<&FreshIds>) -> (r: Result<
    (Vec<Json>, Vec<LLMContent>),
    AdapterError,
>)
    ensures
        match r {
            Ok((items, visible)) => input_parts(views(content@), opt_ids(ids)) == Ok::<
                Sorted,
                ErrorView,
            >(Sorted { items: views(items@), visible: views(visible@) }),
            Err(e) => input_parts(views(content@), opt_ids(ids)) == Err::<Sorted, ErrorView>(e@),
        },
{
    let ghost all = views(content@);
    let ghost named = opt_ids(ids);
    let mut items: Vec<Json> = Vec::new();
    let mut visible: Vec<LLMContent> = Vec::new();
    let mut i: usize = 0;
    assert(all.take(0) =~= Seq::empty());
    assert(views(items@) =~= Seq::empty());
    assert(views(visible@) =~= Seq::empty());
    while i < content.len()
        invariant
            all == views(content@),
            named == opt_ids(ids),
            i <= content@.len(),
            input_parts(all.take(i as int), named) == Ok::<Sorted, ErrorView>(
                sorted_view(items@, visible@),
            ),
        decreases content@.len() - i,
    {
        assert(all.take(i + 1).drop_last() =~= all.take(i as int));
        assert(all.take(i + 1).last() == content@[i as int]@);
        match sort_input_part(&mut items, &mut visible, &content[i], ids_at(ids, i)) {
            Ok(_) => {},
            Err(e) => {
                proof {
                    input_parts_fail(all, named, i + 1);
                }
                return Err(e);
            },
        }
        i = i + 1;
    }
    assert(all.take(i as int) =~= all);
    Ok((items, visible))
}

fn message_to_items(message: &LLMMessage, ids: Option<&FreshIds>) -> (r: Result<
    Vec<Json>,
    AdapterError,
>)
    ensures
        outcomes(r) == message_items(message@, opt_ids(ids)),
{
    let (mut items, visible) = match sort_input(&message.content, ids) {
        Ok(sorted) => sorted,
        Err(e) => {
            return Err(e);
        },
    };
    if visible.len() > 0 {
        let mut item = JsonMap::new();
        item.put_text("type", "message");
        item.put_text("role", role_name(message.role));
        match responses_message_content_to_value(visible.as_slice(), message.role) {
            Ok(content) => {
                item.put("content", content);
            },
            Err(e) => {
                return Err(e);
            },
        }
        push_item(&mut items, Json::object(item));
    }
    Ok(items)
}

fn responses_input_to_value(messages: &Vec<LLMMessage>, ids: Option<&FreshIds>) -> (r: Result<
    Vec<Json>,
    AdapterError,
>)
    ensures
        outcomes(r) == input_items(views(messages@), opt_ids(ids)),
{
    let ghost all = views(messages@);
    let ghost named = opt_ids(ids);
    let mut out: Vec<Json> = Vec::new();
    let mut i: usize = 0;
    assert(all.take(0) =~= Seq::empty());
    assert(views(out@) =~= Seq::empty());
    while i < messages.len()
        invariant
            all == views(messages@),
            named == opt_ids(ids),
            i <= messages@.len(),
            input_items(all.take(i as int), named) == Ok::<Seq<JsonView>, ErrorView>(views(out@)),
        decreases messages@.len() - i,
    {
        assert(all.take(i + 1).drop_last() =~= all.take(i as int));
        assert(all.take(i + 1).last() == messages@[i as int]@);
        let ghost done = views(out@);
        match message_to_items(&messages[i], ids_at(ids, i)) {
            Ok(mut more) => {
                let ghost added = views(more@);
                out.append(&mut more);
                assert(views(out@) =~= done + added);
            },
            Err(e) => {
                proof {
                    input_items_fail(all, named, i + 1);
                }
                return Err(e);
            },
        }
        i = i + 1;
    }
    assert(all.take(i as int) =~= all);
    Ok(out)
}

/// What is said of reasoning, for a request of the format.
pub open spec fn responses_reasoning_value(reasoning: JsonView, source: LLMProtocol) -> JsonView {
    if source != LLMProtocol::AnthropicMessages {
        reasoning
    } else if reasoning.at("type"@).text() == Some("disabled"@) {
        object1("effort"@, jtext("none"@))
    } else {
        let budget = or_zero(reasoning.at("budget_tokens"@).uint());
        object2(
            "effort"@,
            jtext(
                or_text(
                    reasoning.at("effort"@).text(),
                    if budget <= 2048 {
                        "low"@
                    } else if budget <= 8192 {
                        "medium"@
                    } else {
                        "high"@
                    },
                ),
            ),
            "summary"@,
            jtext("auto"@),
        )
    }
}

fn reasoning_to_responses_request(reasoning: &Json, source: LLMProtocol) -> (r: Json)
    ensures
        r@ == responses_reasoning_value(reasoning@, source),
{
    if source != LLMProtocol::AnthropicMessages {
        return reasoning.clone();
    }
    if equals(reasoning.text_at("type"), "disabled") {
        return json1("effort", Json::text("none"));
    }
    let budget = reasoning.uint_at("budget_tokens").unwrap_or(0);
    let otherwise = if budget <= 2048 {
        "low"
    } else if budget <= 8192 {
        "medium"
    } else {
        "high"
    };
    json2(
        "effort",
        Json::text(reasoning.text_at("effort").unwrap_or(otherwise)),
        "summary",
        Json::text("auto"),
    )
}

/// What a request says of the text of its response.
pub open spec fn responses_text_fields(r: RequestView) -> Fields {
    with_some(
        with_some(no_fields(), "format"@, r.response_format),
        "verbosity"@,
        lookup(r.extra, "verbosity"@),
    )
}

/// The value of a request, once its input and tools have theirs.
pub open spec fn responses_request_fields(
    r: RequestView,
    input: Seq<JsonView>,
    tools: Seq<JsonView>,
) -> Fields {
    let v = passed_through(r, responses_extra_fields());
    let v = v.insert("model"@, jtext(r.model));
    let v = v.insert("input"@, JsonView::Array(input));
    let v = v.insert("stream"@, JsonView::Bool(r.stream));
    let v = with_float(v, "temperature"@, r.temperature);
    let v = with_int(v, "max_output_tokens"@, r.max_tokens);
    let v = with_float(v, "top_p"@, r.top_p);
    let v = with_some(v, "stop"@, r.stop);
    let v = with_list(v, "tools"@, tools);
    let v = match r.tool_choice {
        Some(choice) => v.insert("tool_choice"@, responses_choice_value(choice)),
        None => v,
    };
    let v = with_truth(v, "parallel_tool_calls"@, r.parallel_tool_calls);
    let v = with_nonempty(v, "text"@, responses_text_fields(r));
    let v = match r.reasoning {
        Some(reasoning) => v.insert(
            "reasoning"@,
            responses_reasoning_value(reasoning, r.source),
        ),
        None => v,
    };
    with_nonempty(v, "metadata"@, r.metadata)
}

/// The value of a request.
pub open spec fn responses_request_value(r: RequestView, ids: IdsView) -> Result<
    JsonView,
    ErrorView,
> {
    match extras_outcome(
        r,
        responses(),
        responses_extra_fields().push("verbosity"@).push("logprobs"@),
    ) {
        Err(e) => Err(e),
        Ok(_) => match input_items(r.messages, ids) {
            Err(e) => Err(e),
            Ok(input) => match tools_value(r.tools, ToolDialect::OpenAiResponses) {
                Err(e) => Err(e),
                Ok(tools) => Ok(JsonView::Object(responses_request_fields(r, input, tools))),
            },
        },
    }
}

/// The value of a request, with the given identifiers where the format wants one that the request
/// does not have.
pub fn write_request(request: &LLMRequest, ids: Option<&FreshIds>) -> (r: Result<
    Json,
    AdapterError,
>)
    ensures
        outcome(r) == responses_request_value(request@, opt_ids(ids)),
{
    let accepted = [
        "background",
        "conversation",
        "include",
        "max_tool_calls",
        "previous_response_id",
        "prompt",
        "prompt_cache_key",
        "prompt_cache_retention",
        "safety_identifier",
        "service_tier",
        "store",
        "stream_options",
        "top_logprobs",
        "truncation",
        "user",
        "verbosity",
        "logprobs",
    ];
    assert(texts(accepted@) =~= responses_extra_fields().push("verbosity"@).push("logprobs"@));
    match validate_request_extras(request, LLMProtocol::OpenAiResponses, &accepted) {
        Ok(_) => {},
        Err(e) => {
            return Err(e);
        },
    }
    let input = match responses_input_to_value(&request.messages, ids) {
        Ok(input) => input,
        Err(e) => {
            return Err(e);
        },
    };
    let tools = match tools_to_openai_responses(request.tools.as_slice()) {
        Ok(tools) => tools,
        Err(e) => {
            return Err(e);
        },
    };
    Ok(Json::object(write_request_fields(request, input, tools)))
}

fn write_request_fields(request: &LLMRequest, input: Vec<Json>, tools: Vec<Json>) -> (r: JsonMap)
    ensures
        r@ == responses_request_fields(request@, views(input@), views(tools@)),
{
    let names = [
        "background",
        "conversation",
        "include",
        "max_tool_calls",
        "previous_response_id",
        "prompt",
        "prompt_cache_key",
        "prompt_cache_retention",
        "safety_identifier",
        "service_tier",
        "store",
        "stream_options",
        "top_logprobs",
        "truncation",
        "user",
    ];
    assert(texts(names@) =~= responses_extra_fields());
    let mut value = pass_through(request, &names);
    value.put_text("model", request.model.as_str());
    value.put_array("input", input);
    value.put_bool("stream", request.stream);
    value.put_some_float("temperature", &request.temperature);
    value.put_some_uint("max_output_tokens", request.max_tokens);
    value.put_some_float("top_p", &request.top_p);
    value.put_some("stop", request.stop.as_ref());
    if tools.len() > 0 {
        value.put_array("tools", tools);
    }
    if let Some(choice) = &request.tool_choice {
        value.put("tool_choice", responses_tool_choice_to_value(choice));
    }
    value.put_some_bool("parallel_tool_calls", request.parallel_tool_calls);
    let mut text = JsonMap::new();
    text.put_some("format", request.response_format.as_ref());
    text.put_some("verbosity", request.extra.get("verbosity"));
    if !text.is_empty() {
        value.put_object("text", text);
    }
    if let Some(reasoning) = &request.reasoning {
        value.put("reasoning", reasoning_to_responses_request(reasoning, request.source));
    }
    if !request.metadata.is_empty() {
        value.put_object("metadata", request.metadata.clone());
    }
    value
}

/// What one more item of the output gives.
pub open spec fn output_item_of(item: JsonView) -> Result<Seq<ContentView>, ErrorView> {
    let kind = or_text(item.at("type"@).text(), "message"@);
    if kind == "message"@ {
        Ok(responses_content_of(item.at("content"@)))
    } else if kind == "function_call"@ {
        match responses_call_of(
            item,
            "output.function_call.name"@,
            without(
                item.fields_or_none(),
                seq!["type"@, "id"@, "call_id"@, "name"@, "arguments"@, "status"@],
            ),
        ) {
            Err(e) => Err(e),
            Ok(call) => Ok(seq![call]),
        }
    } else if kind == "reasoning"@ {
        Ok(seq![reasoning_item_of(item)])
    } else {
        Ok(
            seq![
                responses_part(KindView::Raw { protocol: responses(), value: item }, no_fields()),
            ],
        )
    }
}

/// The parts that the items of the output are.
pub open spec fn output_of(items: Seq<JsonView>) -> Result<Seq<ContentView>, ErrorView>
    decreases items.len(),
{
    if items.len() == 0 {
        Ok(Seq::empty())
    } else {
        match output_of(items.drop_last()) {
            Err(e) => Err(e),
            Ok(done) => match output_item_of(items.last()) {
                Err(e) => Err(e),
                Ok(more) => Ok(done + more),
            },
        }
    }
}

proof fn output_of_fails(items: Seq<JsonView>, n: int)
    requires
        0 <= n <= items.len(),
        output_of(items.take(n)) is Err,
    ensures
        output_of(items) == output_of(items.take(n)),
    decreases items.len() - n,
{
    if n < items.len() {
        assert(items.take(n + 1).drop_last() =~= items.take(n));
        output_of_fails(items, n + 1);
    } else {
        assert(items.take(n) =~= items);
    }
}

fn one_part(part: LLMContent) -> (r: Vec<LLMContent>)
    ensures
        views(r@) == seq![part@],
{
    let mut list: Vec<LLMContent> = Vec::new();
    list.push(part);
    assert(views(list@) =~= seq![part@]);
    list
}

fn output_item_from_value(item: &Json) -> (r: Result<Vec<LLMContent>, AdapterError>)
    ensures
        outcomes(r) == output_item_of(item@),
{
    let kind = item.text_at("type").unwrap_or("message");
    if same(kind, "message") {
        Ok(responses_content_from_value(item.at("content")))
    } else if same(kind, "function_call") {
        let known = ["type", "id", "call_id", "name", "arguments", "status"];
        assert(texts(known@) =~= seq![
            "type"@,
            "id"@,
            "call_id"@,
            "name"@,
            "arguments"@,
            "status"@,
        ]);
        match call_from_item(item, "output.function_call.name", item.fields_without(&known)) {
            Ok(call) => Ok(one_part(call)),
            Err(e) => Err(e),
        }
    } else if same(kind, "reasoning") {
        Ok(one_part(reasoning_from_responses(item)))
    } else {
        Ok(
            one_part(
                LLMContent {
                    source: Some(LLMProtocol::OpenAiResponses),
                    kind: LLMContentKind::Raw {
                        protocol: LLMProtocol::OpenAiResponses,
                        value: item.clone(),
                    },
                    metadata: JsonMap::new(),
                },
            ),
        )
    }
}

pub(crate) fn responses_output_from_value(value: &Json) -> (r: Result<
    Vec<LLMContent>,
    AdapterError,
>)
    ensures
        outcomes(r) == output_of(value@.list()),
{
    let mut out: Vec<LLMContent> = Vec::new();
    let ghost all = value@.list();
    assert(views(out@) =~= Seq::empty());
    assert(all.take(0) =~= Seq::empty());
    match value.as_array() {
        Some(items) => {
            let mut i: usize = 0;
            while i < items.len()
                invariant
                    all == views(items@),
                    all == value@.list(),
                    i <= items@.len(),
                    output_of(all.take(i as int)) == Ok::<Seq<ContentView>, ErrorView>(views(out@)),
                decreases items@.len() - i,
            {
                assert(all.take(i + 1).drop_last() =~= all.take(i as int));
                assert(all.take(i + 1).last() == items@[i as int]@);
                let ghost done = views(out@);
                match output_item_from_value(&items[i]) {
                    Ok(mut more) => {
                        let ghost added = views(more@);
                        out.append(&mut more);
                        assert(views(out@) =~= done + added);
                    },
                    Err(e) => {
                        proof {
                            output_of_fails(all, i + 1);
                        }
                        return Err(e);
                    },
                }
                i = i + 1;
            }
            assert(all.take(i as int) =~= all);
        },
        None => {},
    }
    Ok(out)
}

/// Whether a call is among parts.
pub open spec fn has_call(s: Seq<ContentView>) -> bool {
    exists|i: int| 0 <= i < s.len() && (#[trigger] s[i]).kind is ToolCall
}

/// Why the model stopped, by the status of a response.
pub open spec fn responses_reason_of(
    status: Seq<char>,
    details: JsonView,
    content: Seq<ContentView>,
) -> LLMFinishReason {
    let reason = details.at("reason"@).text();
    if status == "completed"@ {
        if has_call(content) {
            LLMFinishReason::ToolCalls
        } else {
            LLMFinishReason::Completed
        }
    } else if status == "failed"@ {
        LLMFinishReason::Failed
    } else if status == "cancelled"@ {
        LLMFinishReason::Cancelled
    } else if status == "incomplete"@ {
        if reason == Some("max_output_tokens"@) {
            LLMFinishReason::MaxTokens
        } else if reason == Some("content_filter"@) {
            LLMFinishReason::ContentFilter
        } else if reason == Some("model_context_window_exceeded"@) {
            LLMFinishReason::ContextLimit
        } else {
            LLMFinishReason::Incomplete
        }
    } else {
        LLMFinishReason::Unknown
    }
}

fn any_call(content: &Vec<LLMContent>) -> (r: bool)
    ensures
        r == has_call(views(content@)),
{
    let ghost all = views(content@);
    let mut i: usize = 0;
    while i < content.len()
        invariant
            all == views(content@),
            i <= content@.len(),
            forall|j: int| 0 <= j < i ==> !((#[trigger] all[j]).kind is ToolCall),
        decreases content@.len() - i,
    {
        match &content[i].kind {
            LLMContentKind::ToolCall { .. } => {
                assert(all[i as int].kind is ToolCall);
                return true;
            },
            _ => {
                assert(!(all[i as int].kind is ToolCall));
            },
        }
        i = i + 1;
    }
    false
}

pub(crate) fn responses_finish_reason(
    status: &str,
    details: &Json,
    content: &Vec<LLMContent>,
) -> (r: LLMFinishReason)
    ensures
        r == responses_reason_of(status@, details@, views(content@)),
{
    let completed = same(status, "completed");
    if completed {
        if any_call(content) {
            LLMFinishReason::ToolCalls
        } else {
            LLMFinishReason::Completed
        }
    } else if same(status, "failed") {
        LLMFinishReason::Failed
    } else if same(status, "cancelled") {
        LLMFinishReason::Cancelled
    } else if same(status, "incomplete") {
        let reason = details.text_at("reason");
        if equals(reason, "max_output_tokens") {
            LLMFinishReason::MaxTokens
        } else if equals(reason, "content_filter") {
            LLMFinishReason::ContentFilter
        } else if equals(reason, "model_context_window_exceeded") {
            LLMFinishReason::ContextLimit
        } else {
            LLMFinishReason::Incomplete
        }
    } else {
        LLMFinishReason::Unknown
    }
}

/// The status of a response, by why the model stopped.
pub open spec fn status_text(reason: Option<LLMFinishReason>) -> Seq<char> {
    match reason {
        Some(LLMFinishReason::Failed) => "failed"@,
        Some(LLMFinishReason::Cancelled) => "cancelled"@,
        Some(LLMFinishReason::Length) => "incomplete"@,
        Some(LLMFinishReason::MaxTokens) => "incomplete"@,
        Some(LLMFinishReason::ContextLimit) => "incomplete"@,
        Some(LLMFinishReason::Incomplete) => "incomplete"@,
        Some(LLMFinishReason::ContentFilter) => "incomplete"@,
        _ => "completed"@,
    }
}

pub(crate) fn responses_status(reason: Option<LLMFinishReason>) -> (r: &'static str)
    ensures
        r@ == status_text(reason),
{
    match reason {
        Some(LLMFinishReason::Failed) => "failed",
        Some(LLMFinishReason::Cancelled) => "cancelled",
        Some(LLMFinishReason::Length) => "incomplete",
        Some(LLMFinishReason::MaxTokens) => "incomplete",
        Some(LLMFinishReason::ContextLimit) => "incomplete",
        Some(LLMFinishReason::Incomplete) => "incomplete",
        Some(LLMFinishReason::ContentFilter) => "incomplete",
        _ => "completed",
    }
}

/// Why a response is incomplete.
pub open spec fn incomplete_text(reason: Option<LLMFinishReason>) -> Seq<char> {
    match reason {
        Some(LLMFinishReason::ContentFilter) => "content_filter"@,
        Some(LLMFinishReason::Refusal) => "content_filter"@,
        Some(LLMFinishReason::ContextLimit) => "model_context_window_exceeded"@,
        _ => "max_output_tokens"@,
    }
}

pub(crate) fn incomplete_reason(reason: Option<LLMFinishReason>) -> (r: &'static str)
    ensures
        r@ == incomplete_text(reason),
{
    match reason {
        Some(LLMFinishReason::ContentFilter) => "content_filter",
        Some(LLMFinishReason::Refusal) => "content_filter",
        Some(LLMFinishReason::ContextLimit) => "model_context_window_exceeded",
        _ => "max_output_tokens",
    }
}

/// The consumption that a value is.
pub open spec fn responses_usage_of(value: JsonView) -> Option<UsageView> {
    let input = value.at("input_tokens_details"@);
    let output = value.at("output_tokens_details"@);
    match value {
        JsonView::Object(fields) => Some(
            UsageView {
                source: Some(responses()),
                input_tokens: value.at("input_tokens"@).uint(),
                output_tokens: value.at("output_tokens"@).uint(),
                total_tokens: value.at("total_tokens"@).uint(),
                cache_read_tokens: input.at("cached_tokens"@).uint(),
                cache_creation_tokens: None,
                reasoning_tokens: output.at("reasoning_tokens"@).uint(),
                input_audio_tokens: None,
                output_audio_tokens: None,
                accepted_prediction_tokens: output.at("accepted_prediction_tokens"@).uint(),
                rejected_prediction_tokens: output.at("rejected_prediction_tokens"@).uint(),
                extra: without(
                    fields,
                    seq![
                        "input_tokens"@,
                        "output_tokens"@,
                        "total_tokens"@,
                        "input_tokens_details"@,
                        "output_tokens_details"@,
                    ],
                ),
            },
        ),
        _ => None,
    }
}

/// The consumption that an optional value is.
pub open spec fn responses_usage_of_opt(value: Option<JsonView>) -> Option<UsageView> {
    match value {
        Some(v) => responses_usage_of(v),
        None => None,
    }
}

/// The consumption that a value is.
pub fn responses_usage_from_value(value: &Json) -> (r: Option<LLMUsage>)
    ensures
        opt_usage(r) == responses_usage_of(value@),
{
    if !value.is_object() {
        return None;
    }
    let input = value.at("input_tokens_details");
    let output = value.at("output_tokens_details");
    let known = [
        "input_tokens",
        "output_tokens",
        "total_tokens",
        "input_tokens_details",
        "output_tokens_details",
    ];
    assert(texts(known@) =~= seq![
        "input_tokens"@,
        "output_tokens"@,
        "total_tokens"@,
        "input_tokens_details"@,
        "output_tokens_details"@,
    ]);
    Some(
        LLMUsage {
            source: Some(LLMProtocol::OpenAiResponses),
            input_tokens: value.uint_at("input_tokens"),
            output_tokens: value.uint_at("output_tokens"),
            total_tokens: value.uint_at("total_tokens"),
            cache_read_tokens: input.uint_at("cached_tokens"),
            cache_creation_tokens: None,
            reasoning_tokens: output.uint_at("reasoning_tokens"),
            input_audio_tokens: None,
            output_audio_tokens: None,
            accepted_prediction_tokens: output.uint_at("accepted_prediction_tokens"),
            rejected_prediction_tokens: output.uint_at("rejected_prediction_tokens"),
            extra: value.fields_without(&known),
        },
    )
}

/// The consumption at the field `key`.
pub(crate) fn responses_usage_at(value: &Json, key: &str) -> (r: Option<LLMUsage>)
    ensures
        opt_usage(r) == responses_usage_of_opt(value@.field(key@)),
{
    match value.get(key) {
        Some(usage) => responses_usage_from_value(usage),
        None => None,
    }
}

/// What a consumption says of the output.
pub open spec fn responses_output_details(u: UsageView) -> Fields {
    let m = with_int(no_fields(), "reasoning_tokens"@, u.reasoning_tokens);
    let m = with_int(m, "accepted_prediction_tokens"@, u.accepted_prediction_tokens);
    with_int(m, "rejected_prediction_tokens"@, u.rejected_prediction_tokens)
}

/// The value of a consumption.
pub open spec fn responses_usage_value(u: UsageView) -> JsonView {
    let v = usage_fields(u, responses());
    let v = v.insert("input_tokens"@, jint(or_zero(u.input_tokens)));
    let v = v.insert("output_tokens"@, jint(or_zero(u.output_tokens)));
    let v = v.insert("total_tokens"@, jint(total_of(u)));
    let v = with_nonempty(
        v,
        "input_tokens_details"@,
        with_int(no_fields(), "cached_tokens"@, u.cache_read_tokens),
    );
    JsonView::Object(with_nonempty(v, "output_tokens_details"@, responses_output_details(u)))
}

/// The value of a consumption.
pub fn responses_usage_to_value(usage: &LLMUsage) -> (r: Json)
    ensures
        r@ == responses_usage_value(usage@),
{
    let mut value = usage_extensions_for(usage, LLMProtocol::OpenAiResponses);
    value.put_uint("input_tokens", usage.input_tokens.unwrap_or(0));
    value.put_uint("output_tokens", usage.output_tokens.unwrap_or(0));
    value.put_uint("total_tokens", total_tokens(usage));
    let mut input = JsonMap::new();
    input.put_some_uint("cached_tokens", usage.cache_read_tokens);
    if !input.is_empty() {
        value.put_object("input_tokens_details", input);
    }
    let mut output = JsonMap::new();
    output.put_some_uint("reasoning_tokens", usage.reasoning_tokens);
    output.put_some_uint("accepted_prediction_tokens", usage.accepted_prediction_tokens);
    output.put_some_uint("rejected_prediction_tokens", usage.rejected_prediction_tokens);
    if !output.is_empty() {
        value.put_object("output_tokens_details", output);
    }
    Json::object(value)
}

/// The fields of a response that the neutral form names.
pub open spec fn responses_response_keys() -> Seq<Seq<char>> {
    seq![
        "id"@,
        "object"@,
        "created_at"@,
        "model"@,
        "output"@,
        "output_text"@,
        "status"@,
        "usage"@,
        "metadata"@,
        "error"@,
        "incomplete_details"@,
    ]
}

/// The parts of a response.
pub open spec fn responses_answer_of(value: JsonView) -> Result<Seq<ContentView>, ErrorView> {
    if value.at("output"@) is Array {
        output_of(value.at("output"@).list())
    } else {
        match value.at("output_text"@).text() {
            Some(text) => Ok(seq![text_part(text)]),
            None => Ok(Seq::empty()),
        }
    }
}

/// The response that a value is.
pub open spec fn responses_response_of(value: JsonView) -> Result<ResponseView, ErrorView> {
    match responses_answer_of(value) {
        Err(e) => Err(e),
        Ok(content) => Ok(
            ResponseView {
                source: responses(),
                id: value.at("id"@).text(),
                model: value.at("model"@).text(),
                choices: seq![
                    ChoiceView {
                        index: 0,
                        role: LLMRole::Assistant,
                        content,
                        finish_reason: Some(
                            responses_reason_of(
                                or_text(value.at("status"@).text(), "completed"@),
                                value.at("incomplete_details"@),
                                content,
                            ),
                        ),
                        metadata: no_fields(),
                    },
                ],
                usage: responses_usage_of_opt(value.field("usage"@)),
                metadata: with_some(
                    with_some(
                        value.at("metadata"@).fields_or_none(),
                        "error"@,
                        not_null(value.field("error"@)),
                    ),
                    "incomplete_details"@,
                    not_null(value.field("incomplete_details"@)),
                ),
                extra: without(value.fields_or_none(), responses_response_keys()),
            },
        ),
    }
}

fn answer_from_value(value: &Json) -> (r: Result<Vec<LLMContent>, AdapterError>)
    ensures
        outcomes(r) == responses_answer_of(value@),
{
    let output = value.at("output");
    match output.as_array() {
        Some(_) => responses_output_from_value(output),
        None => match value.text_at("output_text") {
            Some(text) => Ok(crate::model::text_content(text)),
            None => {
                let none: Vec<LLMContent> = Vec::new();
                assert(views(none@) =~= Seq::empty());
                Ok(none)
            },
        },
    }
}

/// The response that a value is.
pub fn read_response(value: &Json) -> (r: Result<LLMResponse, AdapterError>)
    ensures
        outcome(r) == responses_response_of(value@),
{
    let content = match answer_from_value(value) {
        Ok(content) => content,
        Err(e) => {
            return Err(e);
        },
    };
    let mut metadata = value.at("metadata").fields();
    metadata.put_some("error", present_at(value, "error"));
    metadata.put_some("incomplete_details", present_at(value, "incomplete_details"));
    let finish_reason = responses_finish_reason(
        value.text_at("status").unwrap_or("completed"),
        value.at("incomplete_details"),
        &content,
    );
    let known = [
        "id",
        "object",
        "created_at",
        "model",
        "output",
        "output_text",
        "status",
        "usage",
        "metadata",
        "error",
        "incomplete_details",
    ];
    assert(texts(known@) =~= responses_response_keys());
    let choice = LLMChoice {
        index: 0,
        role: LLMRole::Assistant,
        content,
        finish_reason: Some(finish_reason),
        metadata: JsonMap::new(),
    };
    let mut choices: Vec<LLMChoice> = Vec::new();
    choices.push(choice);
    assert(views(choices@) =~= seq![choice@]);
    Ok(
        LLMResponse {
            source: LLMProtocol::OpenAiResponses,
            id: own(value.text_at("id")),
            model: own(value.text_at("model")),
            choices,
            usage: responses_usage_at(value, "usage"),
            metadata,
            extra: value.fields_without(&known),
        },
    )
}

/// What one more part of an answer gives.
pub open spec fn output_part(done: Sorted, c: ContentView, ids: IdsView) -> Result<
    Sorted,
    ErrorView,
> {
    match c.kind {
        KindView::ToolCall { id, name, arguments } => Ok(
            Sorted {
                items: done.items.push(
                    JsonView::Object(
                        no_fields().insert("id"@, jtext("fc_"@ + ids.item)).insert(
                            "type"@,
                            jtext("function_call"@),
                        ).insert("status"@, jtext("completed"@)).insert(
                            "call_id"@,
                            jtext(or_text(id, "call_"@ + ids.call)),
                        ).insert("name"@, jtext(name)).insert(
                            "arguments"@,
                            jtext(arguments_text(arguments)),
                        ),
                    ),
                ),
                ..done
            },
        ),
        KindView::Reasoning { .. } => Ok(
            Sorted { items: done.items.push(reasoning_item_value(c, ids)), ..done },
        ),
        KindView::Raw { protocol, value } => if protocol == responses() && value.at(
            "type"@,
        ) is Text {
            Ok(Sorted { items: done.items.push(value), ..done })
        } else {
            Err(
                cannot(
                    "OpenAI Responses cannot represent "@,
                    protocol,
                    " output item `"@,
                    raw_type(value),
                ),
            )
        },
        KindView::ToolResult { .. } => Err(
            ErrorView::Unsupported("Responses output cannot contain a tool result"@),
        ),
        _ => Ok(Sorted { visible: done.visible.push(c), ..done }),
    }
}

/// What the parts of an answer give.
pub open spec fn output_parts(s: Seq<ContentView>, ids: IdsView) -> Result<Sorted, ErrorView>
    decreases s.len(),
{
    if s.len() == 0 {
        Ok(Sorted { items: Seq::empty(), visible: Seq::empty() })
    } else {
        match output_parts(s.drop_last(), ids) {
            Err(e) => Err(e),
            Ok(done) => output_part(done, s.last(), ids.at(s.len() - 1)),
        }
    }
}

proof fn output_parts_fail(s: Seq<ContentView>, ids: IdsView, n: int)
    requires
        0 <= n <= s.len(),
        output_parts(s.take(n), ids) is Err,
    ensures
        output_parts(s, ids) == output_parts(s.take(n), ids),
    decreases s.len() - n,
{
    if n < s.len() {
        assert(s.take(n + 1).drop_last() =~= s.take(n));
        output_parts_fail(s, ids, n + 1);
    } else {
        assert(s.take(n) =~= s);
    }
}

/// The items of the output: the message, where there is one, before the others.
pub open spec fn output_value(s: Seq<ContentView>, ids: IdsView) -> Result<
    Seq<JsonView>,
    ErrorView,
> {
    match output_parts(s, ids) {
        Err(e) => Err(e),
        Ok(done) => if done.visible.len() == 0 {
            Ok(done.items)
        } else {
            match try_map(done.visible, responses_part_writer(LLMRole::Assistant)) {
                Err(e) => Err(e),
                Ok(content) => Ok(
                    seq![
                        JsonView::Object(
                            no_fields().insert("id"@, jtext("msg_"@ + ids.item)).insert(
                                "type"@,
                                jtext("message"@),
                            ).insert("status"@, jtext("completed"@)).insert(
                                "role"@,
                                jtext("assistant"@),
                            ).insert("content"@, JsonView::Array(content)),
                        ),
                    ] + done.items,
                ),
            }
        },
    }
}

fn sort_output_part(
    items: &mut Vec<Json>,
    visible: &mut Vec<LLMContent>,
    content: &LLMContent,
    ids: Option<&FreshIds>,
) -> (r: Result<(), AdapterError>)
    ensures
        match r {
            Ok(_) => output_part(sorted_view(old(items)@, old(visible)@), content@, opt_ids(ids))
                == Ok::<Sorted, ErrorView>(sorted_view(final(items)@, final(visible)@)),
            Err(e) => output_part(sorted_view(old(items)@, old(visible)@), content@, opt_ids(ids))
                == Err::<Sorted, ErrorView>(e@),
        },
{
    match &content.kind {
        LLMContentKind::ToolCall { id, name, arguments } => {
            let mut item = JsonMap::new();
            item.put_text("id", cat("fc_", item_id(ids)).as_str());
            item.put_text("type", "function_call");
            item.put_text("status", "completed");
            item.put_text("call_id", or_fresh(id, "call_", call_id(ids)).as_str());
            item.put_text("name", name.as_str());
            item.put_text("arguments", arguments_to_string(arguments).as_str());
            push_item(items, Json::object(item));
        },
        LLMContentKind::Reasoning { .. } => {
            push_item(items, reasoning_to_responses(content, ids));
        },
        LLMContentKind::Raw { protocol, value } => {
            let named = match value.text_at("type") {
                Some(_) => true,
                None => false,
            };
            if *protocol == LLMProtocol::OpenAiResponses && named {
                push_item(items, value.clone());
            } else {
                return Err(
                    cannot_represent(
                        "OpenAI Responses cannot represent ",
                        *protocol,
                        " output item `",
                        value.text_at("type").unwrap_or("unknown"),
                    ),
                );
            }
        },
        LLMContentKind::ToolResult { .. } => {
            return Err(
                AdapterError::Unsupported(
                    "Responses output cannot contain a tool result".to_owned(),
                ),
            );
        },
        _ => {
            push_part(visible, content.clone());
        },
    }
    Ok(())
}

fn sort_output(content: &Vec<LLMContent>, ids: Option<&FreshIds>) -> (r: Result<
    (Vec<Json>, Vec<LLMContent>),
    AdapterError,
>)
    ensures
        match r {
            Ok((items, visible)) => output_parts(views(content@), opt_ids(ids)) == Ok::<
                Sorted,
                ErrorView,
            >(Sorted { items: views(items@), visible: views(visible@) }),
            Err(e) => output_parts(views(content@), opt_ids(ids)) == Err::<Sorted, ErrorView>(e@),
        },
{
    let ghost all = views(content@);
    let ghost named = opt_ids(ids);
    let mut items: Vec<Json> = Vec::new();
    let mut visible: Vec<LLMContent> = Vec::new();
    let mut i: usize = 0;
    assert(all.take(0) =~= Seq::empty());
    assert(views(items@) =~= Seq::empty());
    assert(views(visible@) =~= Seq::empty());
    while i < content.len()
        invariant
            all == views(content@),
            named == opt_ids(ids),
            i <= content@.len(),
            output_parts(all.take(i as int), named) == Ok::<Sorted, ErrorView>(
                sorted_view(items@, visible@),
            ),
        decreases content@.len() - i,
    {
        assert(all.take(i + 1).drop_last() =~= all.take(i as int));
        assert(all.take(i + 1).last() == content@[i as int]@);
        match sort_output_part(&mut items, &mut visible, &content[i], ids_at(ids, i)) {
            Ok(_) => {},
            Err(e) => {
                proof {
                    output_parts_fail(all, named, i + 1);
                }
                return Err(e);
            },
        }
        i = i + 1;
    }
    assert(all.take(i as int) =~= all);
    Ok((items, visible))
}

fn responses_output_to_value(content: &Vec<LLMContent>, ids: Option<&FreshIds>) -> (r: Result<
    Vec<Json>,
    AdapterError,
>)
    ensures
        outcomes(r) == output_value(views(content@), opt_ids(ids)),
{
    let (mut items, visible) = match sort_output(content, ids) {
        Ok(sorted) => sorted,
        Err(e) => {
            return Err(e);
        },
    };
    if visible.len() > 0 {
        let mut item = JsonMap::new();
        item.put_text("id", cat("msg_", item_id(ids)).as_str());
        item.put_text("type", "message");
        item.put_text("status", "completed");
        item.put_text("role", "assistant");
        match responses_content_to_value(visible.as_slice(), LLMRole::Assistant) {
            Ok(list) => {
                item.put_array("content", list);
            },
            Err(e) => {
                return Err(e);
            },
        }
        let message = Json::object(item);
        let ghost rest = views(items@);
        items.insert(0, message);
        assert(views(items@) =~= seq![message@] + rest);
    }
    Ok(items)
}

/// Whether a value gives itself the type `kind`.
pub open spec fn has_type(value: JsonView, kind: Seq<char>) -> bool {
    value.at("type"@).text() == Some(kind)
}

/// The position of the first value of a type; the length where there is none.
pub open spec fn first_typed(s: Seq<JsonView>, kind: Seq<char>) -> int
    decreases s.len(),
{
    if s.len() == 0 {
        0
    } else if has_type(s[0], kind) {
        0
    } else {
        1 + first_typed(s.subrange(1, s.len() as int), kind)
    }
}

proof fn first_typed_is(s: Seq<JsonView>, kind: Seq<char>, n: int)
    requires
        0 <= n <= s.len(),
        forall|i: int| 0 <= i < n ==> !has_type(#[trigger] s[i], kind),
        n < s.len() ==> has_type(s[n], kind),
    ensures
        first_typed(s, kind) == n,
    decreases n,
{
    if n > 0 {
        let t = s.subrange(1, s.len() as int);
        assert forall|i: int| 0 <= i < n - 1 implies !has_type(#[trigger] t[i], kind) by {
            assert(t[i] == s[i + 1]);
        }
        first_typed_is(t, kind, n - 1);
    }
}

fn find_typed(list: &Vec<Json>, kind: &str) -> (r: usize)
    ensures
        r == first_typed(views(list@), kind@),
        r <= list@.len(),
        r < list@.len() ==> has_type(list@[r as int]@, kind@),
{
    let ghost s = views(list@);
    let mut i: usize = 0;
    while i < list.len() && !equals(list[i].text_at("type"), kind)
        invariant
            s == views(list@),
            i <= list@.len(),
            forall|j: int| 0 <= j < i ==> !has_type(#[trigger] s[j], kind@),
        decreases list@.len() - i,
    {
        i = i + 1;
    }
    proof {
        first_typed_is(s, kind@, i as int);
    }
    i
}

/// The parts of a message with `logprobs` set on the first text.
pub open spec fn parts_with_logprobs(parts: Seq<JsonView>, logprobs: JsonView) -> Seq<JsonView> {
    let n = first_typed(parts, "output_text"@);
    if n < parts.len() {
        parts.update(n, JsonView::Object(parts[n].fields_or_none().insert("logprobs"@, logprobs)))
    } else {
        parts
    }
}

/// The output with `logprobs` set on the first text of its first message.
pub open spec fn with_logprobs(output: Seq<JsonView>, logprobs: JsonView) -> Seq<JsonView> {
    let n = first_typed(output, "message"@);
    if n < output.len() {
        let fields = output[n].fields_or_none();
        output.update(
            n,
            JsonView::Object(
                fields.insert(
                    "content"@,
                    match output[n].at("content"@) {
                        JsonView::Array(parts) => JsonView::Array(
                            parts_with_logprobs(parts, logprobs),
                        ),
                        content => content,
                    },
                ),
            ),
        )
    } else {
        output
    }
}

fn set_part_logprobs(parts: &Vec<Json>, logprobs: &Json) -> (r: Vec<Json>)
    ensures
        views(r@) == parts_with_logprobs(views(parts@), logprobs@),
{
    let mut out = crate::json::copy_all(parts);
    let n = find_typed(parts, "output_text");
    if n < parts.len() {
        let mut part = parts[n].fields();
        part.put("logprobs", logprobs.clone());
        let part = Json::object(part);
        assert(out@.len() == views(out@).len());
        assert(views(parts@).len() == parts@.len());
        let ghost before = views(out@);
        out[n] = part;
        assert(views(out@) =~= before.update(n as int, part@));
    }
    out
}

fn set_logprobs(output: Vec<Json>, logprobs: &Json) -> (r: Vec<Json>)
    ensures
        views(r@) == with_logprobs(views(output@), logprobs@),
{
    let mut output = output;
    let n = find_typed(&output, "message");
    if n < output.len() {
        let mut fields = output[n].fields();
        let content = output[n].at("content");
        let content = match content.as_array() {
            Some(parts) => Json::array(set_part_logprobs(parts, logprobs)),
            None => content.clone(),
        };
        fields.put("content", content);
        let message = Json::object(fields);
        let ghost before = views(output@);
        output[n] = message;
        assert(views(output@) =~= before.update(n as int, message@));
    }
    output
}

/// The output of an answer.
pub open spec fn answer_output(choice: ChoiceView, ids: IdsView) -> Result<
    Seq<JsonView>,
    ErrorView,
> {
    match output_value(choice.content, ids) {
        Err(e) => Err(e),
        Ok(output) => match lookup(choice.metadata, "logprobs"@) {
            Some(logprobs) => Ok(with_logprobs(output, logprobs)),
            None => Ok(output),
        },
    }
}

/// The value of a response, once its output has one.
pub open spec fn responses_response_fields(
    r: ResponseView,
    choice: ChoiceView,
    output: Seq<JsonView>,
    ids: IdsView,
    now: i64,
) -> Fields {
    let v = response_base(r, responses());
    let v = v.insert("id"@, jtext(or_text(r.id, "resp_"@ + ids.item)));
    let v = v.insert("object"@, jtext("response"@));
    let v = v.insert("created_at"@, JsonView::Number(int_num(now)));
    let v = v.insert("model"@, jtext(or_text(r.model, ""@)));
    let v = v.insert("output"@, JsonView::Array(output));
    let v = v.insert("output_text"@, jtext(texts_joined(choice.content)));
    let v = v.insert("status"@, jtext(status_text(choice.finish_reason)));
    let v = v.insert("metadata"@, JsonView::Object(r.metadata));
    let v = if status_text(choice.finish_reason) == "incomplete"@ {
        v.insert(
            "incomplete_details"@,
            object1("reason"@, jtext(incomplete_text(choice.finish_reason))),
        )
    } else {
        v
    };
    let v = with_some(v, "error"@, lookup(r.metadata, "error"@));
    match r.usage {
        Some(usage) => v.insert("usage"@, responses_usage_value(usage)),
        None => v,
    }
}

/// The value of a response.
pub open spec fn responses_response_value(r: ResponseView, ids: IdsView, now: i64) -> Result<
    JsonView,
    ErrorView,
> {
    if r.choices.len() > 1 {
        Err(ErrorView::Unsupported("OpenAI Responses cannot represent multiple Chat choices"@))
    } else if r.choices.len() == 0 {
        Err(ErrorView::InvalidField("choices"@))
    } else {
        match answer_output(r.choices[0], ids.at(0)) {
            Err(e) => Err(e),
            Ok(output) => Ok(
                JsonView::Object(responses_response_fields(r, r.choices[0], output, ids, now)),
            ),
        }
    }
}

/// The value of a response, with the given identifiers where the format wants one that the
/// response does not have, and the given time of creation.
pub fn write_response(response: &LLMResponse, ids: Option<&FreshIds>, created: i64) -> (r: Result<
    Json,
    AdapterError,
>)
    ensures
        outcome(r) == responses_response_value(response@, opt_ids(ids), created),
{
    if response.choices.len() > 1 {
        return Err(
            AdapterError::Unsupported(
                "OpenAI Responses cannot represent multiple Chat choices".to_owned(),
            ),
        );
    }
    let choice = match response.primary_choice() {
        Some(choice) => choice,
        None => {
            return Err(AdapterError::InvalidField("choices"));
        },
    };
    let mut output = match responses_output_to_value(&choice.content, ids_at(ids, 0)) {
        Ok(output) => output,
        Err(e) => {
            return Err(e);
        },
    };
    if let Some(logprobs) = choice.metadata.get("logprobs") {
        output = set_logprobs(output, logprobs);
    }
    let status = responses_status(choice.finish_reason);
    let mut value = response_extensions_for(response, LLMProtocol::OpenAiResponses);
    value.put_text("id", or_fresh(&response.id, "resp_", item_id(ids)).as_str());
    value.put_text("object", "response");
    value.put("created_at", Json::signed(created));
    value.put_text("model", borrow(&response.model).unwrap_or(""));
    value.put_array("output", output);
    value.put_text("output_text", joined_text(choice.content.as_slice()).as_str());
    value.put_text("status", status);
    value.put_object("metadata", response.metadata.clone());
    if same(status, "incomplete") {
        value.put(
            "incomplete_details",
            json1("reason", Json::text(incomplete_reason(choice.finish_reason))),
        );
    }
    value.put_some("error", response.metadata.get("error"));
    if let Some(usage) = &response.usage {
        value.put("usage", responses_usage_to_value(usage));
    }
    Ok(Json::object(value))
}

} // verus!
