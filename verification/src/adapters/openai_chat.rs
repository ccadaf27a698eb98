//! The Chat Completions format: requests and responses.

use super::annotations::{
    annotations_from_openai, annotations_to_openai, openai_annotation_writer, openai_annotations,
};
use super::common::{
    all_text, arguments_of, arguments_text, arguments_to_string, cannot, cannot_represent,
    content_extensions_for, content_fields, equals, extras_outcome, is_all_text, json1, json2,
    json3, media_source_to_url, media_url, message_extensions_for, message_fields, object1, object2,
    object3, parse_arguments, raw_type, set_field, validate_request_extras, with_field,
};
use super::error::{AdapterError, ErrorView};
use super::fresh::{call_id, ids_at, item_id, opt_ids, FreshIds, IdsView};
use super::tools::{
    tools_from_openai_chat, tools_of, tools_to_openai_chat, tools_value, ToolDialect,
};
use crate::json::{
    copy_opt, int_num, jint, jopt, jtext, lookup, opt_ref, opt_view, selected, with_float, with_int,
    with_some, with_text, with_truth, without, Json, JsonMap, JsonView,
};
use crate::model::{
    content_views_are_views, copy_contents, joined_text, no_fields, opt_choice, opt_usage,
    text_part, texts_joined, AnnotationView, ChoiceView, ContentView, Fields, KindView,
    LLMAnnotation, LLMChoice, LLMContent, LLMContentKind, LLMFinishReason, LLMMediaSource,
    LLMMessage, LLMProtocol, LLMRequest, LLMResponse, LLMRole, LLMTool, LLMToolChoice, LLMToolKind,
    LLMUsage, MediaView, MessageView, RequestView, ResponseView, ToolChoiceView, ToolKindView,
    ToolView, UsageView,
};
use crate::seqs::{map_each, outcome, outcomes, try_each, try_each_ids, try_map, try_map_ids, views};
use crate::text::{
    borrow, cat, either, joined, opt_str, opt_text, or_text, own, same, strings, texts,
};
use crate::wire::{double, double_of};
use vstd::prelude::*;

verus! {

broadcast use content_views_are_views;

/// The Chat Completions format.
pub struct OpenAiChatAdapter;

/// The format's name.
pub open spec fn chat() -> LLMProtocol {
    LLMProtocol::OpenAiChat
}

/// The fields of a request that the format passes through.
pub open spec fn chat_extra_fields() -> Seq<Seq<char>> {
    seq![
        "audio"@,
        "frequency_penalty"@,
        "logit_bias"@,
        "logprobs"@,
        "modalities"@,
        "n"@,
        "prediction"@,
        "presence_penalty"@,
        "prompt_cache_key"@,
        "prompt_cache_retention"@,
        "safety_identifier"@,
        "seed"@,
        "service_tier"@,
        "store"@,
        "stream_options"@,
        "top_logprobs"@,
        "user"@,
        "verbosity"@,
        "web_search_options"@,
    ]
}

/// Who a message is from, by the format's name for it.
pub open spec fn chat_role_of(role: Seq<char>) -> Result<LLMRole, ErrorView> {
    if role == "system"@ {
        Ok(LLMRole::System)
    } else if role == "developer"@ {
        Ok(LLMRole::Developer)
    } else if role == "user"@ {
        Ok(LLMRole::User)
    } else if role == "assistant"@ {
        Ok(LLMRole::Assistant)
    } else if role == "tool"@ || role == "function"@ {
        Ok(LLMRole::Tool)
    } else {
        Err(ErrorView::InvalidField("role"@))
    }
}

fn parse_role(role: &str) -> (r: Result<LLMRole, AdapterError>)
    ensures
        match r {
            Ok(role_) => chat_role_of(role@) == Ok::<LLMRole, ErrorView>(role_),
            Err(e) => chat_role_of(role@) == Err::<LLMRole, ErrorView>(e@),
        },
{
    if same(role, "system") {
        Ok(LLMRole::System)
    } else if same(role, "developer") {
        Ok(LLMRole::Developer)
    } else if same(role, "user") {
        Ok(LLMRole::User)
    } else if same(role, "assistant") {
        Ok(LLMRole::Assistant)
    } else if same(role, "tool") || same(role, "function") {
        Ok(LLMRole::Tool)
    } else {
        Err(AdapterError::InvalidField("role"))
    }
}

/// The name of who a message is from.
pub open spec fn role_text(role: LLMRole) -> Seq<char> {
    match role {
        LLMRole::System => "system"@,
        LLMRole::Developer => "developer"@,
        LLMRole::User => "user"@,
        LLMRole::Assistant => "assistant"@,
        LLMRole::Tool => "tool"@,
    }
}

/// The name of who a message is from.
pub(crate) fn role_name(role: LLMRole) -> (r: &'static str)
    ensures
        r@ == role_text(role),
{
    match role {
        LLMRole::System => "system",
        LLMRole::Developer => "developer",
        LLMRole::User => "user",
        LLMRole::Assistant => "assistant",
        LLMRole::Tool => "tool",
    }
}

/// A part of the format's own.
pub open spec fn chat_part(kind: KindView, metadata: Fields) -> ContentView {
    ContentView { source: Some(chat()), kind, metadata }
}

/// The file that a value is.
pub open spec fn chat_file_of(value: JsonView) -> KindView {
    KindView::File {
        source: match value.at("file_id"@).text() {
            Some(file_id) => MediaView::FileId { file_id },
            None => match value.at("file_data"@).text() {
                Some(data) => MediaView::Data { data, media_type: None },
                None => MediaView::Raw { value },
            },
        },
        filename: value.at("filename"@).text(),
        media_type: None,
    }
}

fn parse_file_source(value: &Json) -> (r: LLMContentKind)
    ensures
        r@ == chat_file_of(value@),
{
    let source = if let Some(file_id) = value.text_at("file_id") {
        LLMMediaSource::FileId { file_id: file_id.to_owned() }
    } else if let Some(data) = value.text_at("file_data") {
        LLMMediaSource::Data { data: data.to_owned(), media_type: None }
    } else {
        LLMMediaSource::Raw { value: value.clone() }
    };
    LLMContentKind::File { source, filename: own(value.text_at("filename")), media_type: None }
}

/// The fields of a part that the neutral form names.
pub open spec fn chat_part_keys() -> Seq<Seq<char>> {
    seq!["type"@, "text"@, "image_url"@, "input_audio"@, "file"@, "refusal"@, "annotations"@]
}

/// What kind of part a value is.
pub open spec fn chat_kind_of(part: JsonView) -> KindView {
    let kind = or_text(part.at("type"@).text(), "text"@);
    if kind == "text"@ || kind == "input_text"@ || kind == "output_text"@ {
        KindView::Text {
            text: or_text(part.at("text"@).text(), ""@),
            annotations: openai_annotations(part.at("annotations"@), chat()),
        }
    } else if kind == "image_url"@ {
        let image = part.at("image_url"@);
        KindView::Image {
            source: MediaView::Url {
                url: or_text(either(image.text(), image.at("url"@).text()), ""@),
            },
            detail: image.at("detail"@).text(),
        }
    } else if kind == "input_audio"@ {
        KindView::Audio {
            source: MediaView::Data {
                data: or_text(part.at("input_audio"@).at("data"@).text(), ""@),
                media_type: None,
            },
            format: part.at("input_audio"@).at("format"@).text(),
        }
    } else if kind == "file"@ {
        chat_file_of(part.at("file"@))
    } else if kind == "refusal"@ {
        KindView::Refusal { refusal: or_text(part.at("refusal"@).text(), ""@) }
    } else {
        KindView::Raw { protocol: chat(), value: part }
    }
}

/// The part that a value is.
pub open spec fn chat_part_of(part: JsonView) -> ContentView {
    chat_part(chat_kind_of(part), without(part.fields_or_none(), chat_part_keys()))
}

/// `chat_part_of`.
pub open spec fn chat_part_reader() -> spec_fn(JsonView) -> ContentView {
    |part: JsonView| chat_part_of(part)
}

/// The parts that the content of a message is.
pub open spec fn chat_content_of(value: JsonView) -> Seq<ContentView> {
    match value.text() {
        Some(text) => seq![text_part(text)],
        None => value.list().map_values(chat_part_reader()),
    }
}

/// The first of two texts that is there.
pub(crate) fn either_str<'a>(a: Option<&'a str>, b: Option<&'a str>) -> (r: Option<&'a str>)
    ensures
        opt_str(r) == either(opt_str(a), opt_str(b)),
{
    match a {
        Some(s) => Some(s),
        None => b,
    }
}

fn parse_chat_part(part: &Json) -> (r: LLMContent)
    ensures
        r@ == chat_part_of(part@),
{
    let known = ["type", "text", "image_url", "input_audio", "file", "refusal", "annotations"];
    assert(texts(known@) =~= chat_part_keys());
    let metadata = part.fields_without(&known);
    let name = part.text_at("type").unwrap_or("text");
    let kind = if same(name, "text") || same(name, "input_text") || same(name, "output_text") {
        LLMContentKind::Text {
            text: part.text_at("text").unwrap_or("").to_owned(),
            annotations: annotations_from_openai(
                part.at("annotations"),
                LLMProtocol::OpenAiChat,
            ),
        }
    } else if same(name, "image_url") {
        let image = part.at("image_url");
        LLMContentKind::Image {
            source: LLMMediaSource::Url {
                url: either_str(image.as_text(), image.text_at("url")).unwrap_or("").to_owned(),
            },
            detail: own(image.text_at("detail")),
        }
    } else if same(name, "input_audio") {
        let audio = part.at("input_audio");
        LLMContentKind::Audio {
            source: LLMMediaSource::Data {
                data: audio.text_at("data").unwrap_or("").to_owned(),
                media_type: None,
            },
            format: own(audio.text_at("format")),
        }
    } else if same(name, "file") {
        parse_file_source(part.at("file"))
    } else if same(name, "refusal") {
        LLMContentKind::Refusal { refusal: part.text_at("refusal").unwrap_or("").to_owned() }
    } else {
        LLMContentKind::Raw { protocol: LLMProtocol::OpenAiChat, value: part.clone() }
    };
    LLMContent { source: Some(LLMProtocol::OpenAiChat), kind, metadata }
}

fn parse_chat_content(value: &Json) -> (r: Vec<LLMContent>)
    ensures
        views(r@) == chat_content_of(value@),
{
    if let Some(text) = value.as_text() {
        return crate::model::text_content(text);
    }
    match value.as_array() {
        Some(parts) => map_each(parts.as_slice(), parse_chat_part, Ghost(chat_part_reader())),
        None => {
            let none: Vec<LLMContent> = Vec::new();
            assert(views(none@) =~= chat_content_of(value@));
            none
        },
    }
}

/// The parts with citations added to the first that is a text.
pub open spec fn with_annotations(s: Seq<ContentView>, list: Seq<AnnotationView>) -> Seq<
    ContentView,
>
    decreases s.len(),
{
    if list.len() == 0 || s.len() == 0 {
        s
    } else {
        match s[0].kind {
            KindView::Text { text, annotations } => s.update(
                0,
                ContentView {
                    kind: KindView::Text { text, annotations: annotations + list },
                    ..s[0]
                },
            ),
            _ => seq![s[0]] + with_annotations(s.subrange(1, s.len() as int), list),
        }
    }
}

proof fn with_annotations_at(s: Seq<ContentView>, list: Seq<AnnotationView>, n: int)
    requires
        list.len() > 0,
        0 <= n <= s.len(),
        forall|i: int| 0 <= i < n ==> !((#[trigger] s[i]).kind is Text),
        n < s.len() ==> s[n].kind is Text,
    ensures
        n == s.len() ==> with_annotations(s, list) == s,
        n < s.len() ==> with_annotations(s, list) == s.update(
            n,
            ContentView {
                kind: KindView::Text {
                    text: s[n].kind->Text_text,
                    annotations: s[n].kind->annotations + list,
                },
                ..s[n]
            },
        ),
    decreases n,
{
    if n > 0 {
        let t = s.subrange(1, s.len() as int);
        assert forall|i: int| 0 <= i < n - 1 implies !((#[trigger] t[i]).kind is Text) by {
            assert(t[i] == s[i + 1]);
        }
        with_annotations_at(t, list, n - 1);
        assert(with_annotations(s, list) =~= seq![s[0]] + with_annotations(t, list));
        if n < s.len() {
            assert(with_annotations(s, list) =~= s.update(
                n,
                ContentView {
                    kind: KindView::Text {
                        text: s[n].kind->Text_text,
                        annotations: s[n].kind->annotations + list,
                    },
                    ..s[n]
                },
            ));
        } else {
            assert(with_annotations(s, list) =~= s);
        }
    }
}

fn add_annotations(content: &mut Vec<LLMContent>, list: Vec<LLMAnnotation>)
    ensures
        views(final(content)@) == with_annotations(views(old(content)@), views(list@)),
{
    if list.len() == 0 {
        return;
    }
    let ghost s = views(content@);
    let ghost more = views(list@);
    let mut i: usize = 0;
    while i < content.len()
        invariant
            s == views(content@),
            i <= content@.len(),
            forall|j: int| 0 <= j < i ==> !((#[trigger] s[j]).kind is Text),
            *content == *old(content),
            more == views(list@),
            more.len() > 0,
        decreases content@.len() - i,
    {
        let source = content[i].source;
        match &content[i].kind {
            LLMContentKind::Text { text, annotations } => {
                let mut all = crate::model::copy_annotations(annotations);
                let ghost before = views(all@);
                let mut list = list;
                all.append(&mut list);
                assert(views(all@) =~= before + more);
                let part = LLMContent {
                    source,
                    kind: LLMContentKind::Text { text: text.clone(), annotations: all },
                    metadata: content[i].metadata.clone(),
                };
                content[i] = part;
                proof {
                    with_annotations_at(s, more, i as int);
                    assert(views(content@) =~= with_annotations(s, more));
                }
                return;
            },
            _ => {},
        }
        i = i + 1;
    }
    proof {
        with_annotations_at(s, more, i as int);
    }
}

/// A field that marks a call of the older form.
pub open spec fn marked(key: Seq<char>) -> Fields {
    no_fields().insert(key, JsonView::Bool(true))
}

/// The audio answer that a value is.
pub open spec fn chat_audio_of(audio: JsonView) -> ContentView {
    let format = audio.at("format"@).text();
    chat_part(
        KindView::Audio {
            source: match audio.at("data"@).text() {
                Some(data) => MediaView::Data { data, media_type: format },
                None => match audio.at("id"@).text() {
                    Some(file_id) => MediaView::FileId { file_id },
                    None => MediaView::Raw { value: audio },
                },
            },
            format,
        },
        without(audio.fields_or_none(), seq!["id"@, "data"@, "format"@]).insert(
            "chat_audio_response"@,
            JsonView::Bool(true),
        ),
    )
}

fn parse_audio(audio: &Json) -> (r: LLMContent)
    ensures
        r@ == chat_audio_of(audio@),
{
    let source = if let Some(data) = audio.text_at("data") {
        LLMMediaSource::Data { data: data.to_owned(), media_type: own(audio.text_at("format")) }
    } else if let Some(id) = audio.text_at("id") {
        LLMMediaSource::FileId { file_id: id.to_owned() }
    } else {
        LLMMediaSource::Raw { value: audio.clone() }
    };
    let known = ["id", "data", "format"];
    assert(texts(known@) =~= seq!["id"@, "data"@, "format"@]);
    let mut metadata = audio.fields_without(&known);
    metadata.put_bool("chat_audio_response", true);
    LLMContent {
        source: Some(LLMProtocol::OpenAiChat),
        kind: LLMContentKind::Audio { source, format: own(audio.text_at("format")) },
        metadata,
    }
}

/// The call that a value is.
pub open spec fn chat_call_of(call: JsonView) -> Result<ContentView, ErrorView> {
    let function = call.at("function"@);
    match function.at("name"@).text() {
        None => Err(ErrorView::MissingField("tool_calls.function.name"@)),
        Some(name) => Ok(
            chat_part(
                KindView::ToolCall {
                    id: call.at("id"@).text(),
                    name,
                    arguments: arguments_of(or_text(function.at("arguments"@).text(), "{}"@)),
                },
                without(
                    call.fields_or_none(),
                    seq!["id"@, "type"@, "function"@, "index"@],
                ),
            ),
        ),
    }
}

/// `chat_call_of`.
pub open spec fn chat_call_reader() -> spec_fn(JsonView) -> Result<ContentView, ErrorView> {
    |call: JsonView| chat_call_of(call)
}

fn parse_call(call: &Json) -> (r: Result<LLMContent, AdapterError>)
    ensures
        outcome(r) == chat_call_of(call@),
{
    let function = call.at("function");
    let name = match function.text_at("name") {
        Some(name) => name.to_owned(),
        None => {
            return Err(AdapterError::MissingField("tool_calls.function.name"));
        },
    };
    let known = ["id", "type", "function", "index"];
    assert(texts(known@) =~= seq!["id"@, "type"@, "function"@, "index"@]);
    Ok(
        LLMContent {
            source: Some(LLMProtocol::OpenAiChat),
            kind: LLMContentKind::ToolCall {
                id: own(call.text_at("id")),
                name,
                arguments: parse_arguments(function.text_at("arguments").unwrap_or("{}")),
            },
            metadata: call.fields_without(&known),
        },
    )
}

/// The call of the older form that a value is.
pub open spec fn chat_legacy_call_of(function: JsonView) -> Result<ContentView, ErrorView> {
    match function.at("name"@).text() {
        None => Err(ErrorView::MissingField("function_call.name"@)),
        Some(name) => Ok(
            chat_part(
                KindView::ToolCall {
                    id: None,
                    name,
                    arguments: arguments_of(or_text(function.at("arguments"@).text(), "{}"@)),
                },
                marked("legacy_function_call"@),
            ),
        ),
    }
}

fn parse_legacy_call(function: &Json) -> (r: Result<LLMContent, AdapterError>)
    ensures
        outcome(r) == chat_legacy_call_of(function@),
{
    let name = match function.text_at("name") {
        Some(name) => name.to_owned(),
        None => {
            return Err(AdapterError::MissingField("function_call.name"));
        },
    };
    let mut metadata = JsonMap::new();
    metadata.put_bool("legacy_function_call", true);
    Ok(
        LLMContent {
            source: Some(LLMProtocol::OpenAiChat),
            kind: LLMContentKind::ToolCall {
                id: None,
                name,
                arguments: parse_arguments(function.text_at("arguments").unwrap_or("{}")),
            },
            metadata,
        },
    )
}

/// The value where it is an object.
pub open spec fn only_object(o: Option<JsonView>) -> Option<JsonView> {
    match o {
        Some(v) => if v is Object {
            Some(v)
        } else {
            None
        },
        None => None,
    }
}

/// The field `key`, where it is an object.
fn object_at<'a>(value: &'a Json, key: &str) -> (r: Option<&'a Json>)
    ensures
        opt_ref(r) == only_object(value@.field(key@)),
{
    match value.get(key) {
        Some(v) => if v.is_object() {
            Some(v)
        } else {
            None
        },
        None => None,
    }
}

/// The parts of a message up to its calls.
pub open spec fn chat_visible_of(value: JsonView) -> Seq<ContentView> {
    let parts = with_annotations(
        chat_content_of(value.at("content"@)),
        openai_annotations(value.at("annotations"@), chat()),
    );
    let parts = match either(
        value.at("reasoning_content"@).text(),
        value.at("reasoning"@).text(),
    ) {
        Some(reasoning) => parts.push(
            chat_part(
                KindView::Reasoning {
                    text: Some(reasoning),
                    summary: Seq::empty(),
                    signature: value.at("reasoning_signature"@).text(),
                    encrypted_content: None,
                },
                no_fields(),
            ),
        ),
        None => parts,
    };
    let parts = match value.at("refusal"@).text() {
        Some(refusal) => parts.push(chat_part(KindView::Refusal { refusal }, no_fields())),
        None => parts,
    };
    match only_object(value.field("audio"@)) {
        Some(audio) => parts.push(chat_audio_of(audio)),
        None => parts,
    }
}

fn parse_visible(value: &Json) -> (r: Vec<LLMContent>)
    ensures
        views(r@) == chat_visible_of(value@),
{
    let mut content = parse_chat_content(value.at("content"));
    add_annotations(
        &mut content,
        annotations_from_openai(value.at("annotations"), LLMProtocol::OpenAiChat),
    );
    let ghost parts = views(content@);
    if let Some(reasoning) = either_str(
        value.text_at("reasoning_content"),
        value.text_at("reasoning"),
    ) {
        let summary: Vec<String> = Vec::new();
        assert(strings(summary@) =~= Seq::empty());
        let part = LLMContent {
            source: Some(LLMProtocol::OpenAiChat),
            kind: LLMContentKind::Reasoning {
                text: Some(reasoning.to_owned()),
                summary,
                signature: own(value.text_at("reasoning_signature")),
                encrypted_content: None,
            },
            metadata: JsonMap::new(),
        };
        content.push(part);
        assert(views(content@) =~= parts.push(part@));
    }
    let ghost parts = views(content@);
    if let Some(refusal) = value.text_at("refusal") {
        let part = LLMContent {
            source: Some(LLMProtocol::OpenAiChat),
            kind: LLMContentKind::Refusal { refusal: refusal.to_owned() },
            metadata: JsonMap::new(),
        };
        content.push(part);
        assert(views(content@) =~= parts.push(part@));
    }
    let ghost parts = views(content@);
    if let Some(audio) = object_at(value, "audio") {
        let part = parse_audio(audio);
        content.push(part);
        assert(views(content@) =~= parts.push(part@));
    }
    content
}

/// The parts of a message.
pub open spec fn chat_parts_of(value: JsonView) -> Result<Seq<ContentView>, ErrorView> {
    match try_map(value.at("tool_calls"@).list(), chat_call_reader()) {
        Err(e) => Err(e),
        Ok(calls) => match only_object(value.field("function_call"@)) {
            None => Ok(chat_visible_of(value) + calls),
            Some(function) => match chat_legacy_call_of(function) {
                Err(e) => Err(e),
                Ok(call) => Ok((chat_visible_of(value) + calls).push(call)),
            },
        },
    }
}

fn parse_parts(value: &Json) -> (r: Result<Vec<LLMContent>, AdapterError>)
    ensures
        outcomes(r) == chat_parts_of(value@),
{
    let mut content = parse_visible(value);
    let ghost parts = views(content@);
    match value.array_at("tool_calls") {
        Some(list) => {
            match try_each(list.as_slice(), parse_call, Ghost(chat_call_reader())) {
                Ok(mut calls) => {
                    let ghost more = views(calls@);
                    content.append(&mut calls);
                    assert(views(content@) =~= parts + more);
                },
                Err(e) => {
                    return Err(e);
                },
            }
        },
        None => {
            assert(parts + Seq::<ContentView>::empty() =~= parts);
        },
    }
    let ghost parts = views(content@);
    if let Some(function) = object_at(value, "function_call") {
        match parse_legacy_call(function) {
            Ok(call) => {
                content.push(call);
                assert(views(content@) =~= parts.push(call@));
            },
            Err(e) => {
                return Err(e);
            },
        }
    }
    Ok(content)
}

/// The fields of a message that the neutral form names.
pub open spec fn chat_message_keys() -> Seq<Seq<char>> {
    seq![
        "role"@,
        "content"@,
        "name"@,
        "tool_call_id"@,
        "tool_calls"@,
        "function_call"@,
        "refusal"@,
        "reasoning"@,
        "reasoning_content"@,
        "reasoning_signature"@,
        "annotations"@,
        "audio"@,
    ]
}

/// The content of a message from a tool.
pub open spec fn chat_result_of(value: JsonView, parts: Seq<ContentView>) -> Result<
    ContentView,
    ErrorView,
> {
    match either(value.at("tool_call_id"@).text(), value.at("name"@).text()) {
        None => Err(ErrorView::MissingField("tool_call_id"@)),
        Some(tool_call_id) => Ok(
            chat_part(
                KindView::ToolResult { tool_call_id, content: parts, is_error: None },
                if value.at("tool_call_id"@) == JsonView::Null {
                    marked("legacy_function_result"@)
                } else {
                    no_fields()
                },
            ),
        ),
    }
}

/// The message that a value is.
pub open spec fn chat_message_of(value: JsonView) -> Result<MessageView, ErrorView> {
    match value.at("role"@).text() {
        None => Err(ErrorView::MissingField("role"@)),
        Some(name) => match chat_role_of(name) {
            Err(e) => Err(e),
            Ok(role) => match chat_parts_of(value) {
                Err(e) => Err(e),
                Ok(parts) => match if role == LLMRole::Tool {
                    match chat_result_of(value, parts) {
                        Err(e) => Err::<Seq<ContentView>, ErrorView>(e),
                        Ok(result) => Ok(seq![result]),
                    }
                } else {
                    Ok(parts)
                } {
                    Err(e) => Err(e),
                    Ok(content) => Ok(
                        MessageView {
                            source: Some(chat()),
                            role,
                            content,
                            name: value.at("name"@).text(),
                            metadata: without(value.fields_or_none(), chat_message_keys()),
                        },
                    ),
                },
            },
        },
    }
}

/// `chat_message_of`.
pub open spec fn chat_message_reader() -> spec_fn(JsonView) -> Result<MessageView, ErrorView> {
    |value: JsonView| chat_message_of(value)
}

fn parse_chat_message(value: &Json) -> (r: Result<LLMMessage, AdapterError>)
    ensures
        outcome(r) == chat_message_of(value@),
{
    let role = match value.text_at("role") {
        Some(name) => match parse_role(name) {
            Ok(role) => role,
            Err(e) => {
                return Err(e);
            },
        },
        None => {
            return Err(AdapterError::MissingField("role"));
        },
    };
    let mut content = match parse_parts(value) {
        Ok(content) => content,
        Err(e) => {
            return Err(e);
        },
    };
    if role == LLMRole::Tool {
        let tool_call_id = match either_str(value.text_at("tool_call_id"), value.text_at("name")) {
            Some(id) => id.to_owned(),
            None => {
                return Err(AdapterError::MissingField("tool_call_id"));
            },
        };
        let mut metadata = JsonMap::new();
        if value.at("tool_call_id").is_null() {
            metadata.put_bool("legacy_function_result", true);
        }
        let ghost parts = views(content@);
        proof {
            content_views_are_views(content@);
        }
        let kind = LLMContentKind::ToolResult { tool_call_id, content, is_error: None };
        assert(kind@ == (KindView::ToolResult {
            tool_call_id: tool_call_id@,
            content: parts,
            is_error: None,
        }));
        let result = LLMContent { source: Some(LLMProtocol::OpenAiChat), kind, metadata };
        content = Vec::new();
        content.push(result);
        assert(views(content@) =~= seq![result@]);
    }
    let known = [
        "role",
        "content",
        "name",
        "tool_call_id",
        "tool_calls",
        "function_call",
        "refusal",
        "reasoning",
        "reasoning_content",
        "reasoning_signature",
        "annotations",
        "audio",
    ];
    assert(texts(known@) =~= chat_message_keys());
    Ok(
        LLMMessage {
            source: Some(LLMProtocol::OpenAiChat),
            role,
            content,
            name: own(value.text_at("name")),
            metadata: value.fields_without(&known),
        },
    )
}

/// The choice of tools that a value is.
pub open spec fn chat_choice_of(value: Option<JsonView>) -> Option<ToolChoiceView> {
    match value {
        None => None,
        Some(v) => if v.text() == Some("auto"@) {
            Some(ToolChoiceView::Auto)
        } else if v.text() == Some("none"@) {
            Some(ToolChoiceView::NoTools)
        } else if v.text() == Some("required"@) {
            Some(ToolChoiceView::Required)
        } else if v.text() is None && v.at("type"@).text() == Some("function"@) {
            match v.at("function"@).at("name"@).text() {
                Some(name) => Some(ToolChoiceView::Function { name }),
                None => None,
            }
        } else {
            Some(ToolChoiceView::Raw { value: v })
        },
    }
}

fn parse_chat_tool_choice(value: Option<&Json>) -> (r: Option<LLMToolChoice>)
    ensures
        opt_choice(r) == chat_choice_of(opt_ref(value)),
{
    let value = match value {
        Some(value) => value,
        None => {
            return None;
        },
    };
    match value.as_text() {
        Some(name) => if same(name, "auto") {
            Some(LLMToolChoice::Auto)
        } else if same(name, "none") {
            Some(LLMToolChoice::NoTools)
        } else if same(name, "required") {
            Some(LLMToolChoice::Required)
        } else {
            Some(LLMToolChoice::Raw { value: value.clone() })
        },
        None => if equals(value.text_at("type"), "function") {
            match value.at("function").text_at("name") {
                Some(name) => Some(LLMToolChoice::Function { name: name.to_owned() }),
                None => None,
            }
        } else {
            Some(LLMToolChoice::Raw { value: value.clone() })
        },
    }
}

/// The value of a choice of tools.
pub open spec fn chat_choice_value(choice: ToolChoiceView) -> JsonView {
    match choice {
        ToolChoiceView::Auto => jtext("auto"@),
        ToolChoiceView::NoTools => jtext("none"@),
        ToolChoiceView::Required => jtext("required"@),
        ToolChoiceView::Function { name } => object2(
            "type"@,
            jtext("function"@),
            "function"@,
            object1("name"@, jtext(name)),
        ),
        ToolChoiceView::Raw { value } => value,
    }
}

fn chat_tool_choice_to_value(choice: &LLMToolChoice) -> (r: Json)
    ensures
        r@ == chat_choice_value(choice@),
{
    match choice {
        LLMToolChoice::Auto => Json::text("auto"),
        LLMToolChoice::NoTools => Json::text("none"),
        LLMToolChoice::Required => Json::text("required"),
        LLMToolChoice::Function { name } => json2(
            "type",
            Json::text("function"),
            "function",
            json1("name", Json::text(name.as_str())),
        ),
        LLMToolChoice::Raw { value } => value.clone(),
    }
}

/// The neutral form of a response format.
pub open spec fn chat_format_of(value: JsonView) -> JsonView {
    if value.at("type"@).text() != Some("json_schema"@) {
        value
    } else {
        JsonView::Object(
            value.at("json_schema"@).fields_or_none().insert("type"@, jtext("json_schema"@)),
        )
    }
}

fn normalize_chat_response_format(value: &Json) -> (r: Json)
    ensures
        r@ == chat_format_of(value@),
{
    if !equals(value.text_at("type"), "json_schema") {
        return value.clone();
    }
    let mut format = value.at("json_schema").fields();
    format.put_text("type", "json_schema");
    Json::object(format)
}

/// The value of a response format.
pub open spec fn chat_format_value(value: JsonView) -> JsonView {
    if value.at("type"@).text() != Some("json_schema"@) {
        value
    } else {
        object2(
            "type"@,
            jtext("json_schema"@),
            "json_schema"@,
            JsonView::Object(value.fields_or_none().remove("type"@)),
        )
    }
}

fn chat_response_format_to_value(value: &Json) -> (r: Json)
    ensures
        r@ == chat_format_value(value@),
{
    if !equals(value.text_at("type"), "json_schema") {
        return value.clone();
    }
    let mut schema = value.fields();
    schema.remove("type");
    json2("type", Json::text("json_schema"), "json_schema", Json::object(schema))
}

/// What the request says of reasoning.
pub open spec fn chat_reasoning_of(value: JsonView) -> Option<JsonView> {
    match value.field("reasoning"@) {
        Some(reasoning) => Some(reasoning),
        None => match value.field("reasoning_effort"@) {
            Some(effort) => Some(object1("effort"@, effort)),
            None => None,
        },
    }
}

/// The tools of a request, with the web search that its options ask for.
pub open spec fn chat_tools_of(value: JsonView) -> Result<Seq<ToolView>, ErrorView> {
    match tools_of(value.at("tools"@), ToolDialect::OpenAiChat) {
        Err(e) => Err(e),
        Ok(tools) => match only_object(value.field("web_search_options"@)) {
            None => Ok(tools),
            Some(options) => Ok(
                tools.push(
                    ToolView {
                        source: chat(),
                        kind: ToolKindView::Builtin {
                            protocol: chat(),
                            name: "web_search"@,
                            config: JsonView::Object(
                                options.fields_or_none().insert("type"@, jtext("web_search"@)),
                            ),
                        },
                        metadata: no_fields(),
                    },
                ),
            ),
        },
    }
}

fn parse_chat_tools(value: &Json) -> (r: Result<Vec<LLMTool>, AdapterError>)
    ensures
        outcomes(r) == chat_tools_of(value@),
{
    let mut tools = match tools_from_openai_chat(value.at("tools")) {
        Ok(tools) => tools,
        Err(e) => {
            return Err(e);
        },
    };
    let ghost before = views(tools@);
    if let Some(options) = object_at(value, "web_search_options") {
        let mut config = options.fields();
        config.put_text("type", "web_search");
        let tool = LLMTool {
            source: LLMProtocol::OpenAiChat,
            kind: LLMToolKind::Builtin {
                protocol: LLMProtocol::OpenAiChat,
                name: "web_search".to_owned(),
                config: Json::object(config),
            },
            metadata: JsonMap::new(),
        };
        tools.push(tool);
        assert(views(tools@) =~= before.push(tool@));
    }
    Ok(tools)
}

/// The fields of a request that the neutral form names.
pub open spec fn chat_request_keys() -> Seq<Seq<char>> {
    seq![
        "model"@,
        "messages"@,
        "temperature"@,
        "max_completion_tokens"@,
        "max_tokens"@,
        "top_p"@,
        "stop"@,
        "stream"@,
        "tools"@,
        "tool_choice"@,
        "parallel_tool_calls"@,
        "response_format"@,
        "reasoning"@,
        "reasoning_effort"@,
        "metadata"@,
        "web_search_options"@,
    ]
}

/// The truth value, or false.
pub open spec fn or_false(o: Option<bool>) -> bool {
    match o {
        Some(b) => b,
        None => false,
    }
}

/// The request that a value is.
pub open spec fn chat_request_of(value: JsonView) -> Result<RequestView, ErrorView> {
    match value.at("model"@).text() {
        None => Err(ErrorView::MissingField("model"@)),
        Some(model) => match value.at("messages"@).items() {
            None => Err(ErrorView::MissingField("messages"@)),
            Some(list) => match try_map(list, chat_message_reader()) {
                Err(e) => Err(e),
                Ok(messages) => match chat_tools_of(value) {
                    Err(e) => Err(e),
                    Ok(tools) => Ok(
                        RequestView {
                            source: chat(),
                            model,
                            messages,
                            temperature: double_of(value.at("temperature"@)),
                            max_tokens: super::annotations::either_int(
                                value.at("max_completion_tokens"@).uint(),
                                value.at("max_tokens"@).uint(),
                            ),
                            top_p: double_of(value.at("top_p"@)),
                            stop: value.field("stop"@),
                            stream: or_false(value.at("stream"@).truth()),
                            tools,
                            tool_choice: chat_choice_of(value.field("tool_choice"@)),
                            parallel_tool_calls: value.at("parallel_tool_calls"@).truth(),
                            response_format: match value.field("response_format"@) {
                                Some(format) => Some(chat_format_of(format)),
                                None => None,
                            },
                            reasoning: chat_reasoning_of(value),
                            metadata: value.at("metadata"@).fields_or_none(),
                            extra: without(value.fields_or_none(), chat_request_keys()),
                        },
                    ),
                },
            },
        },
    }
}

/// The request that a value is.
pub fn read_request(value: &Json) -> (r: Result<LLMRequest, AdapterError>)
    ensures
        outcome(r) == chat_request_of(value@),
{
    let model = match value.text_at("model") {
        Some(model) => model.to_owned(),
        None => {
            return Err(AdapterError::MissingField("model"));
        },
    };
    let messages = match value.array_at("messages") {
        Some(list) => {
            match try_each(list.as_slice(), parse_chat_message, Ghost(chat_message_reader())) {
                Ok(messages) => messages,
                Err(e) => {
                    return Err(e);
                },
            }
        },
        None => {
            return Err(AdapterError::MissingField("messages"));
        },
    };
    let reasoning = match value.get("reasoning") {
        Some(reasoning) => Some(reasoning.clone()),
        None => match value.get("reasoning_effort") {
            Some(effort) => Some(json1("effort", effort.clone())),
            None => None,
        },
    };
    let tools = match parse_chat_tools(value) {
        Ok(tools) => tools,
        Err(e) => {
            return Err(e);
        },
    };
    let max_tokens = match value.uint_at("max_completion_tokens") {
        Some(n) => Some(n),
        None => value.uint_at("max_tokens"),
    };
    let response_format = match value.get("response_format") {
        Some(format) => Some(normalize_chat_response_format(format)),
        None => None,
    };
    let known = [
        "model",
        "messages",
        "temperature",
        "max_completion_tokens",
        "max_tokens",
        "top_p",
        "stop",
        "stream",
        "tools",
        "tool_choice",
        "parallel_tool_calls",
        "response_format",
        "reasoning",
        "reasoning_effort",
        "metadata",
        "web_search_options",
    ];
    assert(texts(known@) =~= chat_request_keys());
    Ok(
        LLMRequest {
            source: LLMProtocol::OpenAiChat,
            model,
            messages,
            temperature: double(value.at("temperature")),
            max_tokens,
            top_p: double(value.at("top_p")),
            stop: copy_opt(value.get("stop")),
            stream: value.bool_at("stream").unwrap_or(false),
            tools,
            tool_choice: parse_chat_tool_choice(value.get("tool_choice")),
            parallel_tool_calls: value.bool_at("parallel_tool_calls"),
            response_format,
            reasoning,
            metadata: value.at("metadata").fields(),
            extra: value.fields_without(&known),
        },
    )
}

/// The value of a part that is not a call, a result, a thought or a refusal.
pub open spec fn chat_content_value(c: ContentView) -> Result<JsonView, ErrorView> {
    let base = content_fields(c, chat());
    match c.kind {
        KindView::Text { text, .. } => Ok(
            JsonView::Object(base.insert("type"@, jtext("text"@)).insert("text"@, jtext(text))),
        ),
        KindView::Image { source, detail } => Ok(
            JsonView::Object(
                base.insert("type"@, jtext("image_url"@)).insert(
                    "image_url"@,
                    JsonView::Object(
                        with_text(
                            no_fields().insert("url"@, jtext(media_url(source))),
                            "detail"@,
                            detail,
                        ),
                    ),
                ),
            ),
        ),
        KindView::Audio { source, format } => match source {
            MediaView::Data { data, .. } => Ok(
                JsonView::Object(
                    base.insert("type"@, jtext("input_audio"@)).insert(
                        "input_audio"@,
                        object2("data"@, jtext(data), "format"@, jopt(format)),
                    ),
                ),
            ),
            _ => Ok(
                object2(
                    "type"@,
                    jtext("input_audio"@),
                    "input_audio"@,
                    object2("data"@, jtext(media_url(source)), "format"@, jopt(format)),
                ),
            ),
        },
        KindView::File { source, filename, .. } => Ok(
            JsonView::Object(
                base.insert("type"@, jtext("file"@)).insert(
                    "file"@,
                    JsonView::Object(
                        with_text(
                            match source {
                                MediaView::FileId { file_id } => no_fields().insert(
                                    "file_id"@,
                                    jtext(file_id),
                                ),
                                MediaView::Data { data, .. } => no_fields().insert(
                                    "file_data"@,
                                    jtext(data),
                                ),
                                _ => no_fields().insert("file_data"@, jtext(media_url(source))),
                            },
                            "filename"@,
                            filename,
                        ),
                    ),
                ),
            ),
        ),
        KindView::Raw { protocol, value } => if protocol == chat() {
            Ok(value)
        } else {
            Err(
                cannot(
                    "OpenAI Chat cannot represent "@,
                    protocol,
                    " content block `"@,
                    raw_type(value),
                ),
            )
        },
        _ => Err(ErrorView::InvalidField("chat.content"@)),
    }
}

/// `chat_content_value`.
pub open spec fn chat_content_writer() -> spec_fn(ContentView) -> Result<JsonView, ErrorView> {
    |c: ContentView| chat_content_value(c)
}

fn chat_content_to_value(content: &LLMContent) -> (r: Result<Json, AdapterError>)
    ensures
        outcome(r) == chat_content_value(content@),
{
    let mut value = content_extensions_for(content, LLMProtocol::OpenAiChat);
    match &content.kind {
        LLMContentKind::Text { text, .. } => {
            value.put_text("type", "text");
            value.put_text("text", text.as_str());
        },
        LLMContentKind::Image { source, detail } => {
            value.put_text("type", "image_url");
            let mut image = JsonMap::new();
            image.put_text("url", media_source_to_url(source).as_str());
            image.put_some_text("detail", borrow(detail));
            value.put_object("image_url", image);
        },
        LLMContentKind::Audio { source, format } => {
            match source {
                LLMMediaSource::Data { data, .. } => {
                    value.put_text("type", "input_audio");
                    value.put(
                        "input_audio",
                        json2(
                            "data",
                            Json::text(data.as_str()),
                            "format",
                            Json::opt_text(borrow(format)),
                        ),
                    );
                },
                _ => {
                    let audio = json2(
                        "data",
                        Json::text(media_source_to_url(source).as_str()),
                        "format",
                        Json::opt_text(borrow(format)),
                    );
                    return Ok(json2("type", Json::text("input_audio"), "input_audio", audio));
                },
            }
        },
        LLMContentKind::File { source, filename, .. } => {
            value.put_text("type", "file");
            let mut file = JsonMap::new();
            match source {
                LLMMediaSource::FileId { file_id } => {
                    file.put_text("file_id", file_id.as_str());
                },
                LLMMediaSource::Data { data, .. } => {
                    file.put_text("file_data", data.as_str());
                },
                _ => {
                    file.put_text("file_data", media_source_to_url(source).as_str());
                },
            }
            file.put_some_text("filename", borrow(filename));
            value.put_object("file", file);
        },
        LLMContentKind::Raw { protocol, value: raw } => {
            if *protocol == LLMProtocol::OpenAiChat {
                return Ok(raw.clone());
            }
            return Err(
                cannot_represent(
                    "OpenAI Chat cannot represent ",
                    *protocol,
                    " content block `",
                    raw.text_at("type").unwrap_or("unknown"),
                ),
            );
        },
        _ => {
            return Err(AdapterError::InvalidField("chat.content"));
        },
    }
    Ok(Json::object(value))
}

/// The content of a message: one text where every part is one, else a list of parts.
pub open spec fn chat_visible_value(s: Seq<ContentView>) -> Result<JsonView, ErrorView> {
    if all_text(s) {
        Ok(jtext(texts_joined(s)))
    } else {
        match try_map(s, chat_content_writer()) {
            Ok(list) => Ok(JsonView::Array(list)),
            Err(e) => Err(e),
        }
    }
}

fn chat_visible_content(content: &[LLMContent]) -> (r: Result<Json, AdapterError>)
    ensures
        outcome(r) == chat_visible_value(views(content@)),
{
    if is_all_text(content) {
        return Ok(Json::text(joined_text(content).as_str()));
    }
    match try_each(content, chat_content_to_value, Ghost(chat_content_writer())) {
        Ok(list) => Ok(Json::array(list)),
        Err(e) => Err(e),
    }
}

/// Whether a part is an audio answer.
pub open spec fn is_audio_answer(c: ContentView) -> bool {
    c.kind is Audio && lookup(c.metadata, "chat_audio_response"@) == Some(JsonView::Bool(true))
}

/// Whether a part belongs to the content of a message.
pub open spec fn is_visible(c: ContentView) -> bool {
    match c.kind {
        KindView::Audio { .. } => !is_audio_answer(c),
        KindView::Text { .. } => true,
        KindView::Image { .. } => true,
        KindView::File { .. } => true,
        KindView::Raw { .. } => true,
        _ => false,
    }
}

/// The parts that belong to the content of a message.
pub open spec fn visible_parts(s: Seq<ContentView>) -> Seq<ContentView>
    decreases s.len(),
{
    if s.len() == 0 {
        Seq::empty()
    } else if is_visible(s.last()) {
        visible_parts(s.drop_last()).push(s.last())
    } else {
        visible_parts(s.drop_last())
    }
}

/// Whether the field is there and is true.
fn is_true(map: &JsonMap, key: &str) -> (r: bool)
    ensures
        r == (lookup(map@, key@) == Some(JsonView::Bool(true))),
{
    match map.get(key) {
        Some(v) => match v.as_bool() {
            Some(b) => b,
            None => false,
        },
        None => false,
    }
}

fn visible_content(content: &Vec<LLMContent>) -> (r: Vec<LLMContent>)
    ensures
        views(r@) == visible_parts(views(content@)),
{
    let ghost all = views(content@);
    let mut out: Vec<LLMContent> = Vec::new();
    let mut i: usize = 0;
    assert(all.take(0) =~= Seq::empty());
    assert(views(out@) =~= Seq::empty());
    while i < content.len()
        invariant
            all == views(content@),
            i <= content@.len(),
            views(out@) == visible_parts(all.take(i as int)),
        decreases content@.len() - i,
    {
        assert(all.take(i + 1).drop_last() =~= all.take(i as int));
        assert(all.take(i + 1).last() == content@[i as int]@);
        let ghost before = views(out@);
        let keep = match &content[i].kind {
            LLMContentKind::Audio { .. } => !is_true(&content[i].metadata, "chat_audio_response"),
            LLMContentKind::Text { .. } => true,
            LLMContentKind::Image { .. } => true,
            LLMContentKind::File { .. } => true,
            LLMContentKind::Raw { .. } => true,
            _ => false,
        };
        if keep {
            out.push(content[i].clone());
            assert(views(out@) =~= before.push(content@[i as int]@));
        }
        i = i + 1;
    }
    assert(all.take(i as int) =~= all);
    out
}

/// The value of a call.
pub open spec fn chat_call_value(
    id: Option<Seq<char>>,
    name: Seq<char>,
    arguments: JsonView,
    ids: IdsView,
) -> JsonView {
    object3(
        "id"@,
        jtext(or_text(id, "call_"@ + ids.call)),
        "type"@,
        jtext("function"@),
        "function"@,
        object2("name"@, jtext(name), "arguments"@, jtext(arguments_text(arguments))),
    )
}

/// The values of the calls among parts.
pub open spec fn chat_call_values(s: Seq<ContentView>, ids: IdsView) -> Seq<JsonView>
    decreases s.len(),
{
    if s.len() == 0 {
        Seq::empty()
    } else {
        let done = chat_call_values(s.drop_last(), ids);
        match s.last().kind {
            KindView::ToolCall { id, name, arguments } => done.push(
                chat_call_value(id, name, arguments, ids.at(s.len() - 1)),
            ),
            _ => done,
        }
    }
}

/// The text, or `prefix` followed by `fresh`.
pub(crate) fn or_fresh(id: &Option<String>, prefix: &str, fresh: &str) -> (r: String)
    ensures
        r@ == or_text(opt_text(*id), prefix@ + fresh@),
{
    match id {
        Some(id) => id.clone(),
        None => cat(prefix, fresh),
    }
}

fn tool_call_values(content: &Vec<LLMContent>, ids: Option<&FreshIds>) -> (r: Vec<Json>)
    ensures
        views(r@) == chat_call_values(views(content@), opt_ids(ids)),
{
    let ghost all = views(content@);
    let ghost named = opt_ids(ids);
    let mut out: Vec<Json> = Vec::new();
    let mut i: usize = 0;
    assert(all.take(0) =~= Seq::empty());
    assert(views(out@) =~= Seq::empty());
    while i < content.len()
        invariant
            all == views(content@),
            named == opt_ids(ids),
            i <= content@.len(),
            views(out@) == chat_call_values(all.take(i as int), named),
        decreases content@.len() - i,
    {
        assert(all.take(i + 1).drop_last() =~= all.take(i as int));
        assert(all.take(i + 1).last() == content@[i as int]@);
        let ghost before = views(out@);
        match &content[i].kind {
            LLMContentKind::ToolCall { id, name, arguments } => {
                let id = or_fresh(id, "call_", call_id(ids_at(ids, i)));
                let value = json3(
                    "id",
                    Json::text(id.as_str()),
                    "type",
                    Json::text("function"),
                    "function",
                    json2(
                        "name",
                        Json::text(name.as_str()),
                        "arguments",
                        Json::text(arguments_to_string(arguments).as_str()),
                    ),
                );
                out.push(value);
                assert(views(out@) =~= before.push(value@));
            },
            _ => {},
        }
        i = i + 1;
    }
    assert(all.take(i as int) =~= all);
    out
}

/// What a part says as a thought.
pub open spec fn reasoning_of(c: ContentView) -> Option<Seq<char>> {
    match c.kind {
        KindView::Reasoning { text, summary, .. } => match text {
            Some(text) => Some(text),
            None => if summary.len() > 0 {
                Some(joined(summary, "\n"@))
            } else {
                None
            },
        },
        _ => None,
    }
}

/// The thoughts among parts, one after the other.
pub open spec fn reasoning_text(s: Seq<ContentView>) -> Seq<char>
    decreases s.len(),
{
    if s.len() == 0 {
        Seq::empty()
    } else {
        reasoning_text(s.drop_last()) + or_text(reasoning_of(s.last()), Seq::empty())
    }
}

/// The refusals among parts, one after the other.
pub open spec fn refusal_text(s: Seq<ContentView>) -> Seq<char>
    decreases s.len(),
{
    if s.len() == 0 {
        Seq::empty()
    } else {
        match s.last().kind {
            KindView::Refusal { refusal } => refusal_text(s.drop_last()) + refusal,
            _ => refusal_text(s.drop_last()),
        }
    }
}

/// The citations among parts.
pub open spec fn all_annotations(s: Seq<ContentView>) -> Seq<AnnotationView>
    decreases s.len(),
{
    if s.len() == 0 {
        Seq::empty()
    } else {
        match s.last().kind {
            KindView::Text { annotations, .. } => all_annotations(s.drop_last()) + annotations,
            _ => all_annotations(s.drop_last()),
        }
    }
}

/// The thoughts, the refusals and the citations among parts.
fn spoken(content: &Vec<LLMContent>) -> (r: (String, String, Vec<LLMAnnotation>))
    ensures
        r.0@ == reasoning_text(views(content@)),
        r.1@ == refusal_text(views(content@)),
        views(r.2@) == all_annotations(views(content@)),
{
    let ghost all = views(content@);
    let mut reasoning = String::new();
    let mut refusals = String::new();
    let mut cited: Vec<LLMAnnotation> = Vec::new();
    let mut i: usize = 0;
    assert(all.take(0) =~= Seq::empty());
    assert(views(cited@) =~= Seq::empty());
    while i < content.len()
        invariant
            all == views(content@),
            i <= content@.len(),
            reasoning@ == reasoning_text(all.take(i as int)),
            refusals@ == refusal_text(all.take(i as int)),
            views(cited@) == all_annotations(all.take(i as int)),
        decreases content@.len() - i,
    {
        assert(all.take(i + 1).drop_last() =~= all.take(i as int));
        assert(all.take(i + 1).last() == content@[i as int]@);
        let ghost before = reasoning@;
        assert(before + Seq::<char>::empty() =~= before);
        let ghost cited_before = views(cited@);
        match &content[i].kind {
            LLMContentKind::Reasoning { text, summary, .. } => {
                if let Some(text) = text {
                    reasoning.push_str(text.as_str());
                } else if summary.len() > 0 {
                    let lines = crate::text::join(summary, "\n");
                    reasoning.push_str(lines.as_str());
                }
            },
            LLMContentKind::Refusal { refusal } => {
                refusals.push_str(refusal.as_str());
            },
            LLMContentKind::Text { annotations, .. } => {
                let mut more = crate::model::copy_annotations(annotations);
                let ghost added = views(more@);
                cited.append(&mut more);
                assert(views(cited@) =~= cited_before + added);
            },
            _ => {},
        }
        i = i + 1;
    }
    assert(all.take(i as int) =~= all);
    (reasoning, refusals, cited)
}

/// The first audio answer among parts.
pub open spec fn first_audio(s: Seq<ContentView>) -> Option<ContentView>
    decreases s.len(),
{
    if s.len() == 0 {
        None
    } else {
        match first_audio(s.drop_last()) {
            Some(c) => Some(c),
            None => if is_audio_answer(s.last()) {
                Some(s.last())
            } else {
                None
            },
        }
    }
}

proof fn first_audio_stays(s: Seq<ContentView>, n: int)
    requires
        0 <= n <= s.len(),
        first_audio(s.take(n)) is Some,
    ensures
        first_audio(s) == first_audio(s.take(n)),
    decreases s.len() - n,
{
    if n < s.len() {
        assert(s.take(n + 1).drop_last() =~= s.take(n));
        first_audio_stays(s, n + 1);
    } else {
        assert(s.take(n) =~= s);
    }
}

/// The value of an audio answer.
pub open spec fn chat_audio_value(c: ContentView) -> JsonView
    recommends
        c.kind is Audio,
{
    let base = content_fields(c, chat()).remove("chat_audio_response"@);
    JsonView::Object(
        with_text(
            match c.kind->Audio_source {
                MediaView::FileId { file_id } => base.insert("id"@, jtext(file_id)),
                MediaView::Data { data, .. } => base.insert("data"@, jtext(data)),
                source => base.insert("data"@, jtext(media_url(source))),
            },
            "format"@,
            c.kind->format,
        ),
    )
}

/// The value of the first audio answer among parts.
fn audio_value(content: &Vec<LLMContent>) -> (r: Option<Json>)
    ensures
        opt_view(r) == (match first_audio(views(content@)) {
            Some(c) => Some(chat_audio_value(c)),
            None => None,
        }),
{
    let ghost all = views(content@);
    let mut i: usize = 0;
    assert(all.take(0) =~= Seq::empty());
    while i < content.len()
        invariant
            all == views(content@),
            i <= content@.len(),
            first_audio(all.take(i as int)) is None,
        decreases content@.len() - i,
    {
        assert(all.take(i + 1).drop_last() =~= all.take(i as int));
        assert(all.take(i + 1).last() == content@[i as int]@);
        let answer = is_true(&content[i].metadata, "chat_audio_response");
        match &content[i].kind {
            LLMContentKind::Audio { source, format } => {
                if answer {
                    proof {
                        first_audio_stays(all, i + 1);
                    }
                    let mut audio = content_extensions_for(&content[i], LLMProtocol::OpenAiChat);
                    audio.remove("chat_audio_response");
                    match source {
                        LLMMediaSource::FileId { file_id } => {
                            audio.put_text("id", file_id.as_str());
                        },
                        LLMMediaSource::Data { data, .. } => {
                            audio.put_text("data", data.as_str());
                        },
                        _ => {
                            audio.put_text("data", media_source_to_url(source).as_str());
                        },
                    }
                    audio.put_some_text("format", borrow(format));
                    return Some(Json::object(audio));
                }
            },
            _ => {},
        }
        i = i + 1;
    }
    assert(all.take(i as int) =~= all);
    None
}

/// The first result of a call among parts.
pub open spec fn first_result(s: Seq<ContentView>) -> Option<(Seq<char>, Seq<ContentView>)>
    decreases s.len(),
{
    if s.len() == 0 {
        None
    } else {
        match first_result(s.drop_last()) {
            Some(found) => Some(found),
            None => match s.last().kind {
                KindView::ToolResult { tool_call_id, content, .. } => Some(
                    (tool_call_id, content),
                ),
                _ => None,
            },
        }
    }
}

proof fn first_result_stays(s: Seq<ContentView>, n: int)
    requires
        0 <= n <= s.len(),
        first_result(s.take(n)) is Some,
    ensures
        first_result(s) == first_result(s.take(n)),
    decreases s.len() - n,
{
    if n < s.len() {
        assert(s.take(n + 1).drop_last() =~= s.take(n));
        first_result_stays(s, n + 1);
    } else {
        assert(s.take(n) =~= s);
    }
}

fn find_result(content: &Vec<LLMContent>) -> (r: Option<(&String, &Vec<LLMContent>)>)
    ensures
        match r {
            Some((id, parts)) => first_result(views(content@)) == Some((id@, views(parts@))),
            None => first_result(views(content@)) is None,
        },
{
    let ghost all = views(content@);
    let mut i: usize = 0;
    assert(all.take(0) =~= Seq::empty());
    while i < content.len()
        invariant
            all == views(content@),
            i <= content@.len(),
            first_result(all.take(i as int)) is None,
        decreases content@.len() - i,
    {
        assert(all.take(i + 1).drop_last() =~= all.take(i as int));
        assert(all.take(i + 1).last() == content@[i as int]@);
        match &content[i].kind {
            LLMContentKind::ToolResult { tool_call_id, content: parts, .. } => {
                proof {
                    content_views_are_views(parts@);
                    assert(kind_of(content@[i as int]) == (KindView::ToolResult {
                        tool_call_id: tool_call_id@,
                        content: views(parts@),
                        is_error: kind_of(content@[i as int])->is_error,
                    }));
                    first_result_stays(all, i + 1);
                }
                return Some((tool_call_id, parts));
            },
            _ => {},
        }
        i = i + 1;
    }
    assert(all.take(i as int) =~= all);
    None
}

/// The kind of a part.
spec fn kind_of(c: LLMContent) -> KindView {
    c.kind@
}

/// The value of a message from a tool.
pub open spec fn chat_result_value(m: MessageView) -> Result<JsonView, ErrorView> {
    match first_result(m.content) {
        None => Err(ErrorView::InvalidField("tool_message.content"@)),
        Some((id, parts)) => match chat_visible_value(parts) {
            Err(e) => Err(e),
            Ok(content) => Ok(
                JsonView::Object(
                    with_text(
                        message_fields(m, chat()).insert("role"@, jtext("tool"@)).insert(
                            "tool_call_id"@,
                            jtext(id),
                        ).insert("content"@, content),
                        "name"@,
                        m.name,
                    ),
                ),
            ),
        },
    }
}

/// `m` with the field `key` set to a text that is not empty.
pub open spec fn with_words(m: Fields, key: Seq<char>, words: Seq<char>) -> Fields {
    if words.len() == 0 {
        m
    } else {
        m.insert(key, jtext(words))
    }
}

/// `m` with the field `key` set to a list that is not empty.
pub open spec fn with_list(m: Fields, key: Seq<char>, list: Seq<JsonView>) -> Fields {
    if list.len() == 0 {
        m
    } else {
        m.insert(key, JsonView::Array(list))
    }
}

/// The content of a message, null where there is none.
pub open spec fn chat_body_value(s: Seq<ContentView>) -> Result<JsonView, ErrorView> {
    if visible_parts(s).len() == 0 {
        Ok(JsonView::Null)
    } else {
        chat_visible_value(visible_parts(s))
    }
}

/// The value of a message.
pub open spec fn chat_message_value(m: MessageView, ids: IdsView) -> Result<JsonView, ErrorView> {
    if m.role == LLMRole::Tool {
        chat_result_value(m)
    } else {
        match chat_body_value(m.content) {
            Err(e) => Err(e),
            Ok(body) => match try_map(all_annotations(m.content), openai_annotation_writer(chat())) {
                Err(e) => Err(e),
                Ok(cited) => {
                    let v = with_text(
                        message_fields(m, chat()).insert("role"@, jtext(role_text(m.role))),
                        "name"@,
                        m.name,
                    ).insert("content"@, body);
                    let v = with_list(v, "tool_calls"@, chat_call_values(m.content, ids));
                    let v = with_words(v, "reasoning_content"@, reasoning_text(m.content));
                    let v = with_words(v, "refusal"@, refusal_text(m.content));
                    let v = with_list(v, "annotations"@, cited);
                    Ok(
                        JsonView::Object(
                            match first_audio(m.content) {
                                Some(c) => v.insert("audio"@, chat_audio_value(c)),
                                None => v,
                            },
                        ),
                    )
                },
            },
        }
    }
}

/// `chat_message_value`.
pub open spec fn chat_message_writer() -> spec_fn(MessageView, IdsView) -> Result<
    JsonView,
    ErrorView,
> {
    |m: MessageView, ids: IdsView| chat_message_value(m, ids)
}

fn chat_result_to_value(message: &LLMMessage) -> (r: Result<Json, AdapterError>)
    ensures
        outcome(r) == chat_result_value(message@),
{
    match find_result(&message.content) {
        None => Err(AdapterError::InvalidField("tool_message.content")),
        Some((id, parts)) => {
            let mut value = message_extensions_for(message, LLMProtocol::OpenAiChat);
            value.put_text("role", "tool");
            value.put_text("tool_call_id", id.as_str());
            match chat_visible_content(parts.as_slice()) {
                Ok(content) => {
                    value.put("content", content);
                },
                Err(e) => {
                    return Err(e);
                },
            }
            value.put_some_text("name", borrow(&message.name));
            Ok(Json::object(value))
        },
    }
}

fn chat_message_to_value(message: &LLMMessage, ids: Option<&FreshIds>) -> (r: Result<
    Json,
    AdapterError,
>)
    ensures
        outcome(r) == chat_message_value(message@, opt_ids(ids)),
{
    if message.role == LLMRole::Tool {
        return chat_result_to_value(message);
    }
    let mut value = message_extensions_for(message, LLMProtocol::OpenAiChat);
    value.put_text("role", role_name(message.role));
    value.put_some_text("name", borrow(&message.name));
    let visible = visible_content(&message.content);
    let body = if visible.len() == 0 {
        Json::null()
    } else {
        match chat_visible_content(visible.as_slice()) {
            Ok(body) => body,
            Err(e) => {
                return Err(e);
            },
        }
    };
    value.put("content", body);
    let calls = tool_call_values(&message.content, ids);
    if calls.len() > 0 {
        value.put_array("tool_calls", calls);
    }
    let (reasoning, refusal, cited) = spoken(&message.content);
    if !reasoning.as_str().is_empty() {
        value.put_text("reasoning_content", reasoning.as_str());
    }
    if !refusal.as_str().is_empty() {
        value.put_text("refusal", refusal.as_str());
    }
    let annotations = match annotations_to_openai(cited.as_slice(), LLMProtocol::OpenAiChat) {
        Ok(annotations) => annotations,
        Err(e) => {
            return Err(e);
        },
    };
    if annotations.len() > 0 {
        value.put_array("annotations", annotations);
    }
    if let Some(audio) = audio_value(&message.content) {
        value.put("audio", audio);
    }
    Ok(Json::object(value))
}

/// Whether a tool is a web search.
pub open spec fn is_search(tool: ToolView) -> bool {
    match tool.kind {
        ToolKindView::Builtin { name, .. } => name == "web_search"@ || name
            == "web_search_preview"@,
        _ => false,
    }
}

/// The options of a web search.
pub open spec fn search_options(config: JsonView) -> JsonView {
    JsonView::Object(
        with_some(
            with_some(
                no_fields(),
                "search_context_size"@,
                config.field("search_context_size"@),
            ),
            "user_location"@,
            config.field("user_location"@),
        ),
    )
}

/// The tools that are no web search.
pub open spec fn other_tools(tools: Seq<ToolView>) -> Seq<ToolView>
    decreases tools.len(),
{
    if tools.len() == 0 {
        Seq::empty()
    } else if is_search(tools.last()) {
        other_tools(tools.drop_last())
    } else {
        other_tools(tools.drop_last()).push(tools.last())
    }
}

/// The options of the last web search among tools.
pub open spec fn last_search(tools: Seq<ToolView>) -> Option<JsonView>
    decreases tools.len(),
{
    if tools.len() == 0 {
        None
    } else if is_search(tools.last()) {
        Some(search_options(tools.last().kind->config))
    } else {
        last_search(tools.drop_last())
    }
}

fn split_tools(tools: &Vec<LLMTool>) -> (r: (Vec<LLMTool>, Option<Json>))
    ensures
        views(r.0@) == other_tools(views(tools@)),
        opt_view(r.1) == last_search(views(tools@)),
{
    let ghost all = views(tools@);
    let mut out: Vec<LLMTool> = Vec::new();
    let mut options: Option<Json> = None;
    let mut i: usize = 0;
    assert(all.take(0) =~= Seq::empty());
    assert(views(out@) =~= Seq::empty());
    while i < tools.len()
        invariant
            all == views(tools@),
            i <= tools@.len(),
            views(out@) == other_tools(all.take(i as int)),
            opt_view(options) == last_search(all.take(i as int)),
        decreases tools@.len() - i,
    {
        assert(all.take(i + 1).drop_last() =~= all.take(i as int));
        assert(all.take(i + 1).last() == tools@[i as int]@);
        let ghost before = views(out@);
        let mut search = false;
        if let LLMToolKind::Builtin { name, config, .. } = &tools[i].kind {
            if same(name.as_str(), "web_search") || same(name.as_str(), "web_search_preview") {
                search = true;
                let mut fields = JsonMap::new();
                fields.put_some("search_context_size", config.get("search_context_size"));
                fields.put_some("user_location", config.get("user_location"));
                options = Some(Json::object(fields));
            }
        }
        assert(search == is_search(tools@[i as int]@));
        if !search {
            out.push(tools[i].clone());
            assert(views(out@) =~= before.push(tools@[i as int]@));
        }
        i = i + 1;
    }
    assert(all.take(i as int) =~= all);
    (out, options)
}

/// `m` with what is said of reasoning.
pub open spec fn with_reasoning(m: Fields, r: RequestView) -> Fields {
    match r.reasoning {
        None => m,
        Some(reasoning) => match reasoning.field("effort"@) {
            Some(effort) => m.insert("reasoning_effort"@, effort),
            None => if r.source != LLMProtocol::AnthropicMessages {
                m.insert("reasoning"@, reasoning)
            } else if reasoning.at("type"@).text() != Some("disabled"@) {
                m.insert("reasoning_effort"@, jtext("high"@))
            } else {
                m
            },
        },
    }
}

/// `m` with the fields of `metadata` under `key`, where there are any.
pub open spec fn with_nonempty(m: Fields, key: Seq<char>, fields: Fields) -> Fields {
    if fields == no_fields() {
        m
    } else {
        m.insert(key, JsonView::Object(fields))
    }
}

/// What a request passes through, with the name of the default service tier.
pub open spec fn passed_through(r: RequestView, names: Seq<Seq<char>>) -> Fields {
    let m = selected(r.extra, names);
    if r.source == LLMProtocol::AnthropicMessages && (match lookup(r.extra, "service_tier"@) {
        Some(tier) => tier.text(),
        None => None,
    }) == Some("standard_only"@) {
        m.insert("service_tier"@, jtext("default"@))
    } else {
        m
    }
}

/// What a request passes through, with the name of the default service tier.
pub(crate) fn pass_through(request: &LLMRequest, names: &[&str]) -> (r: JsonMap)
    ensures
        r@ == passed_through(request@, texts(names@)),
{
    let mut value = request.extra.selected(names);
    if request.source == LLMProtocol::AnthropicMessages {
        if let Some(tier) = request.extra.get("service_tier") {
            if equals(tier.as_text(), "standard_only") {
                value.put_text("service_tier", "default");
            }
        }
    }
    value
}

/// The value of a request, once its messages and tools have theirs.
pub open spec fn chat_request_fields(
    r: RequestView,
    messages: Seq<JsonView>,
    tools: Seq<JsonView>,
) -> Fields {
    let v = passed_through(r, chat_extra_fields());
    let v = v.insert("model"@, jtext(r.model));
    let v = v.insert("messages"@, JsonView::Array(messages));
    let v = v.insert("stream"@, JsonView::Bool(r.stream));
    let v = with_float(v, "temperature"@, r.temperature);
    let v = with_int(v, "max_tokens"@, r.max_tokens);
    let v = with_float(v, "top_p"@, r.top_p);
    let v = with_some(v, "stop"@, r.stop);
    let v = with_some(v, "web_search_options"@, last_search(r.tools));
    let v = with_list(v, "tools"@, tools);
    let v = match r.tool_choice {
        Some(choice) => v.insert("tool_choice"@, chat_choice_value(choice)),
        None => v,
    };
    let v = with_truth(v, "parallel_tool_calls"@, r.parallel_tool_calls);
    let v = match r.response_format {
        Some(format) => v.insert("response_format"@, chat_format_value(format)),
        None => v,
    };
    with_nonempty(with_reasoning(v, r), "metadata"@, r.metadata)
}

/// The value of a request.
pub open spec fn chat_request_value(r: RequestView, ids: IdsView) -> Result<JsonView, ErrorView> {
    match extras_outcome(r, chat(), chat_extra_fields().push("include"@)) {
        Err(e) => Err(e),
        Ok(_) => match try_map_ids(r.messages, ids, chat_message_writer()) {
            Err(e) => Err(e),
            Ok(messages) => match tools_value(other_tools(r.tools), ToolDialect::OpenAiChat) {
                Err(e) => Err(e),
                Ok(tools) => Ok(JsonView::Object(chat_request_fields(r, messages, tools))),
            },
        },
    }
}

/// The value of a request, with the given identifiers where the format wants one that the request
/// does not have.
pub fn write_request(request: &LLMRequest, ids: Option<&FreshIds>) -> (r: Result<
    Json,
    AdapterError,
>)
    ensures
        outcome(r) == chat_request_value(request@, opt_ids(ids)),
{
    let accepted = [
        "audio",
        "frequency_penalty",
        "logit_bias",
        "logprobs",
        "modalities",
        "n",
        "prediction",
        "presence_penalty",
        "prompt_cache_key",
        "prompt_cache_retention",
        "safety_identifier",
        "seed",
        "service_tier",
        "store",
        "stream_options",
        "top_logprobs",
        "user",
        "verbosity",
        "web_search_options",
        "include",
    ];
    assert(texts(accepted@) =~= chat_extra_fields().push("include"@));
    match validate_request_extras(request, LLMProtocol::OpenAiChat, &accepted) {
        Ok(_) => {},
        Err(e) => {
            return Err(e);
        },
    }
    let messages = match try_each_ids(
        request.messages.as_slice(),
        ids,
        chat_message_to_value,
        Ghost(chat_message_writer()),
    ) {
        Ok(messages) => messages,
        Err(e) => {
            return Err(e);
        },
    };
    let (chat_tools, options) = split_tools(&request.tools);
    let tools = match tools_to_openai_chat(chat_tools.as_slice()) {
        Ok(tools) => tools,
        Err(e) => {
            return Err(e);
        },
    };
    Ok(Json::object(write_request_fields(request, messages, options, tools)))
}

fn write_request_fields(
    request: &LLMRequest,
    messages: Vec<Json>,
    options: Option<Json>,
    tools: Vec<Json>,
) -> (r: JsonMap)
    requires
        opt_view(options) == last_search(request@.tools),
    ensures
        r@ == chat_request_fields(request@, views(messages@), views(tools@)),
{
    let names = [
        "audio",
        "frequency_penalty",
        "logit_bias",
        "logprobs",
        "modalities",
        "n",
        "prediction",
        "presence_penalty",
        "prompt_cache_key",
        "prompt_cache_retention",
        "safety_identifier",
        "seed",
        "service_tier",
        "store",
        "stream_options",
        "top_logprobs",
        "user",
        "verbosity",
        "web_search_options",
    ];
    assert(texts(names@) =~= chat_extra_fields());
    let mut value = pass_through(request, &names);
    value.put_text("model", request.model.as_str());
    value.put_array("messages", messages);
    value.put_bool("stream", request.stream);
    value.put_some_float("temperature", &request.temperature);
    value.put_some_uint("max_tokens", request.max_tokens);
    value.put_some_float("top_p", &request.top_p);
    value.put_some("stop", request.stop.as_ref());
    value.put_some("web_search_options", options.as_ref());
    if tools.len() > 0 {
        value.put_array("tools", tools);
    }
    if let Some(choice) = &request.tool_choice {
        value.put("tool_choice", chat_tool_choice_to_value(choice));
    }
    value.put_some_bool("parallel_tool_calls", request.parallel_tool_calls);
    if let Some(format) = &request.response_format {
        value.put("response_format", chat_response_format_to_value(format));
    }
    if let Some(reasoning) = &request.reasoning {
        if let Some(effort) = reasoning.get("effort") {
            value.put("reasoning_effort", effort.clone());
        } else if request.source != LLMProtocol::AnthropicMessages {
            value.put("reasoning", reasoning.clone());
        } else if !equals(reasoning.text_at("type"), "disabled") {
            value.put_text("reasoning_effort", "high");
        }
    }
    if !request.metadata.is_empty() {
        value.put_object("metadata", request.metadata.clone());
    }
    value
}

/// Why the model stopped, by the format's name for it.
pub open spec fn chat_reason_of(reason: Seq<char>) -> LLMFinishReason {
    if reason == "stop"@ {
        LLMFinishReason::Stop
    } else if reason == "length"@ {
        LLMFinishReason::Length
    } else if reason == "tool_calls"@ {
        LLMFinishReason::ToolCalls
    } else if reason == "content_filter"@ {
        LLMFinishReason::ContentFilter
    } else if reason == "function_call"@ {
        LLMFinishReason::FunctionCall
    } else {
        LLMFinishReason::Unknown
    }
}

/// Why the model stopped, by the format's name for it.
pub fn parse_chat_finish_reason(reason: &str) -> (r: LLMFinishReason)
    ensures
        r == chat_reason_of(reason@),
{
    if same(reason, "stop") {
        LLMFinishReason::Stop
    } else if same(reason, "length") {
        LLMFinishReason::Length
    } else if same(reason, "tool_calls") {
        LLMFinishReason::ToolCalls
    } else if same(reason, "content_filter") {
        LLMFinishReason::ContentFilter
    } else if same(reason, "function_call") {
        LLMFinishReason::FunctionCall
    } else {
        LLMFinishReason::Unknown
    }
}

/// The format's name for why the model stopped.
pub open spec fn chat_reason_text(reason: LLMFinishReason) -> Seq<char> {
    match reason {
        LLMFinishReason::Length => "length"@,
        LLMFinishReason::MaxTokens => "length"@,
        LLMFinishReason::ContextLimit => "length"@,
        LLMFinishReason::Incomplete => "length"@,
        LLMFinishReason::ToolCalls => "tool_calls"@,
        LLMFinishReason::ToolUse => "tool_calls"@,
        LLMFinishReason::FunctionCall => "tool_calls"@,
        LLMFinishReason::ContentFilter => "content_filter"@,
        LLMFinishReason::Refusal => "content_filter"@,
        _ => "stop"@,
    }
}

/// The value for why the model stopped.
pub fn chat_finish_reason_to_value(reason: LLMFinishReason) -> (r: Json)
    ensures
        r@ == jtext(chat_reason_text(reason)),
{
    match reason {
        LLMFinishReason::Length => Json::text("length"),
        LLMFinishReason::MaxTokens => Json::text("length"),
        LLMFinishReason::ContextLimit => Json::text("length"),
        LLMFinishReason::Incomplete => Json::text("length"),
        LLMFinishReason::ToolCalls => Json::text("tool_calls"),
        LLMFinishReason::ToolUse => Json::text("tool_calls"),
        LLMFinishReason::FunctionCall => Json::text("tool_calls"),
        LLMFinishReason::ContentFilter => Json::text("content_filter"),
        LLMFinishReason::Refusal => Json::text("content_filter"),
        _ => Json::text("stop"),
    }
}

/// The consumption that a value is.
pub open spec fn chat_usage_of(value: JsonView) -> Option<UsageView> {
    let prompt = value.at("prompt_tokens_details"@);
    let completion = value.at("completion_tokens_details"@);
    match value {
        JsonView::Object(fields) => Some(
            UsageView {
                source: Some(chat()),
                input_tokens: value.at("prompt_tokens"@).uint(),
                output_tokens: value.at("completion_tokens"@).uint(),
                total_tokens: value.at("total_tokens"@).uint(),
                cache_read_tokens: prompt.at("cached_tokens"@).uint(),
                cache_creation_tokens: None,
                reasoning_tokens: completion.at("reasoning_tokens"@).uint(),
                input_audio_tokens: prompt.at("audio_tokens"@).uint(),
                output_audio_tokens: completion.at("audio_tokens"@).uint(),
                accepted_prediction_tokens: completion.at("accepted_prediction_tokens"@).uint(),
                rejected_prediction_tokens: completion.at("rejected_prediction_tokens"@).uint(),
                extra: without(
                    fields,
                    seq![
                        "prompt_tokens"@,
                        "completion_tokens"@,
                        "total_tokens"@,
                        "prompt_tokens_details"@,
                        "completion_tokens_details"@,
                    ],
                ),
            },
        ),
        _ => None,
    }
}

/// The consumption that an optional value is.
pub open spec fn chat_usage_of_opt(value: Option<JsonView>) -> Option<UsageView> {
    match value {
        Some(v) => chat_usage_of(v),
        None => None,
    }
}

/// The consumption that a value is.
pub fn chat_usage_from_value(value: &Json) -> (r: Option<LLMUsage>)
    ensures
        opt_usage(r) == chat_usage_of(value@),
{
    if !value.is_object() {
        return None;
    }
    let prompt = value.at("prompt_tokens_details");
    let completion = value.at("completion_tokens_details");
    let known = [
        "prompt_tokens",
        "completion_tokens",
        "total_tokens",
        "prompt_tokens_details",
        "completion_tokens_details",
    ];
    assert(texts(known@) =~= seq![
        "prompt_tokens"@,
        "completion_tokens"@,
        "total_tokens"@,
        "prompt_tokens_details"@,
        "completion_tokens_details"@,
    ]);
    Some(
        LLMUsage {
            source: Some(LLMProtocol::OpenAiChat),
            input_tokens: value.uint_at("prompt_tokens"),
            output_tokens: value.uint_at("completion_tokens"),
            total_tokens: value.uint_at("total_tokens"),
            cache_read_tokens: prompt.uint_at("cached_tokens"),
            cache_creation_tokens: None,
            reasoning_tokens: completion.uint_at("reasoning_tokens"),
            input_audio_tokens: prompt.uint_at("audio_tokens"),
            output_audio_tokens: completion.uint_at("audio_tokens"),
            accepted_prediction_tokens: completion.uint_at("accepted_prediction_tokens"),
            rejected_prediction_tokens: completion.uint_at("rejected_prediction_tokens"),
            extra: value.fields_without(&known),
        },
    )
}

/// The consumption at the field `key`.
pub(crate) fn chat_usage_at(value: &Json, key: &str) -> (r: Option<LLMUsage>)
    ensures
        opt_usage(r) == chat_usage_of_opt(value@.field(key@)),
{
    match value.get(key) {
        Some(usage) => chat_usage_from_value(usage),
        None => None,
    }
}

/// The count, or zero.
pub open spec fn or_zero(n: Option<u64>) -> u64 {
    match n {
        Some(n) => n,
        None => 0,
    }
}

/// The total of a consumption; where it is not given, the sum of what went in and what came out.
pub open spec fn total_of(u: UsageView) -> u64 {
    match u.total_tokens {
        Some(n) => n,
        None => or_zero(u.input_tokens).wrapping_add(or_zero(u.output_tokens)),
    }
}

/// The total of a consumption.
pub(crate) fn total_tokens(usage: &LLMUsage) -> (r: u64)
    ensures
        r == total_of(usage@),
{
    match usage.total_tokens {
        Some(n) => n,
        None => usage.input_tokens.unwrap_or(0).wrapping_add(usage.output_tokens.unwrap_or(0)),
    }
}

/// The extensions of a consumption, for its own format only.
pub open spec fn usage_fields(u: UsageView, target: LLMProtocol) -> Fields {
    if u.source == Some(target) {
        u.extra
    } else {
        no_fields()
    }
}

/// The extensions of a consumption, for its own format only.
pub(crate) fn usage_extensions_for(usage: &LLMUsage, target: LLMProtocol) -> (r: JsonMap)
    ensures
        r@ == usage_fields(usage@, target),
{
    match usage.source {
        Some(source) => if source == target {
            usage.extra.clone()
        } else {
            JsonMap::new()
        },
        None => JsonMap::new(),
    }
}

/// What a consumption says of the prompt.
pub open spec fn chat_prompt_details(u: UsageView) -> Fields {
    with_int(
        with_int(no_fields(), "cached_tokens"@, u.cache_read_tokens),
        "audio_tokens"@,
        u.input_audio_tokens,
    )
}

/// What a consumption says of the completion.
pub open spec fn chat_completion_details(u: UsageView) -> Fields {
    let m = with_int(no_fields(), "reasoning_tokens"@, u.reasoning_tokens);
    let m = with_int(m, "audio_tokens"@, u.output_audio_tokens);
    let m = with_int(m, "accepted_prediction_tokens"@, u.accepted_prediction_tokens);
    with_int(m, "rejected_prediction_tokens"@, u.rejected_prediction_tokens)
}

/// The value of a consumption.
pub open spec fn chat_usage_value(u: UsageView) -> JsonView {
    let v = usage_fields(u, chat());
    let v = v.insert("prompt_tokens"@, jint(or_zero(u.input_tokens)));
    let v = v.insert("completion_tokens"@, jint(or_zero(u.output_tokens)));
    let v = v.insert("total_tokens"@, jint(total_of(u)));
    let v = with_nonempty(v, "prompt_tokens_details"@, chat_prompt_details(u));
    JsonView::Object(
        with_nonempty(v, "completion_tokens_details"@, chat_completion_details(u)),
    )
}

/// The value of a consumption.
pub fn chat_usage_to_value(usage: &LLMUsage) -> (r: Json)
    ensures
        r@ == chat_usage_value(usage@),
{
    let mut value = usage_extensions_for(usage, LLMProtocol::OpenAiChat);
    value.put_uint("prompt_tokens", usage.input_tokens.unwrap_or(0));
    value.put_uint("completion_tokens", usage.output_tokens.unwrap_or(0));
    value.put_uint("total_tokens", total_tokens(usage));
    let mut prompt = JsonMap::new();
    prompt.put_some_uint("cached_tokens", usage.cache_read_tokens);
    prompt.put_some_uint("audio_tokens", usage.input_audio_tokens);
    if !prompt.is_empty() {
        value.put_object("prompt_tokens_details", prompt);
    }
    let mut completion = JsonMap::new();
    completion.put_some_uint("reasoning_tokens", usage.reasoning_tokens);
    completion.put_some_uint("audio_tokens", usage.output_audio_tokens);
    completion.put_some_uint("accepted_prediction_tokens", usage.accepted_prediction_tokens);
    completion.put_some_uint("rejected_prediction_tokens", usage.rejected_prediction_tokens);
    if !completion.is_empty() {
        value.put_object("completion_tokens_details", completion);
    }
    Json::object(value)
}

/// What an answer has beyond the fields that the neutral form names.
pub open spec fn chat_choice_metadata(choice: JsonView) -> Fields {
    let m = with_some(
        without(
            choice.fields_or_none(),
            seq!["index"@, "message"@, "finish_reason"@, "logprobs"@],
        ),
        "logprobs"@,
        choice.field("logprobs"@),
    );
    match choice.at("finish_reason"@).text() {
        Some(reason) => if chat_reason_of(reason) == LLMFinishReason::Unknown {
            m.insert("raw_finish_reason"@, jtext(reason))
        } else {
            m
        },
        None => m,
    }
}

/// The message of an answer, from the assistant where it does not say from whom.
pub open spec fn chat_answer_of(message: JsonView) -> Result<MessageView, ErrorView> {
    if message.at("role"@) == JsonView::Null {
        match with_field(message, "role"@, jtext("assistant"@)) {
            Err(e) => Err(e),
            Ok(message) => chat_message_of(message),
        }
    } else {
        chat_message_of(message)
    }
}

/// The answer that a value is.
pub open spec fn chat_response_choice_of(choice: JsonView, position: int) -> Result<
    ChoiceView,
    ErrorView,
> {
    match chat_answer_of(choice.at("message"@)) {
        Err(e) => Err(e),
        Ok(message) => Ok(
            ChoiceView {
                index: match choice.at("index"@).uint() {
                    Some(index) => index as usize,
                    None => position as usize,
                },
                role: message.role,
                content: message.content,
                finish_reason: match choice.at("finish_reason"@).text() {
                    Some(reason) => Some(chat_reason_of(reason)),
                    None => None,
                },
                metadata: chat_choice_metadata(choice),
            },
        ),
    }
}

/// The answers that values are.
pub open spec fn chat_choices_of(list: Seq<JsonView>) -> Result<Seq<ChoiceView>, ErrorView>
    decreases list.len(),
{
    if list.len() == 0 {
        Ok(Seq::empty())
    } else {
        match chat_choices_of(list.drop_last()) {
            Err(e) => Err(e),
            Ok(done) => match chat_response_choice_of(list.last(), list.len() - 1) {
                Err(e) => Err(e),
                Ok(choice) => Ok(done.push(choice)),
            },
        }
    }
}

proof fn chat_choices_fail(list: Seq<JsonView>, n: int)
    requires
        0 <= n <= list.len(),
        chat_choices_of(list.take(n)) is Err,
    ensures
        chat_choices_of(list) == chat_choices_of(list.take(n)),
    decreases list.len() - n,
{
    if n < list.len() {
        assert(list.take(n + 1).drop_last() =~= list.take(n));
        chat_choices_fail(list, n + 1);
    } else {
        assert(list.take(n) =~= list);
    }
}

fn parse_choice(choice: &Json, position: usize) -> (r: Result<LLMChoice, AdapterError>)
    ensures
        outcome(r) == chat_response_choice_of(choice@, position as int),
{
    let message = choice.at("message");
    let parsed = if message.at("role").is_null() {
        match set_field(message.clone(), "role", Json::text("assistant")) {
            Ok(message) => parse_chat_message(&message),
            Err(e) => Err(e),
        }
    } else {
        parse_chat_message(message)
    };
    let parsed = match parsed {
        Ok(parsed) => parsed,
        Err(e) => {
            return Err(e);
        },
    };
    let known = ["index", "message", "finish_reason", "logprobs"];
    assert(texts(known@) =~= seq!["index"@, "message"@, "finish_reason"@, "logprobs"@]);
    let mut metadata = choice.fields_without(&known);
    metadata.put_some("logprobs", choice.get("logprobs"));
    let mut finish_reason: Option<LLMFinishReason> = None;
    if let Some(reason) = choice.text_at("finish_reason") {
        let parsed_reason = parse_chat_finish_reason(reason);
        if parsed_reason == LLMFinishReason::Unknown {
            metadata.put_text("raw_finish_reason", reason);
        }
        finish_reason = Some(parsed_reason);
    }
    let index = match choice.uint_at("index") {
        Some(index) => index as usize,
        None => position,
    };
    Ok(
        LLMChoice { index, role: parsed.role, content: parsed.content, finish_reason, metadata },
    )
}

/// The response that a value is.
pub open spec fn chat_response_of(value: JsonView) -> Result<ResponseView, ErrorView> {
    match value.at("choices"@).items() {
        None => Err(ErrorView::InvalidField("choices"@)),
        Some(list) => match chat_choices_of(list) {
            Err(e) => Err(e),
            Ok(choices) => Ok(
                ResponseView {
                    source: chat(),
                    id: value.at("id"@).text(),
                    model: value.at("model"@).text(),
                    choices,
                    usage: chat_usage_of_opt(value.field("usage"@)),
                    metadata: no_fields(),
                    extra: without(
                        value.fields_or_none(),
                        seq!["id"@, "object"@, "model"@, "choices"@, "usage"@],
                    ),
                },
            ),
        },
    }
}

/// The response that a value is.
pub fn read_response(value: &Json) -> (r: Result<LLMResponse, AdapterError>)
    ensures
        outcome(r) == chat_response_of(value@),
{
    let list = match value.array_at("choices") {
        Some(list) => list,
        None => {
            return Err(AdapterError::InvalidField("choices"));
        },
    };
    let choices = match parse_choices(list) {
        Ok(choices) => choices,
        Err(e) => {
            return Err(e);
        },
    };
    let known = ["id", "object", "model", "choices", "usage"];
    assert(texts(known@) =~= seq!["id"@, "object"@, "model"@, "choices"@, "usage"@]);
    Ok(
        LLMResponse {
            source: LLMProtocol::OpenAiChat,
            id: own(value.text_at("id")),
            model: own(value.text_at("model")),
            choices,
            usage: chat_usage_at(value, "usage"),
            metadata: JsonMap::new(),
            extra: value.fields_without(&known),
        },
    )
}

fn parse_choices(list: &Vec<Json>) -> (r: Result<Vec<LLMChoice>, AdapterError>)
    ensures
        outcomes(r) == chat_choices_of(views(list@)),
{
    let ghost all = views(list@);
    let mut out: Vec<LLMChoice> = Vec::new();
    let mut i: usize = 0;
    assert(all.take(0) =~= Seq::empty());
    assert(views(out@) =~= Seq::empty());
    while i < list.len()
        invariant
            all == views(list@),
            i <= list@.len(),
            chat_choices_of(all.take(i as int)) == Ok::<Seq<ChoiceView>, ErrorView>(views(out@)),
        decreases list@.len() - i,
    {
        assert(all.take(i + 1).drop_last() =~= all.take(i as int));
        assert(all.take(i + 1).last() == list@[i as int]@);
        let ghost done = views(out@);
        match parse_choice(&list[i], i) {
            Ok(choice) => {
                out.push(choice);
                assert(views(out@) =~= done.push(choice@));
            },
            Err(e) => {
                proof {
                    chat_choices_fail(all, i + 1);
                }
                return Err(e);
            },
        }
        i = i + 1;
    }
    assert(all.take(i as int) =~= all);
    Ok(out)
}

/// The value of an answer.
pub open spec fn chat_response_choice_value(
    choice: ChoiceView,
    source: LLMProtocol,
    ids: IdsView,
) -> Result<JsonView, ErrorView> {
    let message = MessageView {
        source: Some(source),
        role: choice.role,
        content: choice.content,
        name: None,
        metadata: no_fields(),
    };
    match chat_message_value(message, ids) {
        Err(e) => Err(e),
        Ok(value) => Ok(
            JsonView::Object(
                with_some(
                    no_fields().insert("index"@, jint(choice.index as u64)).insert(
                        "message"@,
                        value,
                    ).insert(
                        "finish_reason"@,
                        match choice.finish_reason {
                            Some(reason) => jtext(chat_reason_text(reason)),
                            None => JsonView::Null,
                        },
                    ),
                    "logprobs"@,
                    lookup(choice.metadata, "logprobs"@),
                ),
            ),
        ),
    }
}

/// `chat_response_choice_value` for one source.
pub open spec fn chat_choice_writer(source: LLMProtocol) -> spec_fn(
    ChoiceView,
    IdsView,
) -> Result<JsonView, ErrorView> {
    |choice: ChoiceView, ids: IdsView| chat_response_choice_value(choice, source, ids)
}

fn choice_to_value(choice: &LLMChoice, source: LLMProtocol, ids: Option<&FreshIds>) -> (r: Result<
    Json,
    AdapterError,
>)
    ensures
        outcome(r) == chat_response_choice_value(choice@, source, opt_ids(ids)),
{
    let message = LLMMessage {
        source: Some(source),
        role: choice.role,
        content: copy_contents(&choice.content),
        name: None,
        metadata: JsonMap::new(),
    };
    let mut value = JsonMap::new();
    value.put_uint("index", choice.index as u64);
    match chat_message_to_value(&message, ids) {
        Ok(message) => {
            value.put("message", message);
        },
        Err(e) => {
            return Err(e);
        },
    }
    let reason = match choice.finish_reason {
        Some(reason) => chat_finish_reason_to_value(reason),
        None => Json::null(),
    };
    value.put("finish_reason", reason);
    value.put_some("logprobs", choice.metadata.get("logprobs"));
    Ok(Json::object(value))
}

/// The extensions of a response, for its own format only, with the service tier in any case.
pub open spec fn response_base(r: ResponseView, target: LLMProtocol) -> Fields {
    with_some(
        if r.source == target {
            r.extra
        } else {
            no_fields()
        },
        "service_tier"@,
        lookup(r.extra, "service_tier"@),
    )
}

/// The extensions of a response, for its own format only, with the service tier in any case.
pub(crate) fn response_extensions_for(response: &LLMResponse, target: LLMProtocol) -> (r: JsonMap)
    ensures
        r@ == response_base(response@, target),
{
    let mut value = if response.source == target {
        response.extra.clone()
    } else {
        JsonMap::new()
    };
    value.put_some("service_tier", response.extra.get("service_tier"));
    value
}

/// The value of a response.
pub open spec fn chat_response_value(r: ResponseView, ids: IdsView, now: i64) -> Result<
    JsonView,
    ErrorView,
> {
    match try_map_ids(r.choices, ids, chat_choice_writer(r.source)) {
        Err(e) => Err(e),
        Ok(choices) => {
            let v = response_base(r, chat());
            let v = v.insert("id"@, jtext(or_text(r.id, "chatcmpl_"@ + ids.item)));
            let v = v.insert("object"@, jtext("chat.completion"@));
            let v = v.insert("created"@, JsonView::Number(int_num(now)));
            let v = v.insert("model"@, jtext(or_text(r.model, ""@)));
            let v = v.insert("choices"@, JsonView::Array(choices));
            Ok(
                JsonView::Object(
                    match r.usage {
                        Some(usage) => v.insert("usage"@, chat_usage_value(usage)),
                        None => v,
                    },
                ),
            )
        },
    }
}

/// The value of a response, with the given identifiers where the format wants one that the
/// response does not have, and the given time of creation.
pub fn write_response(response: &LLMResponse, ids: Option<&FreshIds>, created: i64) -> (r: Result<
    Json,
    AdapterError,
>)
    ensures
        outcome(r) == chat_response_value(response@, opt_ids(ids), created),
{
    let source = response.source;
    let write = |choice: &LLMChoice, ids: Option<&FreshIds>| -> (r: Result<Json, AdapterError>)
        ensures
            outcome(r) == chat_response_choice_value(choice@, source, opt_ids(ids)),
    {
        choice_to_value(choice, source, ids)
    };
    let choices = match try_each_ids(
        response.choices.as_slice(),
        ids,
        write,
        Ghost(chat_choice_writer(source)),
    ) {
        Ok(choices) => choices,
        Err(e) => {
            return Err(e);
        },
    };
    let mut value = response_extensions_for(response, LLMProtocol::OpenAiChat);
    value.put_text("id", or_fresh(&response.id, "chatcmpl_", item_id(ids)).as_str());
    value.put_text("object", "chat.completion");
    value.put("created", Json::signed(created));
    value.put_text("model", borrow(&response.model).unwrap_or(""));
    value.put_array("choices", choices);
    if let Some(usage) = &response.usage {
        value.put("usage", chat_usage_to_value(usage));
    }
    Ok(Json::object(value))
}

} // verus!
