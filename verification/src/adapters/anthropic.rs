//! The Messages format: requests and responses.

use super::annotations::{
    annotations_from_anthropic, annotations_to_anthropic, anthropic_annotation_writer,
    anthropic_annotations,
};
use super::common::{
    all_text, array0, array1, cannot, cannot_represent, content_extensions_for, content_fields,
    equals, extras_outcome, is_all_text, json1, json2, json3, json_array0, json_array1,
    json_object0, object0, object1, object2, object3, raw_type, read_or, set_field,
    validate_request_extras, with_field,
};
use super::error::{AdapterError, ErrorView};
use super::fresh::{call_id, ids_at, item_id, opt_ids, FreshIds, IdsView};
use super::openai_chat::{
    either_str, or_false, or_fresh, or_zero, usage_extensions_for, usage_fields, with_list,
    with_nonempty,
};
use super::openai_responses::{not_null, present_at};
use super::tools::{tools_from_anthropic, tools_of, tools_to_anthropic, tools_value, ToolDialect};
use crate::json::{
    copy_opt, jint, jtext, lookup, opt_ref, opt_view, selected, with_float, with_int, with_some,
    with_text, with_truth, without, Json, JsonMap, JsonView,
};
use crate::model::{
    content_views_are_views, joined_text, no_fields, opt_choice, opt_usage, text_part, texts_joined,
    ChoiceView, ContentView, Fields, KindView, LLMChoice, LLMContent, LLMContentKind,
    LLMFinishReason, LLMMediaSource, LLMMessage, LLMProtocol, LLMRequest, LLMResponse, LLMRole,
    LLMToolChoice, LLMUsage, MediaView, MessageView, RequestView, ResponseView, ToolChoiceView,
    UsageView,
};
use crate::seqs::{outcome, outcomes, try_map, views};
use crate::text::{
    borrow, either, opt_str, opt_text, or_text, own, same, split_once, split_text, strings,
    strip_prefix, texts, without_prefix,
};
use crate::wire::{double, double_of, parse, text_value};
use vstd::prelude::*;

verus! {

broadcast use content_views_are_views;

/// The Messages format.
pub struct AnthropicAdapter;

/// The format's name.
pub open spec fn anthropic() -> LLMProtocol {
    LLMProtocol::AnthropicMessages
}

/// The fields of a request that the format passes through.
pub open spec fn anthropic_extra_fields() -> Seq<Seq<char>> {
    seq![
        "container"@,
        "context_management"@,
        "inference_geo"@,
        "mcp_servers"@,
        "service_tier"@,
        "speed"@,
        "top_k"@,
    ]
}

/// The fields of a request that the format accepts.
pub open spec fn anthropic_accepted_fields() -> Seq<Seq<char>> {
    seq![
        "container"@,
        "context_management"@,
        "inference_geo"@,
        "mcp_servers"@,
        "service_tier"@,
        "speed"@,
        "top_k"@,
        "user"@,
        "safety_identifier"@,
        "include"@,
        "prompt_cache_key"@,
        "prompt_cache_retention"@,
        "stream_options"@,
        "verbosity"@,
    ]
}

/// A part of the format's own.
pub open spec fn anthropic_part(kind: KindView, metadata: Fields) -> ContentView {
    ContentView { source: Some(anthropic()), kind, metadata }
}

/// The source of media that a value is.
pub open spec fn anthropic_source_of(value: JsonView) -> MediaView {
    let kind = or_text(value.at("type"@).text(), ""@);
    let data = or_text(value.at("data"@).text(), ""@);
    if kind == "base64"@ {
        MediaView::Data { data, media_type: value.at("media_type"@).text() }
    } else if kind == "url"@ {
        MediaView::Url { url: or_text(value.at("url"@).text(), ""@) }
    } else if kind == "file"@ {
        MediaView::FileId { file_id: or_text(value.at("file_id"@).text(), ""@) }
    } else if kind == "text"@ {
        MediaView::Data { data, media_type: Some("text/plain"@) }
    } else {
        MediaView::Raw { value }
    }
}

fn anthropic_source_from_value(value: &Json) -> (r: LLMMediaSource)
    ensures
        r@ == anthropic_source_of(value@),
{
    let kind = value.text_at("type").unwrap_or("");
    if same(kind, "base64") {
        LLMMediaSource::Data {
            data: value.text_at("data").unwrap_or("").to_owned(),
            media_type: own(value.text_at("media_type")),
        }
    } else if same(kind, "url") {
        LLMMediaSource::Url { url: value.text_at("url").unwrap_or("").to_owned() }
    } else if same(kind, "file") {
        LLMMediaSource::FileId { file_id: value.text_at("file_id").unwrap_or("").to_owned() }
    } else if same(kind, "text") {
        LLMMediaSource::Data {
            data: value.text_at("data").unwrap_or("").to_owned(),
            media_type: Some("text/plain".to_owned()),
        }
    } else {
        LLMMediaSource::Raw { value: value.clone() }
    }
}

/// The media type and the data of an address that holds its data.
pub open spec fn data_url(url: Seq<char>) -> Option<(Seq<char>, Seq<char>)> {
    match strip_prefix(url, "data:"@) {
        Some(rest) => split_once(rest, ";base64,"@),
        None => None,
    }
}

fn parse_data_url(url: &str) -> (r: Option<(String, String)>)
    ensures
        match r {
            Some((a, b)) => data_url(url@) == Some((a@, b@)),
            None => data_url(url@) is None,
        },
{
    match without_prefix(url, "data:") {
        Some(rest) => split_text(rest.as_str(), ";base64,"),
        None => None,
    }
}

/// The value of a source of media.
pub open spec fn anthropic_source_value(source: MediaView) -> JsonView {
    match source {
        MediaView::Url { url } => match data_url(url) {
            Some((media_type, data)) => object3(
                "type"@,
                jtext("base64"@),
                "media_type"@,
                jtext(media_type),
                "data"@,
                jtext(data),
            ),
            None => object2("type"@, jtext("url"@), "url"@, jtext(url)),
        },
        MediaView::Data { data, media_type } => object3(
            "type"@,
            jtext("base64"@),
            "media_type"@,
            jtext(or_text(media_type, "application/octet-stream"@)),
            "data"@,
            jtext(data),
        ),
        MediaView::FileId { file_id } => object2(
            "type"@,
            jtext("file"@),
            "file_id"@,
            jtext(file_id),
        ),
        MediaView::Raw { value } => value,
    }
}

fn anthropic_source_to_value(source: &LLMMediaSource) -> (r: Json)
    ensures
        r@ == anthropic_source_value(source@),
{
    match source {
        LLMMediaSource::Url { url } => match parse_data_url(url.as_str()) {
            Some((media_type, data)) => json3(
                "type",
                Json::text("base64"),
                "media_type",
                Json::text(media_type.as_str()),
                "data",
                Json::text(data.as_str()),
            ),
            None => json2("type", Json::text("url"), "url", Json::text(url.as_str())),
        },
        LLMMediaSource::Data { data, media_type } => json3(
            "type",
            Json::text("base64"),
            "media_type",
            Json::text(borrow(media_type).unwrap_or("application/octet-stream")),
            "data",
            Json::text(data.as_str()),
        ),
        LLMMediaSource::FileId { file_id } => json2(
            "type",
            Json::text("file"),
            "file_id",
            Json::text(file_id.as_str()),
        ),
        LLMMediaSource::Raw { value } => value.clone(),
    }
}

/// The fields of a block that the neutral form names.
pub open spec fn anthropic_block_keys() -> Seq<Seq<char>> {
    seq![
        "type"@,
        "text"@,
        "source"@,
        "id"@,
        "name"@,
        "input"@,
        "tool_use_id"@,
        "content"@,
        "is_error"@,
        "thinking"@,
        "signature"@,
        "data"@,
        "citations"@,
    ]
}

/// What kind of part a block is, given the parts of its own content.
pub open spec fn anthropic_kind_of(block: JsonView, nested: Seq<ContentView>) -> KindView {
    let kind = or_text(block.at("type"@).text(), "text"@);
    if kind == "text"@ {
        KindView::Text {
            text: or_text(block.at("text"@).text(), ""@),
            annotations: anthropic_annotations(block.at("citations"@)),
        }
    } else if kind == "image"@ {
        KindView::Image { source: anthropic_source_of(block.at("source"@)), detail: None }
    } else if kind == "document"@ {
        KindView::File {
            source: anthropic_source_of(block.at("source"@)),
            filename: block.at("title"@).text(),
            media_type: block.at("source"@).at("media_type"@).text(),
        }
    } else if kind == "tool_use"@ || kind == "server_tool_use"@ {
        KindView::ToolCall {
            id: block.at("id"@).text(),
            name: or_text(block.at("name"@).text(), ""@),
            arguments: match block.field("input"@) {
                Some(input) => input,
                None => object0(),
            },
        }
    } else if kind == "tool_result"@ {
        KindView::ToolResult {
            tool_call_id: or_text(block.at("tool_use_id"@).text(), ""@),
            content: nested,
            is_error: block.at("is_error"@).truth(),
        }
    } else if kind == "thinking"@ {
        KindView::Reasoning {
            text: block.at("thinking"@).text(),
            summary: Seq::empty(),
            signature: block.at("signature"@).text(),
            encrypted_content: None,
        }
    } else if kind == "redacted_thinking"@ {
        KindView::Reasoning {
            text: None,
            summary: Seq::empty(),
            signature: None,
            encrypted_content: block.at("data"@).text(),
        }
    } else if kind == "refusal"@ {
        KindView::Refusal {
            refusal: or_text(either(block.at("text"@).text(), block.at("refusal"@).text()), ""@),
        }
    } else {
        KindView::Raw { protocol: anthropic(), value: block }
    }
}

/// The part that a block is.
pub open spec fn anthropic_block_of(block: JsonView) -> ContentView
    decreases block,
{
    let nested = match block {
        JsonView::Object(m) => if m.contains_key("content"@) {
            anthropic_content_of(m["content"@])
        } else {
            Seq::empty()
        },
        _ => Seq::empty(),
    };
    anthropic_part(
        anthropic_kind_of(block, nested),
        without(block.fields_or_none(), anthropic_block_keys()),
    )
}

/// The parts that a value is.
pub open spec fn anthropic_content_of(value: JsonView) -> Seq<ContentView>
    decreases value,
{
    match value {
        JsonView::Text(text) => seq![text_part(text)],
        JsonView::Array(blocks) => Seq::new(
            blocks.len(),
            |i: int|
                if 0 <= i < blocks.len() {
                    anthropic_block_of(blocks[i])
                } else {
                    text_part(Seq::empty())
                },
        ),
        _ => Seq::empty(),
    }
}

fn anthropic_kind_from_value(block: &Json, nested: Vec<LLMContent>) -> (r: LLMContentKind)
    ensures
        r@ == anthropic_kind_of(block@, views(nested@)),
{
    let kind = block.text_at("type").unwrap_or("text");
    if same(kind, "text") {
        LLMContentKind::Text {
            text: block.text_at("text").unwrap_or("").to_owned(),
            annotations: annotations_from_anthropic(block.at("citations")),
        }
    } else if same(kind, "image") {
        LLMContentKind::Image {
            source: anthropic_source_from_value(block.at("source")),
            detail: None,
        }
    } else if same(kind, "document") {
        LLMContentKind::File {
            source: anthropic_source_from_value(block.at("source")),
            filename: own(block.text_at("title")),
            media_type: own(block.at("source").text_at("media_type")),
        }
    } else if same(kind, "tool_use") || same(kind, "server_tool_use") {
        let arguments = match block.get("input") {
            Some(input) => input.clone(),
            None => json_object0(),
        };
        LLMContentKind::ToolCall {
            id: own(block.text_at("id")),
            name: block.text_at("name").unwrap_or("").to_owned(),
            arguments,
        }
    } else if same(kind, "tool_result") {
        proof {
            content_views_are_views(nested@);
        }
        let r = LLMContentKind::ToolResult {
            tool_call_id: block.text_at("tool_use_id").unwrap_or("").to_owned(),
            content: nested,
            is_error: block.bool_at("is_error"),
        };
        assert(r@ == (KindView::ToolResult {
            tool_call_id: or_text(block@.at("tool_use_id"@).text(), ""@),
            content: views(nested@),
            is_error: block@.at("is_error"@).truth(),
        }));
        r
    } else if same(kind, "thinking") {
        let summary: Vec<String> = Vec::new();
        assert(strings(summary@) =~= Seq::empty());
        LLMContentKind::Reasoning {
            text: own(block.text_at("thinking")),
            summary,
            signature: own(block.text_at("signature")),
            encrypted_content: None,
        }
    } else if same(kind, "redacted_thinking") {
        let summary: Vec<String> = Vec::new();
        assert(strings(summary@) =~= Seq::empty());
        LLMContentKind::Reasoning {
            text: None,
            summary,
            signature: None,
            encrypted_content: own(block.text_at("data")),
        }
    } else if same(kind, "refusal") {
        LLMContentKind::Refusal {
            refusal: either_str(block.text_at("text"), block.text_at("refusal")).unwrap_or(
                "",
            ).to_owned(),
        }
    } else {
        LLMContentKind::Raw { protocol: LLMProtocol::AnthropicMessages, value: block.clone() }
    }
}

pub(crate) fn anthropic_block_from_value(block: &Json) -> (r: LLMContent)
    ensures
        r@ == anthropic_block_of(block@),
    decreases block@,
{
    let nested: Vec<LLMContent> = match block.as_object() {
        Some(map) => {
            match map.get("content") {
                Some(content) => {
                    assert(decreases_to!(block@ => block@->Object_0["content"@]));
                    anthropic_content_from_value(content)
                },
                None => {
                    let none: Vec<LLMContent> = Vec::new();
                    assert(views(none@) =~= Seq::empty());
                    none
                },
            }
        },
        None => {
            let none: Vec<LLMContent> = Vec::new();
            assert(views(none@) =~= Seq::empty());
            none
        },
    };
    let known = [
        "type",
        "text",
        "source",
        "id",
        "name",
        "input",
        "tool_use_id",
        "content",
        "is_error",
        "thinking",
        "signature",
        "data",
        "citations",
    ];
    assert(texts(known@) =~= anthropic_block_keys());
    let metadata = block.fields_without(&known);
    let kind = anthropic_kind_from_value(block, nested);
    LLMContent { source: Some(LLMProtocol::AnthropicMessages), kind, metadata }
}

fn anthropic_content_from_value(value: &Json) -> (r: Vec<LLMContent>)
    ensures
        views(r@) == anthropic_content_of(value@),
    decreases value@,
{
    if let Some(text) = value.as_text() {
        return crate::model::text_content(text);
    }
    let mut out: Vec<LLMContent> = Vec::new();
    match value.as_array() {
        Some(blocks) => {
            let ghost all = views(blocks@);
            let mut i: usize = 0;
            while i < blocks.len()
                invariant
                    all == views(blocks@),
                    value@ == JsonView::Array(all),
                    i <= blocks@.len(),
                    out@.len() == i,
                    forall|j: int| 0 <= j < i ==> (#[trigger] out@[j])@ == anthropic_block_of(all[j]),
                decreases blocks@.len() - i,
            {
                assert(decreases_to!(value@ => value@->Array_0));
                assert(decreases_to!(all => all[i as int]));
                out.push(anthropic_block_from_value(&blocks[i]));
                i = i + 1;
            }
            assert(views(out@) =~= anthropic_content_of(value@));
        },
        None => {
            assert(views(out@) =~= anthropic_content_of(value@));
        },
    }
    out
}

/// The arguments of a call, as an object.
pub open spec fn call_input(arguments: JsonView) -> JsonView {
    match arguments {
        JsonView::Text(text) => match text_value(text) {
            Some(value) => value,
            None => object1("value"@, jtext(text)),
        },
        JsonView::Object(_) => arguments,
        _ => object1("value"@, arguments),
    }
}

fn normalize_tool_arguments(value: &Json) -> (r: Json)
    ensures
        r@ == call_input(value@),
{
    match value.as_text() {
        Some(text) => read_or(parse(text), json1("value", Json::text(text))),
        None => if value.is_object() {
            value.clone()
        } else {
            json1("value", value.clone())
        },
    }
}

/// The value of a file.
pub open spec fn anthropic_file_value(
    base: Fields,
    source: MediaView,
    filename: Option<Seq<char>>,
    media_type: Option<Seq<char>>,
) -> Result<JsonView, ErrorView> {
    match match media_type {
        Some(media_type) => with_field(
            anthropic_source_value(source),
            "media_type"@,
            jtext(media_type),
        ),
        None => Ok(anthropic_source_value(source)),
    } {
        Err(e) => Err(e),
        Ok(source) => Ok(
            JsonView::Object(
                with_text(
                    base.insert("type"@, jtext("document"@)).insert("source"@, source),
                    "title"@,
                    filename,
                ),
            ),
        ),
    }
}

/// The value of a thought.
pub open spec fn anthropic_thought_value(
    base: Fields,
    text: Option<Seq<char>>,
    signature: Option<Seq<char>>,
    encrypted: Option<Seq<char>>,
) -> JsonView {
    JsonView::Object(
        match encrypted {
            Some(data) => base.insert("type"@, jtext("redacted_thinking"@)).insert(
                "data"@,
                jtext(data),
            ),
            None => base.insert("type"@, jtext("thinking"@)).insert(
                "thinking"@,
                jtext(or_text(text, ""@)),
            ).insert("signature"@, jtext(or_text(signature, ""@))),
        },
    )
}

/// The value of a part.
pub open spec fn anthropic_block_value(c: ContentView, ids: IdsView) -> Result<JsonView, ErrorView>
    decreases c,
{
    let base = content_fields(c, anthropic());
    match c.kind {
        KindView::Text { text, annotations } => match try_map(
            annotations,
            anthropic_annotation_writer(),
        ) {
            Err(e) => Err(e),
            Ok(list) => Ok(
                JsonView::Object(
                    with_list(
                        base.insert("type"@, jtext("text"@)).insert("text"@, jtext(text)),
                        "citations"@,
                        list,
                    ),
                ),
            ),
        },
        KindView::Image { source, .. } => Ok(
            JsonView::Object(
                base.insert("type"@, jtext("image"@)).insert(
                    "source"@,
                    anthropic_source_value(source),
                ),
            ),
        ),
        KindView::File { source, filename, media_type } => anthropic_file_value(
            base,
            source,
            filename,
            media_type,
        ),
        KindView::ToolCall { id, name, arguments } => Ok(
            JsonView::Object(
                base.insert("type"@, jtext("tool_use"@)).insert(
                    "id"@,
                    jtext(or_text(id, "toolu_"@ + ids.call)),
                ).insert("name"@, jtext(name)).insert("input"@, call_input(arguments)),
            ),
        ),
        KindView::ToolResult { tool_call_id, content, is_error } => match if all_text(content) {
            Ok(jtext(texts_joined(content)))
        } else {
            match anthropic_blocks_value(content, ids) {
                Ok(list) => Ok(JsonView::Array(list)),
                Err(e) => Err::<JsonView, ErrorView>(e),
            }
        } {
            Err(e) => Err(e),
            Ok(body) => Ok(
                JsonView::Object(
                    with_truth(
                        base.insert("type"@, jtext("tool_result"@)).insert(
                            "tool_use_id"@,
                            jtext(tool_call_id),
                        ).insert("content"@, body),
                        "is_error"@,
                        is_error,
                    ),
                ),
            ),
        },
        KindView::Reasoning { text, signature, encrypted_content, .. } => Ok(
            anthropic_thought_value(base, text, signature, encrypted_content),
        ),
        KindView::Refusal { refusal } => Ok(
            JsonView::Object(base.insert("type"@, jtext("text"@)).insert("text"@, jtext(refusal))),
        ),
        KindView::Audio { .. } => Err(
            ErrorView::Unsupported("Anthropic Messages cannot represent audio content"@),
        ),
        KindView::Raw { protocol, value } => if protocol == anthropic() {
            Ok(value)
        } else {
            Err(
                cannot(
                    "Anthropic Messages cannot represent "@,
                    protocol,
                    " content block `"@,
                    raw_type(value),
                ),
            )
        },
    }
}

/// The values of parts.
pub open spec fn anthropic_blocks_value(s: Seq<ContentView>, ids: IdsView) -> Result<
    Seq<JsonView>,
    ErrorView,
>
    decreases s,
{
    if s.len() == 0 {
        Ok(Seq::empty())
    } else {
        match anthropic_blocks_value(s.drop_last(), ids) {
            Err(e) => Err(e),
            Ok(done) => match anthropic_block_value(s.last(), ids.at(s.len() - 1)) {
                Err(e) => Err(e),
                Ok(value) => Ok(done.push(value)),
            },
        }
    }
}

proof fn anthropic_blocks_fail(s: Seq<ContentView>, ids: IdsView, n: int)
    requires
        0 <= n <= s.len(),
        anthropic_blocks_value(s.take(n), ids) is Err,
    ensures
        anthropic_blocks_value(s, ids) == anthropic_blocks_value(s.take(n), ids),
    decreases s.len() - n,
{
    if n < s.len() {
        assert(s.take(n + 1).drop_last() =~= s.take(n));
        anthropic_blocks_fail(s, ids, n + 1);
    } else {
        assert(s.take(n) =~= s);
    }
}

fn file_to_value(
    base: JsonMap,
    source: &LLMMediaSource,
    filename: &Option<String>,
    media_type: &Option<String>,
) -> (r: Result<Json, AdapterError>)
    ensures
        outcome(r) == anthropic_file_value(
            base@,
            source@,
            opt_text(*filename),
            opt_text(*media_type),
        ),
{
    let mut value = base;
    value.put_text("type", "document");
    let mut source = anthropic_source_to_value(source);
    if let Some(media_type) = media_type {
        source = match set_field(source, "media_type", Json::text(media_type.as_str())) {
            Ok(source) => source,
            Err(e) => {
                return Err(e);
            },
        };
    }
    value.put("source", source);
    value.put_some_text("title", borrow(filename));
    Ok(Json::object(value))
}

fn thought_to_value(
    base: JsonMap,
    text: &Option<String>,
    signature: &Option<String>,
    encrypted: &Option<String>,
) -> (r: Json)
    ensures
        r@ == anthropic_thought_value(
            base@,
            opt_text(*text),
            opt_text(*signature),
            opt_text(*encrypted),
        ),
{
    let mut value = base;
    if let Some(data) = encrypted {
        value.put_text("type", "redacted_thinking");
        value.put_text("data", data.as_str());
    } else {
        value.put_text("type", "thinking");
        value.put_text("thinking", borrow(text).unwrap_or(""));
        value.put_text("signature", borrow(signature).unwrap_or(""));
    }
    Json::object(value)
}

pub(crate) fn anthropic_content_to_value(content: &LLMContent, ids: Option<&FreshIds>) -> (r:
    Result<Json, AdapterError>)
    ensures
        outcome(r) == anthropic_block_value(content@, opt_ids(ids)),
    decreases content,
{
    let mut value = content_extensions_for(content, LLMProtocol::AnthropicMessages);
    match &content.kind {
        LLMContentKind::Text { text, annotations } => {
            value.put_text("type", "text");
            value.put_text("text", text.as_str());
            match annotations_to_anthropic(annotations.as_slice()) {
                Ok(list) => {
                    if list.len() > 0 {
                        value.put_array("citations", list);
                    }
                },
                Err(e) => {
                    return Err(e);
                },
            }
        },
        LLMContentKind::Image { source, .. } => {
            value.put_text("type", "image");
            value.put("source", anthropic_source_to_value(source));
        },
        LLMContentKind::File { source, filename, media_type } => {
            return file_to_value(value, source, filename, media_type);
        },
        LLMContentKind::ToolCall { id, name, arguments } => {
            value.put_text("type", "tool_use");
            value.put_text("id", or_fresh(id, "toolu_", call_id(ids)).as_str());
            value.put_text("name", name.as_str());
            value.put("input", normalize_tool_arguments(arguments));
        },
        LLMContentKind::ToolResult { tool_call_id, content: parts, is_error } => {
            proof {
                content_views_are_views(parts@);
                assert(content.kind@ == (KindView::ToolResult {
                    tool_call_id: tool_call_id@,
                    content: views(parts@),
                    is_error: *is_error,
                }));
                assert(content@.kind == content.kind@);
            }
            value.put_text("type", "tool_result");
            value.put_text("tool_use_id", tool_call_id.as_str());
            if is_all_text(parts.as_slice()) {
                value.put_text("content", joined_text(parts.as_slice()).as_str());
            } else {
                assert(decreases_to!(content => parts@));
                match anthropic_contents_to_value(parts, ids) {
                    Ok(list) => {
                        value.put_array("content", list);
                    },
                    Err(e) => {
                        return Err(e);
                    },
                }
            }
            value.put_some_bool("is_error", *is_error);
        },
        LLMContentKind::Reasoning { text, signature, encrypted_content, .. } => {
            return Ok(thought_to_value(value, text, signature, encrypted_content));
        },
        LLMContentKind::Refusal { refusal } => {
            value.put_text("type", "text");
            value.put_text("text", refusal.as_str());
        },
        LLMContentKind::Audio { .. } => {
            return Err(
                AdapterError::Unsupported(
                    "Anthropic Messages cannot represent audio content".to_owned(),
                ),
            );
        },
        LLMContentKind::Raw { protocol, value: raw } => {
            if *protocol == LLMProtocol::AnthropicMessages {
                return Ok(raw.clone());
            }
            return Err(
                cannot_represent(
                    "Anthropic Messages cannot represent ",
                    *protocol,
                    " content block `",
                    raw.text_at("type").unwrap_or("unknown"),
                ),
            );
        },
    }
    Ok(Json::object(value))
}

fn anthropic_contents_to_value(content: &Vec<LLMContent>, ids: Option<&FreshIds>) -> (r: Result<
    Vec<Json>,
    AdapterError,
>)
    ensures
        outcomes(r) == anthropic_blocks_value(views(content@), opt_ids(ids)),
    decreases content@,
{
    let ghost all = views(content@);
    let ghost named = opt_ids(ids);
    let mut out: Vec<Json> = Vec::new();
    let mut i: usize = 0;
    assert(all.take(0) =~= Seq::empty());
    assert(views(out@) =~= Seq::empty());
    while i < content.len()
        invariant
            all == views(content@),
            named == opt_ids(ids),
            i <= content@.len(),
            anthropic_blocks_value(all.take(i as int), named) == Ok::<Seq<JsonView>, ErrorView>(
                views(out@),
            ),
        decreases content@.len() - i,
    {
        assert(all.take(i + 1).drop_last() =~= all.take(i as int));
        assert(all.take(i + 1).last() == content@[i as int]@);
        let ghost done = views(out@);
        assert(decreases_to!(content@ => content@[i as int]));
        match anthropic_content_to_value(&content[i], ids_at(ids, i)) {
            Ok(value) => {
                out.push(value);
                assert(views(out@) =~= done.push(value@));
            },
            Err(e) => {
                proof {
                    anthropic_blocks_fail(all, named, i + 1);
                }
                return Err(e);
            },
        }
        i = i + 1;
    }
    assert(all.take(i as int) =~= all);
    Ok(out)
}

/// A message of the format's own.
pub open spec fn anthropic_message(
    role: LLMRole,
    content: Seq<ContentView>,
    metadata: Fields,
) -> MessageView {
    MessageView { source: Some(anthropic()), role, content, name: None, metadata }
}

/// The message that an item of the conversation is.
pub open spec fn anthropic_message_of(item: JsonView) -> MessageView {
    anthropic_message(
        if or_text(item.at("role"@).text(), "user"@) == "assistant"@ {
            LLMRole::Assistant
        } else {
            LLMRole::User
        },
        anthropic_content_of(item.at("content"@)),
        without(item.fields_or_none(), seq!["role"@, "content"@]),
    )
}

/// `anthropic_message_of`.
pub open spec fn anthropic_message_reader() -> spec_fn(JsonView) -> MessageView {
    |item: JsonView| anthropic_message_of(item)
}

/// The messages of a request: its system prompt, then its conversation.
pub open spec fn anthropic_messages_of(value: JsonView) -> Result<Seq<MessageView>, ErrorView> {
    match value.at("messages"@).items() {
        None => Err(ErrorView::MissingField("messages"@)),
        Some(items) => Ok(
            (match not_null(value.field("system"@)) {
                Some(system) => seq![
                    anthropic_message(
                        LLMRole::System,
                        anthropic_content_of(system),
                        no_fields(),
                    ),
                ],
                None => Seq::empty(),
            }) + items.map_values(anthropic_message_reader()),
        ),
    }
}

fn anthropic_message_from_value(item: &Json) -> (r: LLMMessage)
    ensures
        r@ == anthropic_message_of(item@),
{
    let role = if same(item.text_at("role").unwrap_or("user"), "assistant") {
        LLMRole::Assistant
    } else {
        LLMRole::User
    };
    let known = ["role", "content"];
    assert(texts(known@) =~= seq!["role"@, "content"@]);
    LLMMessage {
        source: Some(LLMProtocol::AnthropicMessages),
        role,
        content: anthropic_content_from_value(item.at("content")),
        name: None,
        metadata: item.fields_without(&known),
    }
}

fn anthropic_messages(value: &Json) -> (r: Result<Vec<LLMMessage>, AdapterError>)
    ensures
        outcomes(r) == anthropic_messages_of(value@),
{
    let items = match value.array_at("messages") {
        Some(items) => items,
        None => {
            return Err(AdapterError::MissingField("messages"));
        },
    };
    let mut messages: Vec<LLMMessage> = Vec::new();
    assert(views(messages@) =~= Seq::empty());
    if let Some(system) = present_at(value, "system") {
        let first = LLMMessage {
            source: Some(LLMProtocol::AnthropicMessages),
            role: LLMRole::System,
            content: anthropic_content_from_value(system),
            name: None,
            metadata: JsonMap::new(),
        };
        messages.push(first);
        assert(views(messages@) =~= seq![first@]);
    }
    let ghost head = views(messages@);
    let mut rest = crate::seqs::map_each(
        items.as_slice(),
        anthropic_message_from_value,
        Ghost(anthropic_message_reader()),
    );
    let ghost tail = views(rest@);
    messages.append(&mut rest);
    assert(views(messages@) =~= head + tail);
    Ok(messages)
}

/// What the request says of reasoning.
pub open spec fn anthropic_reasoning_of(value: JsonView) -> Result<Option<JsonView>, ErrorView> {
    match (value.field("thinking"@), value.at("output_config"@).field("effort"@)) {
        (Some(thinking), Some(effort)) => match with_field(thinking, "effort"@, effort) {
            Ok(thinking) => Ok(Some(thinking)),
            Err(e) => Err(e),
        },
        (Some(thinking), None) => Ok(Some(thinking)),
        (None, Some(effort)) => Ok(Some(object1("effort"@, effort))),
        (None, None) => Ok(None),
    }
}

fn anthropic_reasoning(value: &Json) -> (r: Result<Option<Json>, AdapterError>)
    ensures
        match r {
            Ok(o) => anthropic_reasoning_of(value@) == Ok::<Option<JsonView>, ErrorView>(
                opt_view(o),
            ),
            Err(e) => anthropic_reasoning_of(value@) == Err::<Option<JsonView>, ErrorView>(e@),
        },
{
    let effort = value.at("output_config").get("effort");
    match value.get("thinking") {
        Some(thinking) => match effort {
            Some(effort) => match set_field(thinking.clone(), "effort", effort.clone()) {
                Ok(thinking) => Ok(Some(thinking)),
                Err(e) => Err(e),
            },
            None => Ok(Some(thinking.clone())),
        },
        None => match effort {
            Some(effort) => Ok(Some(json1("effort", effort.clone()))),
            None => Ok(None),
        },
    }
}

/// The choice of tools that a value is.
pub open spec fn anthropic_choice_of(value: Option<JsonView>) -> Option<ToolChoiceView> {
    match value {
        None => None,
        Some(v) => {
            let kind = v.at("type"@).text();
            if kind == Some("auto"@) {
                Some(ToolChoiceView::Auto)
            } else if kind == Some("none"@) {
                Some(ToolChoiceView::NoTools)
            } else if kind == Some("any"@) {
                Some(ToolChoiceView::Required)
            } else if kind == Some("tool"@) {
                match v.at("name"@).text() {
                    Some(name) => Some(ToolChoiceView::Function { name }),
                    None => None,
                }
            } else {
                Some(ToolChoiceView::Raw { value: v })
            }
        },
    }
}

fn parse_anthropic_tool_choice(value: Option<&Json>) -> (r: Option<LLMToolChoice>)
    ensures
        opt_choice(r) == anthropic_choice_of(opt_ref(value)),
{
    let value = match value {
        Some(value) => value,
        None => {
            return None;
        },
    };
    let kind = value.text_at("type");
    if equals(kind, "auto") {
        Some(LLMToolChoice::Auto)
    } else if equals(kind, "none") {
        Some(LLMToolChoice::NoTools)
    } else if equals(kind, "any") {
        Some(LLMToolChoice::Required)
    } else if equals(kind, "tool") {
        match value.text_at("name") {
            Some(name) => Some(LLMToolChoice::Function { name: name.to_owned() }),
            None => None,
        }
    } else {
        Some(LLMToolChoice::Raw { value: value.clone() })
    }
}

/// The value of a choice of tools.
pub open spec fn anthropic_choice_value(choice: ToolChoiceView) -> JsonView {
    match choice {
        ToolChoiceView::Auto => object1("type"@, jtext("auto"@)),
        ToolChoiceView::NoTools => object1("type"@, jtext("none"@)),
        ToolChoiceView::Required => object1("type"@, jtext("any"@)),
        ToolChoiceView::Function { name } => object2(
            "type"@,
            jtext("tool"@),
            "name"@,
            jtext(name),
        ),
        ToolChoiceView::Raw { value } => value,
    }
}

fn anthropic_tool_choice_to_value(choice: &LLMToolChoice) -> (r: Json)
    ensures
        r@ == anthropic_choice_value(choice@),
{
    match choice {
        LLMToolChoice::Auto => json1("type", Json::text("auto")),
        LLMToolChoice::NoTools => json1("type", Json::text("none")),
        LLMToolChoice::Required => json1("type", Json::text("any")),
        LLMToolChoice::Function { name } => json2(
            "type",
            Json::text("tool"),
            "name",
            Json::text(name.as_str()),
        ),
        LLMToolChoice::Raw { value } => value.clone(),
    }
}

/// The fields of a request that the neutral form names.
pub open spec fn anthropic_request_keys() -> Seq<Seq<char>> {
    seq![
        "model"@,
        "messages"@,
        "system"@,
        "temperature"@,
        "max_tokens"@,
        "top_p"@,
        "stop_sequences"@,
        "stream"@,
        "tools"@,
        "tool_choice"@,
        "output_config"@,
        "output_format"@,
        "thinking"@,
        "metadata"@,
    ]
}

/// The request that a value is.
pub open spec fn anthropic_request_of(value: JsonView) -> Result<RequestView, ErrorView> {
    match value.at("model"@).text() {
        None => Err(ErrorView::MissingField("model"@)),
        Some(model) => match anthropic_messages_of(value) {
            Err(e) => Err(e),
            Ok(messages) => match anthropic_reasoning_of(value) {
                Err(e) => Err(e),
                Ok(reasoning) => match tools_of(value.at("tools"@), ToolDialect::Anthropic) {
                    Err(e) => Err(e),
                    Ok(tools) => Ok(
                        RequestView {
                            source: anthropic(),
                            model,
                            messages,
                            temperature: double_of(value.at("temperature"@)),
                            max_tokens: value.at("max_tokens"@).uint(),
                            top_p: double_of(value.at("top_p"@)),
                            stop: value.field("stop_sequences"@),
                            stream: or_false(value.at("stream"@).truth()),
                            tools,
                            tool_choice: anthropic_choice_of(value.field("tool_choice"@)),
                            parallel_tool_calls: match value.at("tool_choice"@).at(
                                "disable_parallel_tool_use"@,
                            ).truth() {
                                Some(disabled) => Some(!disabled),
                                None => None,
                            },
                            response_format: match value.at("output_config"@).field("format"@) {
                                Some(format) => Some(format),
                                None => value.field("output_format"@),
                            },
                            reasoning,
                            metadata: value.at("metadata"@).fields_or_none(),
                            extra: without(value.fields_or_none(), anthropic_request_keys()),
                        },
                    ),
                },
            },
        },
    }
}

/// The request that a value is.
pub fn read_request(value: &Json) -> (r: Result<LLMRequest, AdapterError>)
    ensures
        outcome(r) == anthropic_request_of(value@),
{
    let model = match value.text_at("model") {
        Some(model) => model.to_owned(),
        None => {
            return Err(AdapterError::MissingField("model"));
        },
    };
    let messages = match anthropic_messages(value) {
        Ok(messages) => messages,
        Err(e) => {
            return Err(e);
        },
    };
    let reasoning = match anthropic_reasoning(value) {
        Ok(reasoning) => reasoning,
        Err(e) => {
            return Err(e);
        },
    };
    let tools = match tools_from_anthropic(value.at("tools")) {
        Ok(tools) => tools,
        Err(e) => {
            return Err(e);
        },
    };
    let response_format = match value.at("output_config").get("format") {
        Some(format) => Some(format.clone()),
        None => copy_opt(value.get("output_format")),
    };
    let parallel = match value.at("tool_choice").bool_at("disable_parallel_tool_use") {
        Some(disabled) => Some(!disabled),
        None => None,
    };
    let known = [
        "model",
        "messages",
        "system",
        "temperature",
        "max_tokens",
        "top_p",
        "stop_sequences",
        "stream",
        "tools",
        "tool_choice",
        "output_config",
        "output_format",
        "thinking",
        "metadata",
    ];
    assert(texts(known@) =~= anthropic_request_keys());
    Ok(
        LLMRequest {
            source: LLMProtocol::AnthropicMessages,
            model,
            messages,
            temperature: double(value.at("temperature")),
            max_tokens: value.uint_at("max_tokens"),
            top_p: double(value.at("top_p")),
            stop: copy_opt(value.get("stop_sequences")),
            stream: value.bool_at("stream").unwrap_or(false),
            tools,
            tool_choice: parse_anthropic_tool_choice(value.get("tool_choice")),
            parallel_tool_calls: parallel,
            response_format,
            reasoning,
            metadata: value.at("metadata").fields(),
            extra: value.fields_without(&known),
        },
    )
}

/// The blocks of one turn of a conversation, and whose turn it is.
#[verifier::ext_equal]
pub struct TurnView {
    pub assistant: bool,
    pub blocks: Seq<JsonView>,
}

/// The system prompt and the turns of a conversation.
#[verifier::ext_equal]
pub struct Conversation {
    pub system: Seq<JsonView>,
    pub turns: Seq<TurnView>,
}

/// The conversation with the blocks of one more message. Two neighbours of one side become one
/// turn.
pub open spec fn with_message(c: Conversation, role: LLMRole, blocks: Seq<JsonView>)
    -> Conversation {
    let assistant = role == LLMRole::Assistant;
    if role == LLMRole::System || role == LLMRole::Developer {
        Conversation { system: c.system + blocks, ..c }
    } else if c.turns.len() > 0 && c.turns.last().assistant == assistant {
        Conversation {
            turns: c.turns.update(
                c.turns.len() - 1,
                TurnView { assistant, blocks: c.turns.last().blocks + blocks },
            ),
            ..c
        }
    } else {
        Conversation { turns: c.turns.push(TurnView { assistant, blocks }), ..c }
    }
}

/// The conversation of messages.
pub open spec fn conversation_of(messages: Seq<MessageView>, ids: IdsView) -> Result<
    Conversation,
    ErrorView,
>
    decreases messages.len(),
{
    if messages.len() == 0 {
        Ok(Conversation { system: Seq::empty(), turns: Seq::empty() })
    } else {
        match conversation_of(messages.drop_last(), ids) {
            Err(e) => Err(e),
            Ok(done) => match anthropic_blocks_value(
                messages.last().content,
                ids.at(messages.len() - 1),
            ) {
                Err(e) => Err(e),
                Ok(blocks) => Ok(with_message(done, messages.last().role, blocks)),
            },
        }
    }
}

proof fn conversation_fails(messages: Seq<MessageView>, ids: IdsView, n: int)
    requires
        0 <= n <= messages.len(),
        conversation_of(messages.take(n), ids) is Err,
    ensures
        conversation_of(messages, ids) == conversation_of(messages.take(n), ids),
    decreases messages.len() - n,
{
    if n < messages.len() {
        assert(messages.take(n + 1).drop_last() =~= messages.take(n));
        conversation_fails(messages, ids, n + 1);
    } else {
        assert(messages.take(n) =~= messages);
    }
}

/// The value of a turn.
pub open spec fn turn_value(t: TurnView) -> JsonView {
    object2(
        "role"@,
        jtext(
            if t.assistant {
                "assistant"@
            } else {
                "user"@
            },
        ),
        "content"@,
        JsonView::Array(t.blocks),
    )
}

/// `turn_value`.
pub open spec fn turn_writer() -> spec_fn(TurnView) -> JsonView {
    |t: TurnView| turn_value(t)
}

/// One turn of a conversation.
pub struct Turn {
    pub assistant: bool,
    pub blocks: Vec<Json>,
}

impl View for Turn {
    type V = TurnView;

    open spec fn view(&self) -> TurnView {
        TurnView { assistant: self.assistant, blocks: views(self.blocks@) }
    }
}

fn turn_to_value(turn: &Turn) -> (r: Json)
    ensures
        r@ == turn_value(turn@),
{
    json2(
        "role",
        Json::text(
            if turn.assistant {
                "assistant"
            } else {
                "user"
            },
        ),
        "content",
        Json::array(crate::json::copy_all(&turn.blocks)),
    )
}

fn add_message(
    system: &mut Vec<Json>,
    turns: &mut Vec<Turn>,
    role: LLMRole,
    blocks: Vec<Json>,
)
    ensures
        (Conversation { system: views(final(system)@), turns: views(final(turns)@) })
            == with_message(
            Conversation { system: views(old(system)@), turns: views(old(turns)@) },
            role,
            views(blocks@),
        ),
{
    let ghost added = views(blocks@);
    let ghost old_system = views(system@);
    let ghost old_turns = views(turns@);
    let mut blocks = blocks;
    if role == LLMRole::System || role == LLMRole::Developer {
        system.append(&mut blocks);
        assert(views(system@) =~= old_system + added);
        return;
    }
    let assistant = role == LLMRole::Assistant;
    match turns.pop() {
        Some(mut last) => {
            assert(last@ == old_turns.last());
            if last.assistant == assistant {
                let ghost before = views(last.blocks@);
                last.blocks.append(&mut blocks);
                assert(views(last.blocks@) =~= before + added);
                turns.push(last);
                assert(views(turns@) =~= old_turns.update(
                    old_turns.len() - 1,
                    TurnView { assistant, blocks: old_turns.last().blocks + added },
                ));
            } else {
                turns.push(last);
                turns.push(Turn { assistant, blocks });
                assert(views(turns@) =~= old_turns.push(TurnView { assistant, blocks: added }));
            }
        },
        None => {
            turns.push(Turn { assistant, blocks });
            assert(views(turns@) =~= old_turns.push(TurnView { assistant, blocks: added }));
        },
    }
}

fn anthropic_messages_to_value(messages: &Vec<LLMMessage>, ids: Option<&FreshIds>) -> (r: Result<
    (Vec<Json>, Vec<Json>),
    AdapterError,
>)
    ensures
        match r {
            Ok((system, output)) => conversation_of(views(messages@), opt_ids(ids)) matches Ok(c)
                && views(system@) == c.system && views(output@) == c.turns.map_values(
                turn_writer(),
            ),
            Err(e) => conversation_of(views(messages@), opt_ids(ids)) == Err::<
                Conversation,
                ErrorView,
            >(e@),
        },
{
    let ghost all = views(messages@);
    let ghost named = opt_ids(ids);
    let mut system: Vec<Json> = Vec::new();
    let mut turns: Vec<Turn> = Vec::new();
    let mut i: usize = 0;
    assert(all.take(0) =~= Seq::empty());
    assert(views(system@) =~= Seq::empty());
    assert(views(turns@) =~= Seq::empty());
    while i < messages.len()
        invariant
            all == views(messages@),
            named == opt_ids(ids),
            i <= messages@.len(),
            conversation_of(all.take(i as int), named) == Ok::<Conversation, ErrorView>(
                Conversation { system: views(system@), turns: views(turns@) },
            ),
        decreases messages@.len() - i,
    {
        assert(all.take(i + 1).drop_last() =~= all.take(i as int));
        assert(all.take(i + 1).last() == messages@[i as int]@);
        match anthropic_contents_to_value(&messages[i].content, ids_at(ids, i)) {
            Ok(blocks) => {
                add_message(&mut system, &mut turns, messages[i].role, blocks);
            },
            Err(e) => {
                proof {
                    conversation_fails(all, named, i + 1);
                }
                return Err(e);
            },
        }
        i = i + 1;
    }
    assert(all.take(i as int) =~= all);
    let output = crate::seqs::map_each(turns.as_slice(), turn_to_value, Ghost(turn_writer()));
    Ok((system, output))
}

/// The texts that end a generation, as a list.
pub open spec fn stop_value(stop: JsonView) -> JsonView {
    match stop {
        JsonView::Array(_) => stop,
        JsonView::Text(text) => array1(jtext(text)),
        _ => array0(),
    }
}

fn normalize_stop_sequences(value: &Json) -> (r: Json)
    ensures
        r@ == stop_value(value@),
{
    match value.as_array() {
        Some(_) => value.clone(),
        None => match value.as_text() {
            Some(text) => json_array1(Json::text(text)),
            None => json_array0(),
        },
    }
}

/// The text at a field of extensions.
pub open spec fn text_in(m: Fields, key: Seq<char>) -> Option<Seq<char>> {
    match lookup(m, key) {
        Some(v) => v.text(),
        None => None,
    }
}

fn text_in_map<'a>(m: &'a JsonMap, key: &str) -> (r: Option<&'a str>)
    ensures
        opt_str(r) == text_in(m@, key@),
{
    match m.get(key) {
        Some(v) => v.as_text(),
        None => None,
    }
}

/// The user of a request.
pub open spec fn anthropic_user(r: RequestView) -> Option<Seq<char>> {
    either(
        either(text_in(r.metadata, "user_id"@), text_in(r.extra, "user"@)),
        text_in(r.extra, "safety_identifier"@),
    )
}

/// What a request says of thinking.
pub open spec fn thinking_value(reasoning: JsonView, source: LLMProtocol) -> JsonView {
    if source == anthropic() {
        match reasoning {
            JsonView::Object(m) => JsonView::Object(m.remove("effort"@)),
            _ => reasoning,
        }
    } else if reasoning.at("effort"@).text() == Some("none"@) {
        object1("type"@, jtext("disabled"@))
    } else {
        object1("type"@, jtext("adaptive"@))
    }
}

fn thinking_to_value(reasoning: &Json, source: LLMProtocol) -> (r: Json)
    ensures
        r@ == thinking_value(reasoning@, source),
{
    if source == LLMProtocol::AnthropicMessages {
        match reasoning.as_object() {
            Some(m) => {
                let mut m = m.clone();
                m.remove("effort");
                Json::object(m)
            },
            None => reasoning.clone(),
        }
    } else if equals(reasoning.text_at("effort"), "none") {
        json1("type", Json::text("disabled"))
    } else {
        json1("type", Json::text("adaptive"))
    }
}

/// What a request says of its output.
pub open spec fn output_config(r: RequestView) -> Fields {
    with_some(
        with_some(no_fields(), "format"@, r.response_format),
        "effort"@,
        match r.reasoning {
            Some(reasoning) => reasoning.field("effort"@),
            None => None,
        },
    )
}

/// `m` with what is said of thinking, where that is an object with fields.
pub open spec fn with_thinking(m: Fields, r: RequestView) -> Fields {
    match r.reasoning {
        Some(reasoning) => {
            let thinking = thinking_value(reasoning, r.source);
            if thinking is Object && thinking.fields_or_none() != no_fields() {
                m.insert("thinking"@, thinking)
            } else {
                m
            }
        },
        None => m,
    }
}

/// The choice of tools of a request.
pub open spec fn request_choice_value(r: RequestView) -> Result<Option<JsonView>, ErrorView> {
    match r.tool_choice {
        None => Ok(None),
        Some(choice) => match r.parallel_tool_calls {
            None => Ok(Some(anthropic_choice_value(choice))),
            Some(parallel) => match with_field(
                anthropic_choice_value(choice),
                "disable_parallel_tool_use"@,
                JsonView::Bool(!parallel),
            ) {
                Ok(value) => Ok(Some(value)),
                Err(e) => Err(e),
            },
        },
    }
}

fn request_choice(request: &LLMRequest) -> (r: Result<Option<Json>, AdapterError>)
    ensures
        match r {
            Ok(o) => request_choice_value(request@) == Ok::<Option<JsonView>, ErrorView>(
                opt_view(o),
            ),
            Err(e) => request_choice_value(request@) == Err::<Option<JsonView>, ErrorView>(e@),
        },
{
    match &request.tool_choice {
        None => Ok(None),
        Some(choice) => {
            let value = anthropic_tool_choice_to_value(choice);
            match request.parallel_tool_calls {
                None => Ok(Some(value)),
                Some(parallel) => {
                    match set_field(value, "disable_parallel_tool_use", Json::bool(!parallel)) {
                        Ok(value) => Ok(Some(value)),
                        Err(e) => Err(e),
                    }
                },
            }
        },
    }
}

/// What a request passes through, with the service tier by its name in the format.
pub open spec fn anthropic_passed(r: RequestView) -> Fields {
    let m = selected(r.extra, anthropic_extra_fields());
    match text_in(r.extra, "service_tier"@) {
        Some(tier) => m.insert(
            "service_tier"@,
            jtext(
                if tier == "standard_only"@ {
                    "standard_only"@
                } else {
                    "auto"@
                },
            ),
        ),
        None => m,
    }
}

fn anthropic_pass(request: &LLMRequest) -> (r: JsonMap)
    ensures
        r@ == anthropic_passed(request@),
{
    let names = [
        "container",
        "context_management",
        "inference_geo",
        "mcp_servers",
        "service_tier",
        "speed",
        "top_k",
    ];
    assert(texts(names@) =~= anthropic_extra_fields());
    let mut value = request.extra.selected(&names);
    if let Some(tier) = text_in_map(&request.extra, "service_tier") {
        value.put_text(
            "service_tier",
            if same(tier, "standard_only") {
                "standard_only"
            } else {
                "auto"
            },
        );
    }
    value
}

/// The value of a request, once its conversation, its tools and its choice of tools have theirs.
pub open spec fn anthropic_request_fields(
    r: RequestView,
    c: Conversation,
    tools: Seq<JsonView>,
    choice: Option<JsonView>,
) -> Fields {
    let v = anthropic_passed(r);
    let v = v.insert("model"@, jtext(r.model));
    let v = v.insert("messages"@, JsonView::Array(c.turns.map_values(turn_writer())));
    let v = v.insert(
        "max_tokens"@,
        jint(
            match r.max_tokens {
                Some(n) => n,
                None => 1024,
            },
        ),
    );
    let v = v.insert("stream"@, JsonView::Bool(r.stream));
    let v = with_list(v, "system"@, c.system);
    let v = with_float(v, "temperature"@, r.temperature);
    let v = with_float(v, "top_p"@, r.top_p);
    let v = match r.stop {
        Some(stop) => v.insert("stop_sequences"@, stop_value(stop)),
        None => v,
    };
    let v = with_list(v, "tools"@, tools);
    let v = with_some(v, "tool_choice"@, choice);
    let v = with_thinking(v, r);
    let v = with_nonempty(v, "output_config"@, output_config(r));
    match anthropic_user(r) {
        Some(user) => v.insert("metadata"@, object1("user_id"@, jtext(user))),
        None => v,
    }
}

/// The value of a request.
pub open spec fn anthropic_request_value(r: RequestView, ids: IdsView) -> Result<
    JsonView,
    ErrorView,
> {
    match extras_outcome(r, anthropic(), anthropic_accepted_fields()) {
        Err(e) => Err(e),
        Ok(_) => match conversation_of(r.messages, ids) {
            Err(e) => Err(e),
            Ok(c) => match tools_value(r.tools, ToolDialect::Anthropic) {
                Err(e) => Err(e),
                Ok(tools) => match request_choice_value(r) {
                    Err(e) => Err(e),
                    Ok(choice) => Ok(
                        JsonView::Object(anthropic_request_fields(r, c, tools, choice)),
                    ),
                },
            },
        },
    }
}

/// The value of a request, with the given identifiers where the format wants one that the request
/// does not have.
pub fn write_request(request: &LLMRequest, ids: Option<&FreshIds>) -> (r: Result<
    Json,
    AdapterError,
>)
    ensures
        outcome(r) == anthropic_request_value(request@, opt_ids(ids)),
{
    let accepted = [
        "container",
        "context_management",
        "inference_geo",
        "mcp_servers",
        "service_tier",
        "speed",
        "top_k",
        "user",
        "safety_identifier",
        "include",
        "prompt_cache_key",
        "prompt_cache_retention",
        "stream_options",
        "verbosity",
    ];
    assert(texts(accepted@) =~= anthropic_accepted_fields());
    match validate_request_extras(request, LLMProtocol::AnthropicMessages, &accepted) {
        Ok(_) => {},
        Err(e) => {
            return Err(e);
        },
    }
    let (system, messages) = match anthropic_messages_to_value(&request.messages, ids) {
        Ok(conversation) => conversation,
        Err(e) => {
            return Err(e);
        },
    };
    let tools = match tools_to_anthropic(request.tools.as_slice()) {
        Ok(tools) => tools,
        Err(e) => {
            return Err(e);
        },
    };
    let choice = match request_choice(request) {
        Ok(choice) => choice,
        Err(e) => {
            return Err(e);
        },
    };
    let ghost c = conversation_of(request@.messages, opt_ids(ids))->Ok_0;
    Ok(Json::object(write_request_fields(request, system, messages, tools, choice, Ghost(c))))
}

fn write_request_fields(
    request: &LLMRequest,
    system: Vec<Json>,
    messages: Vec<Json>,
    tools: Vec<Json>,
    choice: Option<Json>,
    Ghost(c): Ghost<Conversation>,
) -> (r: JsonMap)
    requires
        views(system@) == c.system,
        views(messages@) == c.turns.map_values(turn_writer()),
    ensures
        r@ == anthropic_request_fields(request@, c, views(tools@), opt_view(choice)),
{
    let mut value = anthropic_pass(request);
    value.put_text("model", request.model.as_str());
    value.put_array("messages", messages);
    value.put_uint("max_tokens", request.max_tokens.unwrap_or(1024));
    value.put_bool("stream", request.stream);
    if system.len() > 0 {
        value.put_array("system", system);
    }
    value.put_some_float("temperature", &request.temperature);
    value.put_some_float("top_p", &request.top_p);
    if let Some(stop) = &request.stop {
        value.put("stop_sequences", normalize_stop_sequences(stop));
    }
    if tools.len() > 0 {
        value.put_array("tools", tools);
    }
    value.put_some("tool_choice", choice.as_ref());
    let mut config = JsonMap::new();
    config.put_some("format", request.response_format.as_ref());
    if let Some(reasoning) = &request.reasoning {
        config.put_some("effort", reasoning.get("effort"));
        let thinking = thinking_to_value(reasoning, request.source);
        let filled = match thinking.as_object() {
            Some(fields) => !fields.is_empty(),
            None => false,
        };
        if filled {
            value.put("thinking", thinking);
        }
    }
    if !config.is_empty() {
        value.put_object("output_config", config);
    }
    let user = either_str(
        either_str(
            text_in_map(&request.metadata, "user_id"),
            text_in_map(&request.extra, "user"),
        ),
        text_in_map(&request.extra, "safety_identifier"),
    );
    if let Some(user) = user {
        value.put("metadata", json1("user_id", Json::text(user)));
    }
    value
}

/// Why the model stopped, by the format's name for it.
pub open spec fn anthropic_reason_of(reason: Seq<char>) -> LLMFinishReason {
    if reason == "end_turn"@ {
        LLMFinishReason::EndTurn
    } else if reason == "max_tokens"@ {
        LLMFinishReason::MaxTokens
    } else if reason == "stop_sequence"@ {
        LLMFinishReason::StopSequence
    } else if reason == "tool_use"@ {
        LLMFinishReason::ToolUse
    } else if reason == "pause_turn"@ {
        LLMFinishReason::PauseTurn
    } else if reason == "refusal"@ {
        LLMFinishReason::Refusal
    } else if reason == "model_context_window_exceeded"@ {
        LLMFinishReason::ContextLimit
    } else {
        LLMFinishReason::Unknown
    }
}

/// Why the model stopped, by the format's name for it.
pub fn parse_anthropic_finish_reason(reason: &str) -> (r: LLMFinishReason)
    ensures
        r == anthropic_reason_of(reason@),
{
    if same(reason, "end_turn") {
        LLMFinishReason::EndTurn
    } else if same(reason, "max_tokens") {
        LLMFinishReason::MaxTokens
    } else if same(reason, "stop_sequence") {
        LLMFinishReason::StopSequence
    } else if same(reason, "tool_use") {
        LLMFinishReason::ToolUse
    } else if same(reason, "pause_turn") {
        LLMFinishReason::PauseTurn
    } else if same(reason, "refusal") {
        LLMFinishReason::Refusal
    } else if same(reason, "model_context_window_exceeded") {
        LLMFinishReason::ContextLimit
    } else {
        LLMFinishReason::Unknown
    }
}

/// The format's name for why the model stopped.
pub open spec fn anthropic_reason_text(reason: LLMFinishReason) -> Seq<char> {
    match reason {
        LLMFinishReason::Length => "max_tokens"@,
        LLMFinishReason::MaxTokens => "max_tokens"@,
        LLMFinishReason::Incomplete => "max_tokens"@,
        LLMFinishReason::ToolCalls => "tool_use"@,
        LLMFinishReason::ToolUse => "tool_use"@,
        LLMFinishReason::FunctionCall => "tool_use"@,
        LLMFinishReason::StopSequence => "stop_sequence"@,
        LLMFinishReason::PauseTurn => "pause_turn"@,
        LLMFinishReason::Refusal => "refusal"@,
        LLMFinishReason::ContentFilter => "refusal"@,
        LLMFinishReason::ContextLimit => "model_context_window_exceeded"@,
        _ => "end_turn"@,
    }
}

/// The value for why the model stopped.
pub fn anthropic_finish_reason_to_value(reason: LLMFinishReason) -> (r: Json)
    ensures
        r@ == jtext(anthropic_reason_text(reason)),
{
    match reason {
        LLMFinishReason::Length => Json::text("max_tokens"),
        LLMFinishReason::MaxTokens => Json::text("max_tokens"),
        LLMFinishReason::Incomplete => Json::text("max_tokens"),
        LLMFinishReason::ToolCalls => Json::text("tool_use"),
        LLMFinishReason::ToolUse => Json::text("tool_use"),
        LLMFinishReason::FunctionCall => Json::text("tool_use"),
        LLMFinishReason::StopSequence => Json::text("stop_sequence"),
        LLMFinishReason::PauseTurn => Json::text("pause_turn"),
        LLMFinishReason::Refusal => Json::text("refusal"),
        LLMFinishReason::ContentFilter => Json::text("refusal"),
        LLMFinishReason::ContextLimit => Json::text("model_context_window_exceeded"),
        _ => Json::text("end_turn"),
    }
}

/// The consumption that a value is.
pub open spec fn anthropic_usage_of(value: JsonView) -> Option<UsageView> {
    let input = value.at("input_tokens"@).uint();
    let output = value.at("output_tokens"@).uint();
    match value {
        JsonView::Object(fields) => Some(
            UsageView {
                source: Some(anthropic()),
                input_tokens: input,
                output_tokens: output,
                total_tokens: match (input, output) {
                    (Some(a), Some(b)) => Some(a.wrapping_add(b)),
                    _ => None,
                },
                cache_read_tokens: value.at("cache_read_input_tokens"@).uint(),
                cache_creation_tokens: value.at("cache_creation_input_tokens"@).uint(),
                reasoning_tokens: None,
                input_audio_tokens: None,
                output_audio_tokens: None,
                accepted_prediction_tokens: None,
                rejected_prediction_tokens: None,
                extra: without(
                    fields,
                    seq![
                        "input_tokens"@,
                        "output_tokens"@,
                        "cache_read_input_tokens"@,
                        "cache_creation_input_tokens"@,
                    ],
                ),
            },
        ),
        _ => None,
    }
}

/// The consumption that an optional value is.
pub open spec fn anthropic_usage_of_opt(value: Option<JsonView>) -> Option<UsageView> {
    match value {
        Some(v) => anthropic_usage_of(v),
        None => None,
    }
}

/// The consumption that a value is.
pub fn anthropic_usage_from_value(value: &Json) -> (r: Option<LLMUsage>)
    ensures
        opt_usage(r) == anthropic_usage_of(value@),
{
    if !value.is_object() {
        return None;
    }
    let input = value.uint_at("input_tokens");
    let output = value.uint_at("output_tokens");
    let total = match (input, output) {
        (Some(a), Some(b)) => Some(a.wrapping_add(b)),
        _ => None,
    };
    let known = [
        "input_tokens",
        "output_tokens",
        "cache_read_input_tokens",
        "cache_creation_input_tokens",
    ];
    assert(texts(known@) =~= seq![
        "input_tokens"@,
        "output_tokens"@,
        "cache_read_input_tokens"@,
        "cache_creation_input_tokens"@,
    ]);
    Some(
        LLMUsage {
            source: Some(LLMProtocol::AnthropicMessages),
            input_tokens: input,
            output_tokens: output,
            total_tokens: total,
            cache_read_tokens: value.uint_at("cache_read_input_tokens"),
            cache_creation_tokens: value.uint_at("cache_creation_input_tokens"),
            reasoning_tokens: None,
            input_audio_tokens: None,
            output_audio_tokens: None,
            accepted_prediction_tokens: None,
            rejected_prediction_tokens: None,
            extra: value.fields_without(&known),
        },
    )
}

/// The consumption at the field `key`.
pub(crate) fn anthropic_usage_at(value: &Json, key: &str) -> (r: Option<LLMUsage>)
    ensures
        opt_usage(r) == anthropic_usage_of_opt(value@.field(key@)),
{
    match value.get(key) {
        Some(usage) => anthropic_usage_from_value(usage),
        None => None,
    }
}

/// The value of a consumption.
pub open spec fn anthropic_usage_value(u: UsageView) -> JsonView {
    let v = usage_fields(u, anthropic());
    let v = v.insert("input_tokens"@, jint(or_zero(u.input_tokens)));
    let v = v.insert("output_tokens"@, jint(or_zero(u.output_tokens)));
    let v = with_int(v, "cache_read_input_tokens"@, u.cache_read_tokens);
    JsonView::Object(with_int(v, "cache_creation_input_tokens"@, u.cache_creation_tokens))
}

/// The value of a consumption.
pub fn anthropic_usage_to_value(usage: &LLMUsage) -> (r: Json)
    ensures
        r@ == anthropic_usage_value(usage@),
{
    let mut value = usage_extensions_for(usage, LLMProtocol::AnthropicMessages);
    value.put_uint("input_tokens", usage.input_tokens.unwrap_or(0));
    value.put_uint("output_tokens", usage.output_tokens.unwrap_or(0));
    value.put_some_uint("cache_read_input_tokens", usage.cache_read_tokens);
    value.put_some_uint("cache_creation_input_tokens", usage.cache_creation_tokens);
    Json::object(value)
}

/// What an answer has beyond the fields that the neutral form names.
pub open spec fn anthropic_answer_metadata(value: JsonView) -> Fields {
    let m = with_some(
        no_fields(),
        "stop_sequence"@,
        not_null(value.field("stop_sequence"@)),
    );
    match value.at("stop_reason"@).text() {
        Some(reason) => if anthropic_reason_of(reason) == LLMFinishReason::Unknown {
            m.insert("raw_finish_reason"@, jtext(reason))
        } else {
            m
        },
        None => m,
    }
}

/// The fields of a response that the neutral form names.
pub open spec fn anthropic_response_keys() -> Seq<Seq<char>> {
    seq![
        "id"@,
        "type"@,
        "role"@,
        "model"@,
        "content"@,
        "stop_reason"@,
        "stop_sequence"@,
        "usage"@,
    ]
}

/// The response that a value is.
pub open spec fn anthropic_response_of(value: JsonView) -> ResponseView {
    ResponseView {
        source: anthropic(),
        id: value.at("id"@).text(),
        model: value.at("model"@).text(),
        choices: seq![
            ChoiceView {
                index: 0,
                role: LLMRole::Assistant,
                content: anthropic_content_of(value.at("content"@)),
                finish_reason: match value.at("stop_reason"@).text() {
                    Some(reason) => Some(anthropic_reason_of(reason)),
                    None => None,
                },
                metadata: anthropic_answer_metadata(value),
            },
        ],
        usage: anthropic_usage_of_opt(value.field("usage"@)),
        metadata: no_fields(),
        extra: without(value.fields_or_none(), anthropic_response_keys()),
    }
}

/// The response that a value is.
pub fn read_response(value: &Json) -> (r: LLMResponse)
    ensures
        r@ == anthropic_response_of(value@),
{
    let mut metadata = JsonMap::new();
    metadata.put_some("stop_sequence", present_at(value, "stop_sequence"));
    let mut finish_reason: Option<LLMFinishReason> = None;
    if let Some(reason) = value.text_at("stop_reason") {
        let parsed = parse_anthropic_finish_reason(reason);
        if parsed == LLMFinishReason::Unknown {
            metadata.put_text("raw_finish_reason", reason);
        }
        finish_reason = Some(parsed);
    }
    let known = [
        "id",
        "type",
        "role",
        "model",
        "content",
        "stop_reason",
        "stop_sequence",
        "usage",
    ];
    assert(texts(known@) =~= anthropic_response_keys());
    let choice = LLMChoice {
        index: 0,
        role: LLMRole::Assistant,
        content: anthropic_content_from_value(value.at("content")),
        finish_reason,
        metadata,
    };
    let mut choices: Vec<LLMChoice> = Vec::new();
    choices.push(choice);
    assert(views(choices@) =~= seq![choice@]);
    LLMResponse {
        source: LLMProtocol::AnthropicMessages,
        id: own(value.text_at("id")),
        model: own(value.text_at("model")),
        choices,
        usage: anthropic_usage_at(value, "usage"),
        metadata: JsonMap::new(),
        extra: value.fields_without(&known),
    }
}

/// The value of a response, once its content has one.
pub open spec fn anthropic_response_fields(
    r: ResponseView,
    choice: ChoiceView,
    content: Seq<JsonView>,
    ids: IdsView,
) -> Fields {
    let v = if r.source == anthropic() {
        r.extra
    } else {
        no_fields()
    };
    let v = v.insert("id"@, jtext(or_text(r.id, "msg_"@ + ids.item)));
    let v = v.insert("type"@, jtext("message"@));
    let v = v.insert("role"@, jtext("assistant"@));
    let v = v.insert("model"@, jtext(or_text(r.model, ""@)));
    let v = v.insert("content"@, JsonView::Array(content));
    let v = v.insert(
        "stop_reason"@,
        match choice.finish_reason {
            Some(reason) => jtext(anthropic_reason_text(reason)),
            None => JsonView::Null,
        },
    );
    let v = v.insert(
        "stop_sequence"@,
        match lookup(choice.metadata, "stop_sequence"@) {
            Some(sequence) => sequence,
            None => JsonView::Null,
        },
    );
    match r.usage {
        Some(usage) => v.insert("usage"@, anthropic_usage_value(usage)),
        None => v,
    }
}

/// The value of a response.
pub open spec fn anthropic_response_value(r: ResponseView, ids: IdsView) -> Result<
    JsonView,
    ErrorView,
> {
    if r.choices.len() > 1 {
        Err(ErrorView::Unsupported("Anthropic Messages cannot represent multiple Chat choices"@))
    } else if r.choices.len() == 0 {
        Err(ErrorView::InvalidField("choices"@))
    } else {
        match anthropic_blocks_value(r.choices[0].content, ids.at(0)) {
            Err(e) => Err(e),
            Ok(content) => Ok(
                JsonView::Object(anthropic_response_fields(r, r.choices[0], content, ids)),
            ),
        }
    }
}

/// The value of a response, with the given identifiers where the format wants one that the
/// response does not have.
pub fn write_response(response: &LLMResponse, ids: Option<&FreshIds>) -> (r: Result<
    Json,
    AdapterError,
>)
    ensures
        outcome(r) == anthropic_response_value(response@, opt_ids(ids)),
{
    if response.choices.len() > 1 {
        return Err(
            AdapterError::Unsupported(
                "Anthropic Messages cannot represent multiple Chat choices".to_owned(),
            ),
        );
    }
    let choice = match response.primary_choice() {
        Some(choice) => choice,
        None => {
            return Err(AdapterError::InvalidField("choices"));
        },
    };
    let mut value = if response.source == LLMProtocol::AnthropicMessages {
        response.extra.clone()
    } else {
        JsonMap::new()
    };
    value.put_text("id", or_fresh(&response.id, "msg_", item_id(ids)).as_str());
    value.put_text("type", "message");
    value.put_text("role", "assistant");
    value.put_text("model", borrow(&response.model).unwrap_or(""));
    match anthropic_contents_to_value(&choice.content, ids_at(ids, 0)) {
        Ok(content) => {
            value.put_array("content", content);
        },
        Err(e) => {
            return Err(e);
        },
    }
    let reason = match choice.finish_reason {
        Some(reason) => anthropic_finish_reason_to_value(reason),
        None => Json::null(),
    };
    value.put("stop_reason", reason);
    let sequence = match choice.metadata.get("stop_sequence") {
        Some(sequence) => sequence.clone(),
        None => Json::null(),
    };
    value.put("stop_sequence", sequence);
    if let Some(usage) = &response.usage {
        value.put("usage", anthropic_usage_to_value(usage));
    }
    Ok(Json::object(value))
}

} // verus!
