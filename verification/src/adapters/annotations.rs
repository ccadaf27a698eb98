//! Citations: their forms in the wire formats.

use super::common::{cannot, cannot_represent, protocol_text};
use super::error::{AdapterError, ErrorView};
use crate::json::{jtext, with_int, with_text, without, Json, JsonMap, JsonView};
use crate::model::{no_fields, AnnotationView, Fields, LLMAnnotation, LLMProtocol};
use crate::seqs::{map_each, outcome, outcomes, try_each, try_map, views};
use crate::text::{borrow, or_text, own, texts};
use vstd::prelude::*;

verus! {

/// Where an OpenAI citation has its fields.
pub open spec fn citation_details(value: JsonView) -> JsonView {
    match value.field("url_citation"@) {
        Some(details) => details,
        None => value,
    }
}

/// The citation that a value of an OpenAI format is.
pub open spec fn openai_annotation(value: JsonView, source: LLMProtocol) -> AnnotationView {
    let details = citation_details(value);
    AnnotationView {
        source,
        annotation_type: or_text(value.at("type"@).text(), "unknown"@),
        start_index: details.at("start_index"@).uint(),
        end_index: details.at("end_index"@).uint(),
        url: details.at("url"@).text(),
        title: details.at("title"@).text(),
        file_id: details.at("file_id"@).text(),
        filename: details.at("filename"@).text(),
        cited_text: details.at("cited_text"@).text(),
        metadata: without(details.fields_or_none(), openai_citation_keys()),
    }
}

/// The fields of an OpenAI citation that the neutral form names.
pub open spec fn openai_citation_keys() -> Seq<Seq<char>> {
    seq![
        "type"@,
        "start_index"@,
        "end_index"@,
        "url"@,
        "title"@,
        "file_id"@,
        "filename"@,
        "cited_text"@,
    ]
}

/// The citation that a value of an OpenAI format is.
pub fn annotation_from_openai(value: &Json, source: LLMProtocol) -> (r: LLMAnnotation)
    ensures
        r@ == openai_annotation(value@, source),
{
    let details = match value.get("url_citation") {
        Some(details) => details,
        None => value,
    };
    let known = [
        "type",
        "start_index",
        "end_index",
        "url",
        "title",
        "file_id",
        "filename",
        "cited_text",
    ];
    assert(texts(known@) =~= openai_citation_keys());
    LLMAnnotation {
        source,
        annotation_type: value.text_at("type").unwrap_or("unknown").to_owned(),
        start_index: details.uint_at("start_index"),
        end_index: details.uint_at("end_index"),
        url: own(details.text_at("url")),
        title: own(details.text_at("title")),
        file_id: own(details.text_at("file_id")),
        filename: own(details.text_at("filename")),
        cited_text: own(details.text_at("cited_text")),
        metadata: details.fields_without(&known),
    }
}

/// The type that a citation has in an OpenAI format.
pub open spec fn openai_citation_type(a: AnnotationView, target: LLMProtocol) -> Result<
    Seq<char>,
    ErrorView,
> {
    if a.url is Some {
        Ok("url_citation"@)
    } else if a.file_id is Some {
        if target == LLMProtocol::OpenAiChat && a.source != target {
            Err(ErrorView::Unsupported("OpenAI Chat cannot represent a foreign file citation"@))
        } else {
            Ok("file_citation"@)
        }
    } else if a.source == target {
        Ok(a.annotation_type)
    } else {
        Err(
            ErrorView::Unsupported(
                protocol_text(target) + " cannot represent "@ + protocol_text(a.source)
                    + " citation `"@ + a.annotation_type + "`"@,
            ),
        )
    }
}

/// The fields of a citation in an OpenAI format.
pub open spec fn openai_citation_fields(
    a: AnnotationView,
    target: LLMProtocol,
    kind: Seq<char>,
) -> Fields {
    let base = if a.source == target {
        a.metadata
    } else {
        no_fields()
    };
    let m = base.insert("type"@, jtext(kind));
    let m = with_int(m, "start_index"@, a.start_index);
    let m = with_int(m, "end_index"@, a.end_index);
    let m = with_text(m, "url"@, a.url);
    let m = with_text(m, "title"@, a.title);
    let m = with_text(m, "file_id"@, a.file_id);
    with_text(m, "filename"@, a.filename)
}

/// The value that a citation is in an OpenAI format.
pub open spec fn openai_annotation_value(a: AnnotationView, target: LLMProtocol) -> Result<
    JsonView,
    ErrorView,
> {
    match openai_citation_type(a, target) {
        Err(e) => Err(e),
        Ok(kind) => {
            let details = openai_citation_fields(a, target, kind);
            if target == LLMProtocol::OpenAiChat && kind == "url_citation"@ {
                Ok(
                    JsonView::Object(
                        no_fields().insert("type"@, jtext("url_citation"@)).insert(
                            "url_citation"@,
                            JsonView::Object(details.remove("type"@)),
                        ),
                    ),
                )
            } else {
                Ok(JsonView::Object(details))
            }
        },
    }
}

/// The value that a citation is in an OpenAI format.
pub fn annotation_to_openai(annotation: &LLMAnnotation, target: LLMProtocol) -> (r: Result<
    Json,
    AdapterError,
>)
    ensures
        outcome(r) == openai_annotation_value(annotation@, target),
{
    let own_format = annotation.source == target;
    let kind: &str = if annotation.url.is_some() {
        "url_citation"
    } else if annotation.file_id.is_some() {
        if target == LLMProtocol::OpenAiChat && !own_format {
            return Err(
                AdapterError::Unsupported(
                    "OpenAI Chat cannot represent a foreign file citation".to_owned(),
                ),
            );
        }
        "file_citation"
    } else if own_format {
        annotation.annotation_type.as_str()
    } else {
        let who = crate::text::cat(super::common::protocol_name(target), " cannot represent ");
        return Err(
            cannot_represent(
                who.as_str(),
                annotation.source,
                " citation `",
                annotation.annotation_type.as_str(),
            ),
        );
    };
    let mut details = if own_format {
        annotation.metadata.clone()
    } else {
        JsonMap::new()
    };
    details.put_text("type", kind);
    details.put_some_uint("start_index", annotation.start_index);
    details.put_some_uint("end_index", annotation.end_index);
    details.put_some_text("url", borrow(&annotation.url));
    details.put_some_text("title", borrow(&annotation.title));
    details.put_some_text("file_id", borrow(&annotation.file_id));
    details.put_some_text("filename", borrow(&annotation.filename));
    if target == LLMProtocol::OpenAiChat && crate::text::same(kind, "url_citation") {
        details.remove("type");
        let mut outer = JsonMap::new();
        outer.put_text("type", "url_citation");
        outer.put_object("url_citation", details);
        Ok(Json::object(outer))
    } else {
        Ok(Json::object(details))
    }
}

/// The first integer that is there.
pub open spec fn either_int(a: Option<u64>, b: Option<u64>) -> Option<u64> {
    match a {
        Some(n) => Some(n),
        None => b,
    }
}

fn either_uint(a: Option<u64>, b: Option<u64>) -> (r: Option<u64>)
    ensures
        r == either_int(a, b),
{
    match a {
        Some(n) => Some(n),
        None => b,
    }
}

/// The fields of a Messages citation that the neutral form names.
pub open spec fn anthropic_citation_keys() -> Seq<Seq<char>> {
    seq![
        "type"@,
        "start_char_index"@,
        "end_char_index"@,
        "start_index"@,
        "end_index"@,
        "url"@,
        "title"@,
        "file_id"@,
        "filename"@,
        "cited_text"@,
    ]
}

/// The citation that a value of the Messages format is.
pub open spec fn anthropic_annotation(value: JsonView) -> AnnotationView {
    AnnotationView {
        source: LLMProtocol::AnthropicMessages,
        annotation_type: or_text(value.at("type"@).text(), "unknown"@),
        start_index: either_int(
            value.at("start_char_index"@).uint(),
            value.at("start_index"@).uint(),
        ),
        end_index: either_int(value.at("end_char_index"@).uint(), value.at("end_index"@).uint()),
        url: value.at("url"@).text(),
        title: value.at("title"@).text(),
        file_id: value.at("file_id"@).text(),
        filename: value.at("filename"@).text(),
        cited_text: value.at("cited_text"@).text(),
        metadata: without(value.fields_or_none(), anthropic_citation_keys()),
    }
}

/// The citation that a value of the Messages format is.
pub fn annotation_from_anthropic(value: &Json) -> (r: LLMAnnotation)
    ensures
        r@ == anthropic_annotation(value@),
{
    let known = [
        "type",
        "start_char_index",
        "end_char_index",
        "start_index",
        "end_index",
        "url",
        "title",
        "file_id",
        "filename",
        "cited_text",
    ];
    assert(texts(known@) =~= anthropic_citation_keys());
    LLMAnnotation {
        source: LLMProtocol::AnthropicMessages,
        annotation_type: value.text_at("type").unwrap_or("unknown").to_owned(),
        start_index: either_uint(value.uint_at("start_char_index"), value.uint_at("start_index")),
        end_index: either_uint(value.uint_at("end_char_index"), value.uint_at("end_index")),
        url: own(value.text_at("url")),
        title: own(value.text_at("title")),
        file_id: own(value.text_at("file_id")),
        filename: own(value.text_at("filename")),
        cited_text: own(value.text_at("cited_text")),
        metadata: value.fields_without(&known),
    }
}

/// The type that a citation has in the Messages format.
pub open spec fn anthropic_citation_type(a: AnnotationView) -> Result<Seq<char>, ErrorView> {
    if a.source == LLMProtocol::AnthropicMessages {
        Ok(a.annotation_type)
    } else if a.url is Some && a.cited_text is Some {
        Ok("web_search_result_location"@)
    } else {
        Err(
            cannot(
                "Anthropic Messages cannot represent "@,
                a.source,
                " citation `"@,
                a.annotation_type,
            ),
        )
    }
}

/// The fields of a citation in the Messages format.
pub open spec fn anthropic_citation_fields(a: AnnotationView, kind: Seq<char>) -> Fields {
    let base = if a.source == LLMProtocol::AnthropicMessages {
        a.metadata
    } else {
        no_fields()
    };
    let m = base.insert("type"@, jtext(kind));
    let m = with_int(m, "start_char_index"@, a.start_index);
    let m = with_int(m, "end_char_index"@, a.end_index);
    let m = with_text(m, "url"@, a.url);
    let m = with_text(m, "title"@, a.title);
    let m = with_text(m, "file_id"@, a.file_id);
    let m = with_text(m, "filename"@, a.filename);
    with_text(m, "cited_text"@, a.cited_text)
}

/// The value that a citation is in the Messages format.
pub open spec fn anthropic_annotation_value(a: AnnotationView) -> Result<JsonView, ErrorView> {
    match anthropic_citation_type(a) {
        Err(e) => Err(e),
        Ok(kind) => Ok(JsonView::Object(anthropic_citation_fields(a, kind))),
    }
}

/// The value that a citation is in the Messages format.
pub fn annotation_to_anthropic(annotation: &LLMAnnotation) -> (r: Result<Json, AdapterError>)
    ensures
        outcome(r) == anthropic_annotation_value(annotation@),
{
    let own_format = annotation.source == LLMProtocol::AnthropicMessages;
    let kind: &str = if own_format {
        annotation.annotation_type.as_str()
    } else if annotation.url.is_some() && annotation.cited_text.is_some() {
        "web_search_result_location"
    } else {
        return Err(
            cannot_represent(
                "Anthropic Messages cannot represent ",
                annotation.source,
                " citation `",
                annotation.annotation_type.as_str(),
            ),
        );
    };
    let mut value = if own_format {
        annotation.metadata.clone()
    } else {
        JsonMap::new()
    };
    value.put_text("type", kind);
    value.put_some_uint("start_char_index", annotation.start_index);
    value.put_some_uint("end_char_index", annotation.end_index);
    value.put_some_text("url", borrow(&annotation.url));
    value.put_some_text("title", borrow(&annotation.title));
    value.put_some_text("file_id", borrow(&annotation.file_id));
    value.put_some_text("filename", borrow(&annotation.filename));
    value.put_some_text("cited_text", borrow(&annotation.cited_text));
    Ok(Json::object(value))
}

/// `openai_annotation` for one format.
pub open spec fn openai_annotation_reader(source: LLMProtocol) -> spec_fn(
    JsonView,
) -> AnnotationView {
    |value: JsonView| openai_annotation(value, source)
}

/// The citations that a list of an OpenAI format holds.
pub open spec fn openai_annotations(value: JsonView, source: LLMProtocol) -> Seq<AnnotationView> {
    value.list().map_values(openai_annotation_reader(source))
}

/// The citations that a list of an OpenAI format holds.
pub(crate) fn annotations_from_openai(value: &Json, source: LLMProtocol) -> (r: Vec<
    LLMAnnotation,
>)
    ensures
        views(r@) == openai_annotations(value@, source),
{
    match value.as_array() {
        Some(items) => {
            let read = |item: &Json| -> (r: LLMAnnotation)
                ensures
                    r@ == openai_annotation(item@, source),
            {
                annotation_from_openai(item, source)
            };
            map_each(items.as_slice(), read, Ghost(openai_annotation_reader(source)))
        },
        None => {
            let none: Vec<LLMAnnotation> = Vec::new();
            assert(views(none@) =~= openai_annotations(value@, source));
            none
        },
    }
}

/// `openai_annotation_value` for one format.
pub open spec fn openai_annotation_writer(target: LLMProtocol) -> spec_fn(AnnotationView) -> Result<
    JsonView,
    ErrorView,
> {
    |a: AnnotationView| openai_annotation_value(a, target)
}

/// The values that citations are in an OpenAI format.
pub(crate) fn annotations_to_openai(list: &[LLMAnnotation], target: LLMProtocol) -> (r: Result<
    Vec<Json>,
    AdapterError,
>)
    ensures
        outcomes(r) == try_map(views(list@), openai_annotation_writer(target)),
{
    let write = |a: &LLMAnnotation| -> (r: Result<Json, AdapterError>)
        ensures
            outcome(r) == openai_annotation_value(a@, target),
    {
        annotation_to_openai(a, target)
    };
    try_each(list, write, Ghost(openai_annotation_writer(target)))
}

/// `anthropic_annotation`.
pub open spec fn anthropic_annotation_reader() -> spec_fn(JsonView) -> AnnotationView {
    |value: JsonView| anthropic_annotation(value)
}

/// The citations that a list of the Messages format holds.
pub open spec fn anthropic_annotations(value: JsonView) -> Seq<AnnotationView> {
    value.list().map_values(anthropic_annotation_reader())
}

/// The citations that a list of the Messages format holds.
pub(crate) fn annotations_from_anthropic(value: &Json) -> (r: Vec<LLMAnnotation>)
    ensures
        views(r@) == anthropic_annotations(value@),
{
    match value.as_array() {
        Some(items) => map_each(
            items.as_slice(),
            annotation_from_anthropic,
            Ghost(anthropic_annotation_reader()),
        ),
        None => {
            let none: Vec<LLMAnnotation> = Vec::new();
            assert(views(none@) =~= anthropic_annotations(value@));
            none
        },
    }
}

/// `anthropic_annotation_value`.
pub open spec fn anthropic_annotation_writer() -> spec_fn(AnnotationView) -> Result<
    JsonView,
    ErrorView,
> {
    |a: AnnotationView| anthropic_annotation_value(a)
}

/// The values that citations are in the Messages format.
pub(crate) fn annotations_to_anthropic(list: &[LLMAnnotation]) -> (r: Result<
    Vec<Json>,
    AdapterError,
>)
    ensures
        outcomes(r) == try_map(views(list@), anthropic_annotation_writer()),
{
    try_each(list, annotation_to_anthropic, Ghost(anthropic_annotation_writer()))
}

} // verus!
