//! What citations say in each format, by the names on the wire.

use super::annotations::{
    anthropic_annotation, anthropic_annotation_value, anthropic_annotation_writer,
    openai_annotation, openai_annotation_value, openai_annotation_writer,
};
use super::anthropic::{anthropic_block_of, anthropic_block_value};
use super::error::ErrorView;
use super::fresh::IdsView;
use super::names::names_differ;
use super::openai_chat::chat_part_of;
use super::openai_responses::{responses_part_of, responses_part_value};
use super::part_laws::says;
use super::request_laws::count_at;
use crate::json::JsonView;
use crate::model::{AnnotationView, ContentView, KindView, LLMProtocol, LLMRole};
use crate::seqs::try_map_each;
use vstd::prelude::*;

verus! {

/// Where the details of a citation stand.
pub open spec fn details_in(v: JsonView) -> JsonView {
    if v.field("url_citation"@) is Some {
        v.at("url_citation"@)
    } else {
        v
    }
}

/// A citation that is written for Chat or Responses holds the page or file that it points to and
/// the place that it is about.
pub proof fn citations_written_for_openai(a: AnnotationView, target: LLMProtocol)
    ensures
        openai_annotation_value(a, target) matches Ok(v) ==> {
            let details = if target == LLMProtocol::OpenAiChat && says(
                v,
                "type"@,
                "url_citation"@,
            ) {
                v.at("url_citation"@)
            } else {
                v
            };
            &&& a.url matches Some(url) ==> says(v, "type"@, "url_citation"@) && says(
                details,
                "url"@,
                url,
            )
            &&& a.url is None && a.file_id is Some ==> says(v, "type"@, "file_citation"@)
            &&& a.title matches Some(title) ==> says(details, "title"@, title)
            &&& a.file_id matches Some(id) ==> says(details, "file_id"@, id)
            &&& a.filename matches Some(name) ==> says(details, "filename"@, name)
            &&& a.start_index is Some ==> count_at(details, "start_index"@, a.start_index)
            &&& a.end_index is Some ==> count_at(details, "end_index"@, a.end_index)
        },
        a.url is Some ==> openai_annotation_value(a, target) is Ok,
        a.source == target ==> openai_annotation_value(a, target) is Ok,
{
    names_differ();
}

/// A citation that is written for Messages holds the page or file that it points to, the place
/// that it is about and the words that it cites.
pub proof fn citations_written_for_messages(a: AnnotationView)
    ensures
        anthropic_annotation_value(a) matches Ok(v) ==> {
            &&& a.source == LLMProtocol::AnthropicMessages ==> says(v, "type"@, a.annotation_type)
            &&& a.source != LLMProtocol::AnthropicMessages ==> says(
                v,
                "type"@,
                "web_search_result_location"@,
            )
            &&& a.url matches Some(url) ==> says(v, "url"@, url)
            &&& a.title matches Some(title) ==> says(v, "title"@, title)
            &&& a.file_id matches Some(id) ==> says(v, "file_id"@, id)
            &&& a.filename matches Some(name) ==> says(v, "filename"@, name)
            &&& a.cited_text matches Some(text) ==> says(v, "cited_text"@, text)
            &&& a.start_index is Some ==> count_at(v, "start_char_index"@, a.start_index)
            &&& a.end_index is Some ==> count_at(v, "end_char_index"@, a.end_index)
        },
        a.source == LLMProtocol::AnthropicMessages ==> anthropic_annotation_value(a) is Ok,
        a.url is Some && a.cited_text is Some ==> anthropic_annotation_value(a) is Ok,
{
    names_differ();
}

/// A citation is read from the names of each format.
pub proof fn citations_read(v: JsonView, source: LLMProtocol)
    ensures
        ({
            let a = openai_annotation(v, source);
            let details = details_in(v);
            &&& a.source == source
            &&& v.at("type"@) matches JsonView::Text(kind) ==> a.annotation_type == kind
            &&& a.url == details.at("url"@).text()
            &&& a.title == details.at("title"@).text()
            &&& a.file_id == details.at("file_id"@).text()
            &&& a.filename == details.at("filename"@).text()
            &&& a.cited_text == details.at("cited_text"@).text()
            &&& a.start_index == details.at("start_index"@).uint()
            &&& a.end_index == details.at("end_index"@).uint()
        }),
        ({
            let a = anthropic_annotation(v);
            &&& a.source == LLMProtocol::AnthropicMessages
            &&& v.at("type"@) matches JsonView::Text(kind) ==> a.annotation_type == kind
            &&& a.url == v.at("url"@).text()
            &&& a.title == v.at("title"@).text()
            &&& a.file_id == v.at("file_id"@).text()
            &&& a.filename == v.at("filename"@).text()
            &&& a.cited_text == v.at("cited_text"@).text()
            &&& v.at("start_char_index"@).uint() is Some ==> a.start_index == v.at(
                "start_char_index"@,
            ).uint()
            &&& v.at("start_char_index"@).uint() is None ==> a.start_index == v.at(
                "start_index"@,
            ).uint()
            &&& v.at("end_char_index"@).uint() is Some ==> a.end_index == v.at(
                "end_char_index"@,
            ).uint()
            &&& v.at("end_char_index"@).uint() is None ==> a.end_index == v.at("end_index"@).uint()
        }),
{
    names_differ();
}

/// The citations of a text are written with it, in order.
pub proof fn citations_stay_with_the_text(
    c: ContentView,
    role: LLMRole,
    ids: IdsView,
    text: Seq<char>,
    list: Seq<AnnotationView>,
    i: int,
)
    requires
        c.kind == (KindView::Text { text, annotations: list }),
        0 <= i < list.len(),
    ensures
        anthropic_block_value(c, ids) matches Ok(v) ==> v.at("citations"@).list().len()
            == list.len() && anthropic_annotation_value(list[i]) == Ok::<JsonView, ErrorView>(
            v.at("citations"@).list()[i],
        ),
        responses_part_value(c, role) matches Ok(v) ==> v.at("annotations"@).list().len()
            == list.len() && openai_annotation_value(list[i], LLMProtocol::OpenAiResponses) == Ok::<
            JsonView,
            ErrorView,
        >(v.at("annotations"@).list()[i]),
{
    names_differ();
    let f = anthropic_annotation_writer();
    try_map_each(list, f);
    assert(f(list[i]) == anthropic_annotation_value(list[i]));
    let g = openai_annotation_writer(LLMProtocol::OpenAiResponses);
    try_map_each(list, g);
    assert(g(list[i]) == openai_annotation_value(list[i], LLMProtocol::OpenAiResponses));
}

/// The citations of a text are read with it, in order.
pub proof fn citations_read_with_the_text(v: JsonView, list: Seq<JsonView>, i: int)
    requires
        0 <= i < list.len(),
    ensures
        says(v, "type"@, "text"@) && v.at("citations"@) == JsonView::Array(list) ==> (
        anthropic_block_of(v).kind matches KindView::Text { annotations, .. } && annotations.len()
            == list.len() && annotations[i] == anthropic_annotation(list[i])),
        says(v, "type"@, "text"@) && v.at("annotations"@) == JsonView::Array(list) ==> (
        chat_part_of(v).kind matches KindView::Text { annotations, .. } && annotations.len()
            == list.len() && annotations[i] == openai_annotation(list[i], LLMProtocol::OpenAiChat)),
        says(v, "type"@, "output_text"@) && v.at("annotations"@) == JsonView::Array(list) ==> (
        responses_part_of(v).kind matches KindView::Text { annotations, .. } && annotations.len()
            == list.len() && annotations[i] == openai_annotation(
            list[i],
            LLMProtocol::OpenAiResponses,
        )),
{
    names_differ();
    reveal_with_fuel(anthropic_block_of, 2);
}

} // verus!
