//! What holds across the adapters.

use super::annotations::{
    anthropic_annotation, anthropic_annotation_value, anthropic_citation_fields,
    anthropic_citation_keys, openai_annotation, openai_annotation_value, openai_citation_fields,
    openai_citation_keys,
};
use super::anthropic::{
    anthropic_accepted_fields, anthropic_block_of, anthropic_block_value, anthropic_reason_of,
    anthropic_reason_text, anthropic_request_fields, anthropic_request_value, conversation_of,
    request_choice_value, Conversation,
};
use super::common::refused;
use super::error::ErrorView;
use super::fresh::IdsView;
use super::openai_chat::{
    chat_content_value, chat_extra_fields, chat_message_writer, chat_part_of, chat_reason_of,
    chat_reason_text, chat_request_fields, chat_request_value, other_tools,
};
use super::openai_responses::{
    input_items, responses_extra_fields, responses_part_of, responses_part_value,
    responses_request_fields, responses_request_value,
};
use super::tools::{
    dialect_protocol, function_fields, schema_key, tool_metadata, tool_of, tool_value, tools_value,
    ToolDialect,
};
use crate::json::{jtext, lookup, prefixed, without, JsonView};
use crate::model::{
    no_fields, AnnotationView, ContentView, Fields, KindView, LLMFinishReason, LLMProtocol, LLMRole,
    RequestView, ToolView,
};
use crate::seqs::try_map_ids;
use vstd::prelude::*;

verus! {

/// Whether `m` has none of the given names.
pub open spec fn has_none(m: Fields, names: Seq<Seq<char>>) -> bool {
    forall|i: int| 0 <= i < names.len() ==> !m.contains_key(#[trigger] names[i])
}

/// The fields of a request that the Chat format has a form for.
pub open spec fn chat_accepts() -> Seq<Seq<char>> {
    chat_extra_fields().push("include"@)
}

/// The fields of a request that the Responses format has a form for.
pub open spec fn responses_accepts() -> Seq<Seq<char>> {
    responses_extra_fields().push("verbosity"@).push("logprobs"@)
}

/// A request with a field that says something and that the target format has no form for is
/// refused: nothing that a client says is dropped in silence.
pub proof fn unknown_fields_are_refused(r: RequestView, ids: IdsView, name: Seq<char>)
    ensures
        refused(r.extra, chat_accepts(), name) ==> (chat_request_value(r, ids) matches Err(
            ErrorView::Unsupported(_),
        )),
        refused(r.extra, responses_accepts(), name) ==> (responses_request_value(r, ids) matches Err(
            ErrorView::Unsupported(_),
        )),
        refused(r.extra, anthropic_accepted_fields(), name) ==> (anthropic_request_value(
            r,
            ids,
        ) matches Err(ErrorView::Unsupported(_))),
{
}

/// No other field of a request has the name of the model's or of the stream's.
proof fn request_names_differ()
    ensures
        "model"@ != "stream"@,
        "messages"@ != "model"@ && "messages"@ != "stream"@,
        "input"@ != "model"@ && "input"@ != "stream"@,
        "system"@ != "model"@ && "system"@ != "stream"@,
        "temperature"@ != "model"@ && "temperature"@ != "stream"@,
        "max_tokens"@ != "model"@ && "max_tokens"@ != "stream"@,
        "max_output_tokens"@ != "model"@ && "max_output_tokens"@ != "stream"@,
        "top_p"@ != "model"@ && "top_p"@ != "stream"@,
        "stop"@ != "model"@ && "stop"@ != "stream"@,
        "stop_sequences"@ != "model"@ && "stop_sequences"@ != "stream"@,
        "web_search_options"@ != "model"@ && "web_search_options"@ != "stream"@,
        "tools"@ != "model"@ && "tools"@ != "stream"@,
        "tool_choice"@ != "model"@ && "tool_choice"@ != "stream"@,
        "parallel_tool_calls"@ != "model"@ && "parallel_tool_calls"@ != "stream"@,
        "response_format"@ != "model"@ && "response_format"@ != "stream"@,
        "reasoning"@ != "model"@ && "reasoning"@ != "stream"@,
        "reasoning_effort"@ != "model"@ && "reasoning_effort"@ != "stream"@,
        "metadata"@ != "model"@ && "metadata"@ != "stream"@,
        "text"@ != "model"@ && "text"@ != "stream"@,
        "thinking"@ != "model"@ && "thinking"@ != "stream"@,
        "output_config"@ != "model"@ && "output_config"@ != "stream"@,
{
    reveal_strlit("model");
    reveal_strlit("stream");
    reveal_strlit("messages");
    reveal_strlit("input");
    reveal_strlit("system");
    reveal_strlit("temperature");
    reveal_strlit("max_tokens");
    reveal_strlit("max_output_tokens");
    reveal_strlit("top_p");
    reveal_strlit("stop");
    reveal_strlit("stop_sequences");
    reveal_strlit("web_search_options");
    reveal_strlit("tools");
    reveal_strlit("tool_choice");
    reveal_strlit("parallel_tool_calls");
    reveal_strlit("response_format");
    reveal_strlit("reasoning");
    reveal_strlit("reasoning_effort");
    reveal_strlit("metadata");
    reveal_strlit("text");
    reveal_strlit("thinking");
    reveal_strlit("output_config");
    assert("model"@.len() == 5);
    assert("stream"@.len() == 6);
    assert("messages"@.len() == 8);
    assert("input"@.len() == 5);
    assert("system"@.len() == 6);
    assert("temperature"@.len() == 11);
    assert("max_tokens"@.len() == 10);
    assert("max_output_tokens"@.len() == 17);
    assert("top_p"@.len() == 5);
    assert("stop"@.len() == 4);
    assert("stop_sequences"@.len() == 14);
    assert("web_search_options"@.len() == 18);
    assert("tools"@.len() == 5);
    assert("tool_choice"@.len() == 11);
    assert("parallel_tool_calls"@.len() == 19);
    assert("response_format"@.len() == 15);
    assert("reasoning"@.len() == 9);
    assert("reasoning_effort"@.len() == 16);
    assert("metadata"@.len() == 8);
    assert("text"@.len() == 4);
    assert("thinking"@.len() == 8);
    assert("output_config"@.len() == 13);
    assert("model"@[0] == 'm' && "input"@[0] == 'i' && "top_p"@[0] == 't' && "tools"@[0] == 't');
    assert("stream"@[1] == 't' && "system"@[1] == 'y');
}

/// Whether `v` asks for the model of `r`, and for a stream where `r` does.
pub open spec fn asks_for(v: Fields, r: RequestView) -> bool {
    lookup(v, "model"@) == Some(jtext(r.model)) && lookup(v, "stream"@) == Some(
        JsonView::Bool(r.stream),
    )
}

proof fn chat_fields_ask(r: RequestView, messages: Seq<JsonView>, tools: Seq<JsonView>)
    ensures
        asks_for(chat_request_fields(r, messages, tools), r),
{
    request_names_differ();
}

proof fn responses_fields_ask(r: RequestView, input: Seq<JsonView>, tools: Seq<JsonView>)
    ensures
        asks_for(responses_request_fields(r, input, tools), r),
{
    request_names_differ();
}

proof fn anthropic_fields_ask(
    r: RequestView,
    c: Conversation,
    tools: Seq<JsonView>,
    choice: Option<JsonView>,
)
    ensures
        asks_for(anthropic_request_fields(r, c, tools, choice), r),
{
    request_names_differ();
}

/// A request that is written for an upstream asks for the client's model, and for a stream
/// exactly where the client did.
pub proof fn model_and_stream_are_kept(r: RequestView, ids: IdsView)
    ensures
        chat_request_value(r, ids) matches Ok(v) ==> v is Object && asks_for(v.fields_or_none(), r),
        responses_request_value(r, ids) matches Ok(v) ==> v is Object && asks_for(
            v.fields_or_none(),
            r,
        ),
        anthropic_request_value(r, ids) matches Ok(v) ==> v is Object && asks_for(
            v.fields_or_none(),
            r,
        ),
{
    chat_fields_ask(
        r,
        try_map_ids(r.messages, ids, chat_message_writer())->Ok_0,
        tools_value(other_tools(r.tools), ToolDialect::OpenAiChat)->Ok_0,
    );
    responses_fields_ask(
        r,
        input_items(r.messages, ids)->Ok_0,
        tools_value(r.tools, ToolDialect::OpenAiResponses)->Ok_0,
    );
    anthropic_fields_ask(
        r,
        conversation_of(r.messages, ids)->Ok_0,
        tools_value(r.tools, ToolDialect::Anthropic)->Ok_0,
        request_choice_value(r)->Ok_0,
    );
}

/// The names of a function tool's fields differ, and none begins as an extension does.
proof fn tool_names_differ()
    ensures
        "name"@ != "type"@,
        "name"@.len() == 4,
        "type"@.len() == 4,
        "description"@.len() == 11,
        "input_schema"@.len() == 12,
        "parameters"@.len() == 10,
        "strict"@.len() == 6,
        "function"@.len() == 8,
        "x-"@.len() == 2,
        "x-"@[0] == 'x',
        "name"@[0] == 'n',
        "type"@[0] == 't',
        "description"@[0] == 'd',
        "input_schema"@[0] == 'i',
        "parameters"@[0] == 'p',
        "strict"@[0] == 's',
        "function"@[0] == 'f',
{
    reveal_strlit("name");
    reveal_strlit("type");
    reveal_strlit("description");
    reveal_strlit("input_schema");
    reveal_strlit("parameters");
    reveal_strlit("strict");
    reveal_strlit("function");
    reveal_strlit("x-");
    assert("name"@[0] != "type"@[0]);
}

/// What a function tool carries into a target format beyond the fields that the neutral form
/// names: everything in its own format, and the extensions in another.
pub open spec fn carried(t: ToolView, d: ToolDialect) -> Fields {
    if t.source == dialect_protocol(d) {
        t.metadata
    } else {
        prefixed(t.metadata, "x-"@)
    }
}

/// The fields of a function tool that the neutral form names, in a format.
pub open spec fn tool_field_names(d: ToolDialect) -> Seq<Seq<char>> {
    seq!["name"@, "description"@, schema_key(d), "strict"@, "type"@]
}

/// What a function tool carries beyond the named fields has none of their names.
pub(crate) proof fn carried_beyond_the_names(t: ToolView, d: ToolDialect)
    requires
        t.source == dialect_protocol(d) ==> has_none(t.metadata, tool_field_names(d)),
    ensures
        has_none(carried(t, d), tool_field_names(d)),
{
    tool_names_differ();
    let names = tool_field_names(d);
    let kept = carried(t, d);
    if t.source != dialect_protocol(d) {
        assert forall|i: int| 0 <= i < names.len() implies !kept.contains_key(
            #[trigger] names[i],
        ) by {
            assert(i == 0 || i == 1 || i == 2 || i == 3 || i == 4);
            if "x-"@.is_prefix_of(names[i]) {
                assert(names[i][0] == "x-"@[0]);
            }
        }
    }
}

/// A function tool that is written for a format and read back is the tool, as one of that format,
/// with its name, description, schema and strictness.
///
/// A tool of the format itself has none of the named fields among its extensions, as every tool
/// that is read has.
pub proof fn function_tool_round_trip(t: ToolView, d: ToolDialect)
    requires
        t.kind is Function,
        t.source == dialect_protocol(d) ==> has_none(t.metadata, tool_field_names(d)),
    ensures
        tool_value(t, d) matches Ok(v) && tool_of(v, d) == Ok::<ToolView, ErrorView>(
            ToolView { source: dialect_protocol(d), kind: t.kind, metadata: carried(t, d) },
        ),
{
    tool_names_differ();
    let names = tool_field_names(d);
    let kept = carried(t, d);
    carried_beyond_the_names(t, d);
    assert(names[0] == "name"@ && names[1] == "description"@ && names[2] == schema_key(d)
        && names[3] == "strict"@ && names[4] == "type"@);
    let function = function_fields(t, d);
    let v = tool_value(t, d)->Ok_0;
    match d {
        ToolDialect::OpenAiChat => {
            assert(v.at("function"@) == JsonView::Object(function));
            let outer = without(v.fields_or_none(), seq!["type"@, "function"@]);
            let inner = without(function, names);
            assert(seq!["type"@, "function"@][0] == "type"@);
            assert(seq!["type"@, "function"@][1] == "function"@);
            assert(outer =~= no_fields());
            assert(inner =~= kept);
            assert(tool_metadata(v, d) =~= kept);
        },
        ToolDialect::OpenAiResponses => {
            assert(tool_metadata(v, d) =~= kept);
        },
        ToolDialect::Anthropic => {
            assert(tool_metadata(v, d) =~= kept);
        },
    }
}

/// A built-in tool that is read from a format and written for the same format is unchanged.
pub proof fn builtin_tool_unchanged(tool: JsonView, d: ToolDialect)
    ensures
        tool_of(tool, d) matches Ok(t) ==> t.kind is Builtin ==> tool_value(t, d) == Ok::<
            JsonView,
            ErrorView,
        >(tool),
{
}

/// The lengths of the names of a citation's fields.
proof fn citation_names_differ()
    ensures
        "type"@.len() == 4,
        "start_index"@.len() == 11,
        "end_index"@.len() == 9,
        "url"@.len() == 3,
        "title"@.len() == 5,
        "file_id"@.len() == 7,
        "filename"@.len() == 8,
        "cited_text"@.len() == 10,
        "url_citation"@.len() == 12,
        "start_char_index"@.len() == 16,
        "end_char_index"@.len() == 14,
{
    reveal_strlit("type");
    reveal_strlit("start_index");
    reveal_strlit("end_index");
    reveal_strlit("url");
    reveal_strlit("title");
    reveal_strlit("file_id");
    reveal_strlit("filename");
    reveal_strlit("cited_text");
    reveal_strlit("url_citation");
    reveal_strlit("start_char_index");
    reveal_strlit("end_char_index");
}

/// A citation of an OpenAI format that is written for its own format and read back is unchanged.
///
/// The formats have no field for the cited text, and call a citation with an address a
/// `url_citation` and one with a file alone a `file_citation`.
pub proof fn openai_citation_round_trip(a: AnnotationView)
    requires
        a.source != LLMProtocol::AnthropicMessages,
        a.cited_text is None,
        a.url is Some ==> a.annotation_type == "url_citation"@,
        a.url is None && a.file_id is Some ==> a.annotation_type == "file_citation"@,
        a.url is None && a.source == LLMProtocol::OpenAiChat ==> a.annotation_type
            != "url_citation"@,
        has_none(a.metadata, openai_citation_keys().push("url_citation"@)),
    ensures
        openai_annotation_value(a, a.source) matches Ok(v) && openai_annotation(v, a.source) == a,
{
    citation_names_differ();
    let known = openai_citation_keys();
    let all = known.push("url_citation"@);
    assert(all[0] == "type"@ && all[1] == "start_index"@ && all[2] == "end_index"@ && all[3]
        == "url"@ && all[4] == "title"@ && all[5] == "file_id"@ && all[6] == "filename"@ && all[7]
        == "cited_text"@ && all[8] == "url_citation"@);
    assert(forall|i: int| 0 <= i < known.len() ==> known[i] == all[i]);
    assert(known[0] == "type"@ && known[1] == "start_index"@ && known[2] == "end_index"@ && known[3]
        == "url"@ && known[4] == "title"@ && known[5] == "file_id"@ && known[6] == "filename"@);
    let kind = a.annotation_type;
    let details = openai_citation_fields(a, a.source, kind);
    assert(without(details, known) =~= a.metadata);
    assert(without(details.remove("type"@), known) =~= a.metadata);
    let v = openai_annotation_value(a, a.source)->Ok_0;
    assert(openai_annotation(v, a.source) =~= a);
}

/// A citation of the Messages format that is written for it and read back is unchanged.
pub proof fn anthropic_citation_round_trip(a: AnnotationView)
    requires
        a.source == LLMProtocol::AnthropicMessages,
        has_none(a.metadata, anthropic_citation_keys()),
    ensures
        anthropic_annotation_value(a) matches Ok(v) && anthropic_annotation(v) == a,
{
    citation_names_differ();
    let known = anthropic_citation_keys();
    assert(known[0] == "type"@ && known[1] == "start_char_index"@ && known[2] == "end_char_index"@
        && known[3] == "start_index"@ && known[4] == "end_index"@ && known[5] == "url"@ && known[6]
        == "title"@ && known[7] == "file_id"@ && known[8] == "filename"@ && known[9]
        == "cited_text"@);
    let fields = anthropic_citation_fields(a, a.annotation_type);
    assert(without(fields, known) =~= a.metadata);
    assert(anthropic_annotation(JsonView::Object(fields)) =~= a);
}

/// Whether the field `name` of `m`, where there is one, is a text.
pub open spec fn text_field(m: Fields, name: Seq<char>) -> bool {
    m.contains_key(name) ==> m[name] is Text
}

/// Whether the field `name` of `m`, where there is one, is an integer that is not negative.
pub open spec fn count_field(m: Fields, name: Seq<char>) -> bool {
    m.contains_key(name) ==> m[name].uint() is Some
}

/// A citation in the form of the Messages format that is read and written for the same format is
/// unchanged, whatever else it has.
pub proof fn anthropic_citation_unchanged(m: Fields)
    requires
        m.contains_key("type"@),
        text_field(m, "type"@),
        text_field(m, "url"@),
        text_field(m, "title"@),
        text_field(m, "file_id"@),
        text_field(m, "filename"@),
        text_field(m, "cited_text"@),
        count_field(m, "start_char_index"@),
        count_field(m, "end_char_index"@),
        !m.contains_key("start_index"@),
        !m.contains_key("end_index"@),
    ensures
        anthropic_annotation_value(anthropic_annotation(JsonView::Object(m))) == Ok::<
            JsonView,
            ErrorView,
        >(JsonView::Object(m)),
{
    citation_names_differ();
    let known = anthropic_citation_keys();
    assert(known[0] == "type"@ && known[1] == "start_char_index"@ && known[2] == "end_char_index"@
        && known[3] == "start_index"@ && known[4] == "end_index"@ && known[5] == "url"@ && known[6]
        == "title"@ && known[7] == "file_id"@ && known[8] == "filename"@ && known[9]
        == "cited_text"@);
    let a = anthropic_annotation(JsonView::Object(m));
    let fields = anthropic_citation_fields(a, a.annotation_type);
    assert forall|k: Seq<char>| fields.contains_key(k) == m.contains_key(k) && (m.contains_key(k)
        ==> fields[k] == m[k]) by {
        if known.contains(k) {
            let i = choose|i: int| 0 <= i < known.len() && known[i] == k;
            assert(i == 0 || i == 1 || i == 2 || i == 3 || i == 4 || i == 5 || i == 6 || i == 7 || i
                == 8 || i == 9);
        }
    }
    assert(fields =~= m);
}

/// A citation in the form of the Responses format that is read and written for the same format is
/// unchanged, whatever else it has.
///
/// The format has no field for the cited text, and calls a citation with an address a
/// `url_citation` and one with a file alone a `file_citation`.
pub proof fn responses_citation_unchanged(m: Fields)
    requires
        m.contains_key("type"@),
        text_field(m, "type"@),
        text_field(m, "url"@),
        text_field(m, "title"@),
        text_field(m, "file_id"@),
        text_field(m, "filename"@),
        count_field(m, "start_index"@),
        count_field(m, "end_index"@),
        !m.contains_key("cited_text"@),
        !m.contains_key("url_citation"@),
        m.contains_key("url"@) ==> m["type"@] == jtext("url_citation"@),
        !m.contains_key("url"@) && m.contains_key("file_id"@) ==> m["type"@] == jtext(
            "file_citation"@,
        ),
    ensures
        openai_annotation_value(
            openai_annotation(JsonView::Object(m), LLMProtocol::OpenAiResponses),
            LLMProtocol::OpenAiResponses,
        ) == Ok::<JsonView, ErrorView>(JsonView::Object(m)),
{
    citation_names_differ();
    let known = openai_citation_keys();
    assert(known[0] == "type"@ && known[1] == "start_index"@ && known[2] == "end_index"@ && known[3]
        == "url"@ && known[4] == "title"@ && known[5] == "file_id"@ && known[6] == "filename"@
        && known[7] == "cited_text"@);
    let a = openai_annotation(JsonView::Object(m), LLMProtocol::OpenAiResponses);
    let fields = openai_citation_fields(a, LLMProtocol::OpenAiResponses, a.annotation_type);
    assert forall|k: Seq<char>| fields.contains_key(k) == m.contains_key(k) && (m.contains_key(k)
        ==> fields[k] == m[k]) by {
        if known.contains(k) {
            let i = choose|i: int| 0 <= i < known.len() && known[i] == k;
            assert(i == 0 || i == 1 || i == 2 || i == 3 || i == 4 || i == 5 || i == 6 || i == 7);
        }
    }
    assert(fields =~= m);
}

/// A citation of another format reaches the Messages format exactly where it has an address and
/// the cited text, and an OpenAI format exactly where it has an address or, for the Responses
/// format, a file.
pub proof fn foreign_citations(a: AnnotationView)
    ensures
        a.source != LLMProtocol::AnthropicMessages ==> (anthropic_annotation_value(a) is Ok <==> (
        a.url is Some && a.cited_text is Some)),
        a.source != LLMProtocol::OpenAiChat ==> (openai_annotation_value(a, LLMProtocol::OpenAiChat)
            is Ok <==> a.url is Some),
        a.source != LLMProtocol::OpenAiResponses ==> (openai_annotation_value(
            a,
            LLMProtocol::OpenAiResponses,
        ) is Ok <==> (a.url is Some || a.file_id is Some)),
{
}

/// What a part of a message has beyond the neutral form stays in its own format: written for
/// another, a part is the same whatever it has.
pub proof fn extensions_do_not_leak(c: ContentView, other: Fields, role: LLMRole, ids: IdsView)
    ensures
        c.source != Some(LLMProtocol::OpenAiChat) ==> chat_content_value(c) == chat_content_value(
            ContentView { metadata: other, ..c },
        ),
        c.source != Some(LLMProtocol::OpenAiResponses) ==> responses_part_value(c, role)
            == responses_part_value(ContentView { metadata: other, ..c }, role),
        c.source != Some(LLMProtocol::AnthropicMessages) ==> anthropic_block_value(c, ids)
            == anthropic_block_value(ContentView { metadata: other, ..c }, ids),
{
}

/// The words of a part, where it is a text.
pub open spec fn words(c: ContentView) -> Option<Seq<char>> {
    match c.kind {
        KindView::Text { text, .. } => Some(text),
        _ => None,
    }
}

/// A text that is written for a format and read back has the same words.
pub proof fn words_survive(c: ContentView, role: LLMRole, ids: IdsView)
    requires
        c.kind is Text,
    ensures
        chat_content_value(c) matches Ok(v) ==> words(chat_part_of(v)) == words(c),
        responses_part_value(c, role) matches Ok(v) ==> words(responses_part_of(v)) == words(c),
        anthropic_block_value(c, ids) matches Ok(v) ==> words(anthropic_block_of(v)) == words(c),
{
    reveal_strlit("type");
    reveal_strlit("text");
    reveal_strlit("annotations");
    reveal_strlit("citations");
    assert("type"@[1] == 'y' && "text"@[1] == 'e');
    assert("annotations"@.len() == 11 && "citations"@.len() == 9);
}

/// A part that only its own format knows is written as it came for that format, and refused for
/// every other.
pub proof fn raw_parts_stay_home(c: ContentView, role: LLMRole, ids: IdsView)
    requires
        c.kind is Raw,
    ensures
        chat_content_value(c) == (if c.kind->Raw_protocol == LLMProtocol::OpenAiChat {
            Ok(c.kind->Raw_value)
        } else {
            Err(chat_content_value(c)->Err_0)
        }),
        responses_part_value(c, role) == (if c.kind->Raw_protocol == LLMProtocol::OpenAiResponses {
            Ok(c.kind->Raw_value)
        } else {
            Err(responses_part_value(c, role)->Err_0)
        }),
        anthropic_block_value(c, ids) == (if c.kind->Raw_protocol
            == LLMProtocol::AnthropicMessages {
            Ok(c.kind->Raw_value)
        } else {
            Err(anthropic_block_value(c, ids)->Err_0)
        }),
{
}

/// Writing why the model stopped, reading it and writing it again gives the same name.
pub proof fn finish_reasons_settle(reason: LLMFinishReason)
    ensures
        chat_reason_text(chat_reason_of(chat_reason_text(reason))) == chat_reason_text(reason),
        anthropic_reason_text(anthropic_reason_of(anthropic_reason_text(reason)))
            == anthropic_reason_text(reason),
{
    reveal_strlit("stop");
    reveal_strlit("length");
    reveal_strlit("tool_calls");
    reveal_strlit("content_filter");
    reveal_strlit("function_call");
    reveal_strlit("end_turn");
    reveal_strlit("max_tokens");
    reveal_strlit("stop_sequence");
    reveal_strlit("tool_use");
    reveal_strlit("pause_turn");
    reveal_strlit("refusal");
    reveal_strlit("model_context_window_exceeded");
    assert("max_tokens"@[0] == 'm' && "pause_turn"@[0] == 'p');
    assert("end_turn"@[0] == 'e' && "tool_use"@[0] == 't');
}

} // verus!
