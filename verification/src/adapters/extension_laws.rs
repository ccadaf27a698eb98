//! What a request, a part or an answer has beyond what the formats share stays with its format.

use super::anthropic::{
    anthropic_block_keys, anthropic_block_of, anthropic_block_value, anthropic_extra_fields,
    anthropic_request_keys, anthropic_request_of, anthropic_request_value, anthropic_response_keys,
    anthropic_response_of,
};
use super::anthropic_stream::{
    anthropic_event_written, anthropic_parsed_read, error_fields, merged_usage,
};
use super::chat_stream::{chat_event_written, chat_parsed_read, stream_done};
use super::common::{arguments_of, object1, object2};
use super::event_laws::tells;
use super::fresh::IdsView;
use super::names::names_differ;
use super::openai_chat::{
    chat_audio_of, chat_audio_value, chat_content_value, chat_extra_fields, chat_legacy_call_of,
    chat_message_keys, chat_message_of, chat_message_value, chat_message_writer, chat_part_keys,
    chat_part_of, chat_request_fields, chat_request_keys, chat_request_of, chat_request_value,
    chat_response_of, other_tools, passed_through, response_base, with_annotations,
};
use super::openai_responses::{
    input_items, responses_extra_fields, responses_part_keys, responses_part_of,
    responses_part_value, responses_request_fields, responses_request_keys, responses_request_of,
    responses_request_value, responses_response_keys, responses_response_of,
};
use super::part_laws::says;
use super::request_laws::chat_request_made;
use super::responses_stream::{responses_event_written, responses_parsed_read};
use super::state::{ascending, lists, StateView};
use super::stream_laws::has_listing;
use super::tools::{tools_value, ToolDialect};
use crate::json::{jint, lookup, JsonView};
use crate::model::{
    no_fields, AnnotationView, ContentView, EventView, KindView, LLMProtocol, LLMRole, MediaView,
    MessageView, RequestView, ResponseView, UsageView,
};
use crate::seqs::try_map_ids;
use vstd::prelude::*;

verus! {

/// Whether a name is one of a Chat request that the formats share.
pub open spec fn shared_in_chat(k: Seq<char>) -> bool {
    k == "model"@ || k == "messages"@ || k == "stream"@ || k == "temperature"@ || k == "max_tokens"@
        || k == "max_completion_tokens"@ || k == "top_p"@ || k == "stop"@ || k == "tools"@ || k
        == "tool_choice"@ || k == "parallel_tool_calls"@ || k == "response_format"@ || k
        == "reasoning"@ || k == "reasoning_effort"@ || k == "metadata"@ || k
        == "web_search_options"@
}

/// Whether a name is one of a Responses request that the formats share.
pub open spec fn shared_in_responses(k: Seq<char>) -> bool {
    k == "model"@ || k == "input"@ || k == "instructions"@ || k == "stream"@ || k == "temperature"@
        || k == "max_output_tokens"@ || k == "top_p"@ || k == "stop"@ || k == "tools"@ || k
        == "tool_choice"@ || k == "parallel_tool_calls"@ || k == "text"@ || k == "reasoning"@ || k
        == "metadata"@
}

/// Whether a name is one of a Messages request that the formats share.
pub open spec fn shared_in_messages(k: Seq<char>) -> bool {
    k == "model"@ || k == "messages"@ || k == "system"@ || k == "stream"@ || k == "temperature"@ || k
        == "max_tokens"@ || k == "top_p"@ || k == "stop_sequences"@ || k == "tools"@ || k
        == "tool_choice"@ || k == "output_config"@ || k == "output_format"@ || k == "thinking"@ || k
        == "metadata"@
}

/// What a request has beyond what the formats share is kept where it is read.
pub proof fn other_settings_are_read(v: JsonView, k: Seq<char>)
    ensures
        chat_request_of(v) matches Ok(r) ==> (!shared_in_chat(k) ==> lookup(r.extra, k) == v.field(
            k,
        )),
        responses_request_of(v) matches Ok(r) ==> (!shared_in_responses(k) && k != "verbosity"@
            ==> lookup(r.extra, k) == v.field(k)),
        responses_request_of(v) matches Ok(r) ==> (v.at("text"@).field("verbosity"@) is Some
            ==> lookup(r.extra, "verbosity"@) == v.at("text"@).field("verbosity"@)),
        anthropic_request_of(v) matches Ok(r) ==> (!shared_in_messages(k) ==> lookup(r.extra, k)
            == v.field(k)),
{
}

proof fn others_pass_chat(
    r: RequestView,
    messages: Seq<JsonView>,
    tools: Seq<JsonView>,
    k: Seq<char>,
)
    requires
        !shared_in_chat(k),
    ensures
        lookup(chat_request_fields(r, messages, tools), k) == lookup(
            passed_through(r, chat_extra_fields()),
            k,
        ),
{
}

proof fn others_pass_responses(
    r: RequestView,
    input: Seq<JsonView>,
    tools: Seq<JsonView>,
    k: Seq<char>,
)
    requires
        !shared_in_responses(k),
    ensures
        lookup(responses_request_fields(r, input, tools), k) == lookup(
            passed_through(r, responses_extra_fields()),
            k,
        ),
{
}

/// What a request has beyond what the formats share is asked for of a server that knows it.
#[verifier::rlimit(40)]
pub proof fn other_settings_are_written(r: RequestView, ids: IdsView, k: Seq<char>)
    requires
        k != "service_tier"@,
    ensures
        chat_extra_fields().contains(k) && !shared_in_chat(k) ==> (chat_request_value(
            r,
            ids,
        ) matches Ok(v) ==> v.field(k) == lookup(r.extra, k)),
        responses_extra_fields().contains(k) && !shared_in_responses(k) ==> (
        responses_request_value(r, ids) matches Ok(v) ==> v.field(k) == lookup(r.extra, k)),
        k == "top_k"@ ==> (anthropic_request_value(r, ids) matches Ok(v) ==> v.field(k) == lookup(
            r.extra,
            k,
        )),
{
    names_differ();
    chat_request_made(r, ids);
    if let Ok(v) = chat_request_value(r, ids) {
        if !shared_in_chat(k) {
            let messages = try_map_ids(
                r.messages,
                ids,
                chat_message_writer(),
            )->Ok_0;
            let tools = tools_value(
                other_tools(r.tools),
                ToolDialect::OpenAiChat,
            )->Ok_0;
            others_pass_chat(r, messages, tools, k);
        }
    }
    if let Ok(v) = responses_request_value(r, ids) {
        if !shared_in_responses(k) {
            let input = input_items(r.messages, ids)->Ok_0;
            let tools = tools_value(
                r.tools,
                ToolDialect::OpenAiResponses,
            )->Ok_0;
            others_pass_responses(r, input, tools, k);
        }
    }
    let own = anthropic_extra_fields();
    assert(own[6] == "top_k"@);
}

/// A tier of service is asked for by the name that the server has for it.
pub proof fn tiers_of_service(r: RequestView, ids: IdsView, tier: Seq<char>)
    requires
        r.extra.contains_key("service_tier"@),
        r.extra["service_tier"@] == JsonView::Text(tier),
    ensures
        r.source == LLMProtocol::AnthropicMessages && tier == "standard_only"@ ==> says(
            JsonView::Object(passed_through(r, chat_extra_fields())),
            "service_tier"@,
            "default"@,
        ) && says(
            JsonView::Object(passed_through(r, responses_extra_fields())),
            "service_tier"@,
            "default"@,
        ),
        r.source != LLMProtocol::AnthropicMessages ==> says(
            JsonView::Object(passed_through(r, chat_extra_fields())),
            "service_tier"@,
            tier,
        ) && says(
            JsonView::Object(passed_through(r, responses_extra_fields())),
            "service_tier"@,
            tier,
        ),
        anthropic_request_value(r, ids) matches Ok(v) ==> says(
            v,
            "service_tier"@,
            if tier == "standard_only"@ {
                "standard_only"@
            } else {
                "auto"@
            },
        ),
{
    names_differ();
    assert(chat_extra_fields()[12] == "service_tier"@);
    assert(responses_extra_fields()[9] == "service_tier"@);
}

/// What a part has beyond what the formats share is kept where it is read, and written for its own
/// format alone.
pub proof fn extensions_of_parts(v: JsonView, c: ContentView, role: LLMRole, ids: IdsView, k: Seq<char>)
    requires
        !(c.kind is Raw),
    ensures
        !anthropic_block_keys().contains(k) ==> lookup(anthropic_block_of(v).metadata, k) == v.field(
            k,
        ),
        !chat_part_keys().contains(k) ==> lookup(chat_part_of(v).metadata, k) == v.field(k),
        !responses_part_keys().contains(k) ==> lookup(responses_part_of(v).metadata, k) == v.field(
            k,
        ),
        !anthropic_block_keys().contains(k) && k != "title"@ ==> (anthropic_block_value(
            c,
            ids,
        ) matches Ok(w) ==> w.field(k) == if c.source == Some(LLMProtocol::AnthropicMessages) {
            lookup(c.metadata, k)
        } else {
            None
        }),
        !responses_part_keys().contains(k) ==> (responses_part_value(c, role) matches Ok(w)
            ==> w.field(k) == if c.source == Some(LLMProtocol::OpenAiResponses) {
            lookup(c.metadata, k)
        } else {
            None
        }),
        !chat_part_keys().contains(k) && !(c.kind is Audio) ==> (chat_content_value(c) matches Ok(w)
            ==> w.field(k) == if c.source == Some(LLMProtocol::OpenAiChat) {
            lookup(c.metadata, k)
        } else {
            None
        }),
{
    reveal_with_fuel(anthropic_block_of, 2);
    let a = anthropic_block_keys();
    assert(a[0] == "type"@ && a[1] == "text"@ && a[2] == "source"@ && a[3] == "id"@ && a[4]
        == "name"@ && a[5] == "input"@ && a[6] == "tool_use_id"@ && a[7] == "content"@ && a[8]
        == "is_error"@ && a[9] == "thinking"@ && a[10] == "signature"@ && a[11] == "data"@ && a[12]
        == "citations"@);
    let b = chat_part_keys();
    assert(b[0] == "type"@ && b[1] == "text"@ && b[2] == "image_url"@ && b[3] == "input_audio"@
        && b[4] == "file"@);
    let d = responses_part_keys();
    assert(d[0] == "type"@ && d[1] == "text"@ && d[2] == "image_url"@ && d[3] == "file_id"@ && d[4]
        == "file_data"@ && d[5] == "file_url"@ && d[6] == "filename"@ && d[7] == "detail"@ && d[8]
        == "refusal"@ && d[9] == "input_audio"@ && d[10] == "annotations"@);
}

/// What a Chat message has beyond what the formats share is kept where it is read, and written for
/// Chat alone.
pub proof fn extensions_of_messages(v: JsonView, m: MessageView, ids: IdsView, k: Seq<char>)
    requires
        !chat_message_keys().contains(k),
    ensures
        chat_message_of(v) matches Ok(read) ==> lookup(read.metadata, k) == v.field(k),
        chat_message_value(m, ids) matches Ok(w) ==> w.field(k) == if m.source == Some(
            LLMProtocol::OpenAiChat,
        ) {
            lookup(m.metadata, k)
        } else {
            None
        },
{
    let b = chat_message_keys();
    assert(b[0] == "role"@ && b[1] == "content"@ && b[2] == "name"@ && b[3] == "tool_call_id"@
        && b[4] == "tool_calls"@ && b[6] == "refusal"@ && b[8] == "reasoning_content"@ && b[10]
        == "annotations"@ && b[11] == "audio"@);
}

/// What an answer has beyond what the formats share is written for its own format alone, but for
/// the tier of service, which both OpenAI formats tell.
pub proof fn extensions_of_answers(r: ResponseView, target: LLMProtocol, k: Seq<char>)
    ensures
        k != "service_tier"@ ==> lookup(response_base(r, target), k) == if r.source == target {
            lookup(r.extra, k)
        } else {
            None
        },
        r.extra.contains_key("service_tier"@) ==> lookup(response_base(r, target), "service_tier"@)
            == Some(r.extra["service_tier"@]),
{
}

/// The latest count that was told is the one that counts, for each kind of tokens.
pub proof fn later_counts_win(u: UsageView, update: UsageView)
    ensures
        ({
            let m = merged_usage(Some(u), update);
            &&& m.input_tokens == if update.input_tokens is Some {
                update.input_tokens
            } else {
                u.input_tokens
            }
            &&& m.output_tokens == if update.output_tokens is Some {
                update.output_tokens
            } else {
                u.output_tokens
            }
            &&& m.total_tokens == if update.total_tokens is Some {
                update.total_tokens
            } else {
                u.total_tokens
            }
            &&& m.cache_read_tokens == if update.cache_read_tokens is Some {
                update.cache_read_tokens
            } else {
                u.cache_read_tokens
            }
            &&& m.cache_creation_tokens == if update.cache_creation_tokens is Some {
                update.cache_creation_tokens
            } else {
                u.cache_creation_tokens
            }
            &&& m.reasoning_tokens == if update.reasoning_tokens is Some {
                update.reasoning_tokens
            } else {
                u.reasoning_tokens
            }
        }),
        merged_usage(None, update).input_tokens == update.input_tokens,
        merged_usage(None, update).output_tokens == update.output_tokens,
        merged_usage(None, update).cache_read_tokens == update.cache_read_tokens,
        merged_usage(None, update).cache_creation_tokens == update.cache_creation_tokens,
{
}

/// Sound that a Chat answer holds is read with its data and format, and written with them.
pub proof fn sound_of_answers(v: JsonView, c: ContentView, data: Seq<char>, format: Seq<char>)
    ensures
        says(v, "data"@, data) && says(v, "format"@, format) ==> (
        chat_audio_of(v).kind matches KindView::Audio { source, format: read } && source == (
        MediaView::Data { data, media_type: Some(format) }) && read == Some(format)),
        v.at("data"@) == JsonView::Null && says(v, "id"@, data) ==> (
        chat_audio_of(v).kind matches KindView::Audio { source, .. } && source == (
        MediaView::FileId { file_id: data })),
        c.kind == (KindView::Audio {
            source: MediaView::Data { data, media_type: None },
            format: Some(format),
        }) ==> says(chat_audio_value(c), "data"@, data) && says(
            chat_audio_value(c),
            "format"@,
            format,
        ),
        c.kind == (KindView::Audio {
            source: MediaView::FileId { file_id: data },
            format: None,
        }) ==> says(chat_audio_value(c), "id"@, data),
{
    names_differ();
}

/// A call in the old form of Chat is read as a call, and told to be one of the old form.
pub proof fn calls_in_the_old_form(function: JsonView, name: Seq<char>, arguments: Seq<char>)
    requires
        says(function, "name"@, name),
        says(function, "arguments"@, arguments),
    ensures
        chat_legacy_call_of(function) matches Ok(c) && (c.kind matches KindView::ToolCall {
            id,
            name: read,
            arguments: given,
        } && id is None && read == name && given == arguments_of(arguments))
            && c.metadata.contains_key("legacy_function_call"@),
{
    names_differ();
}

/// The citations of a Chat message are those of its first text; no part is lost.
pub proof fn citations_of_messages(s: Seq<ContentView>, list: Seq<AnnotationView>, i: int)
    requires
        0 <= i < s.len(),
    ensures
        with_annotations(s, list).len() == s.len(),
        !(s[i].kind is Text) ==> with_annotations(s, list)[i] == s[i],
        s[0].kind matches KindView::Text { text, annotations } ==> (with_annotations(
            s,
            list,
        )[0].kind matches KindView::Text { text: same, annotations: all } && same == text && all
            == annotations + list),
        list.len() == 0 ==> with_annotations(s, list) == s,
    decreases s.len(),
{
    if list.len() > 0 {
        if !(s[0].kind is Text) && i > 0 {
            let rest = s.subrange(1, s.len() as int);
            citations_of_messages(rest, list, i - 1);
            assert(rest[i - 1] == s[i]);
        } else if !(s[0].kind is Text) {
            let rest = s.subrange(1, s.len() as int);
            if rest.len() > 0 {
                citations_of_messages(rest, list, 0);
            }
        }
    } else if let KindView::Text { annotations, .. } = s[0].kind {
        assert(annotations + list =~= annotations);
    }
}

/// The end of a stream that is read ends every part that is open, and then the message.
pub proof fn open_parts_are_ended(s: StateView, i: int)
    requires
        !s.ended,
        s.open_content.finite(),
        0 <= i < ascending(s.open_content).len(),
    ensures
        s.open_content.contains(ascending(s.open_content)[i]),
        forall|part: usize| #[trigger]
            s.open_content.contains(part) ==> ascending(s.open_content).contains(part),
        forall|j: int| 0 <= j < i ==> ascending(s.open_content)[j] < ascending(s.open_content)[i],
        ({
            let p = stream_done(s);
            &&& p.events.len() == ascending(s.open_content).len() + 1
            &&& p.events[i] == (EventView::ContentEnd { index: ascending(s.open_content)[i] })
            &&& p.events.last() matches EventView::MessageEnd { finish_reason, usage, .. }
                && finish_reason == s.finish_reason && usage == s.usage
            &&& p.state.ended
            &&& p.state.open_content == Set::<usize>::empty()
            &&& stream_done(p.state).events.len() == 0
        }),
{
    has_listing(s.open_content);
    let list = ascending(s.open_content);
    assert(lists(list, s.open_content));
    assert(list.contains(list[i]));
}

/// What the formats share is not kept a second time.
pub proof fn nothing_is_kept_twice(v: JsonView, k: Seq<char>)
    ensures
        chat_request_of(v) matches Ok(r) ==> (shared_in_chat(k) ==> !r.extra.contains_key(k)),
        responses_request_of(v) matches Ok(r) ==> (shared_in_responses(k) ==> !r.extra.contains_key(
            k,
        )),
        anthropic_request_of(v) matches Ok(r) ==> (shared_in_messages(k) ==> !r.extra.contains_key(
            k,
        )),
        k == "type"@ || k == "text"@ ==> !anthropic_block_of(v).metadata.contains_key(k)
            && !chat_part_of(v).metadata.contains_key(k) && !responses_part_of(
            v,
        ).metadata.contains_key(k),
{
    names_differ();
    reveal_with_fuel(anthropic_block_of, 2);
    let a = chat_request_keys();
    assert(a[0] == "model"@ && a[1] == "messages"@ && a[2] == "temperature"@ && a[3]
        == "max_completion_tokens"@ && a[4] == "max_tokens"@ && a[5] == "top_p"@ && a[6] == "stop"@
        && a[7] == "stream"@ && a[8] == "tools"@ && a[9] == "tool_choice"@ && a[10]
        == "parallel_tool_calls"@ && a[11] == "response_format"@ && a[12] == "reasoning"@ && a[13]
        == "reasoning_effort"@ && a[14] == "metadata"@ && a[15] == "web_search_options"@);
    let b = responses_request_keys();
    assert(b[0] == "model"@ && b[1] == "input"@ && b[2] == "instructions"@ && b[3] == "temperature"@
        && b[4] == "max_output_tokens"@ && b[5] == "top_p"@ && b[6] == "stop"@ && b[7] == "stream"@
        && b[8] == "tools"@ && b[9] == "tool_choice"@ && b[10] == "parallel_tool_calls"@ && b[11]
        == "text"@ && b[12] == "reasoning"@ && b[13] == "metadata"@);
    let c = anthropic_request_keys();
    assert(c[0] == "model"@ && c[1] == "messages"@ && c[2] == "system"@ && c[3] == "temperature"@
        && c[4] == "max_tokens"@ && c[5] == "top_p"@ && c[6] == "stop_sequences"@ && c[7]
        == "stream"@ && c[8] == "tools"@ && c[9] == "tool_choice"@ && c[10] == "output_config"@
        && c[11] == "output_format"@ && c[12] == "thinking"@ && c[13] == "metadata"@);
    let d = anthropic_block_keys();
    assert(d[0] == "type"@ && d[1] == "text"@);
    let e = chat_part_keys();
    assert(e[0] == "type"@ && e[1] == "text"@);
    let f = responses_part_keys();
    assert(f[0] == "type"@ && f[1] == "text"@);
}

/// What an answer has beyond what the formats share is kept where it is read, and nothing else.
pub proof fn other_fields_of_answers_are_read(v: JsonView, k: Seq<char>)
    ensures
        chat_response_of(v) matches Ok(r) ==> lookup(r.extra, k) == if k == "id"@ || k == "object"@
            || k == "model"@ || k == "choices"@ || k == "usage"@ {
            None
        } else {
            v.field(k)
        },
        lookup(anthropic_response_of(v).extra, k) == if k == "id"@ || k == "type"@ || k == "role"@
            || k == "model"@ || k == "content"@ || k == "stop_reason"@ || k == "stop_sequence"@ || k
            == "usage"@ {
            None
        } else {
            v.field(k)
        },
        responses_response_of(v) matches Ok(r) ==> lookup(r.extra, k) == if k == "id"@ || k
            == "object"@ || k == "created_at"@ || k == "model"@ || k == "output"@ || k
            == "output_text"@ || k == "status"@ || k == "usage"@ || k == "metadata"@ || k
            == "error"@ || k == "incomplete_details"@ {
            None
        } else {
            v.field(k)
        },
{
    let a = seq!["id"@, "object"@, "model"@, "choices"@, "usage"@];
    assert(a[0] == "id"@ && a[1] == "object"@ && a[2] == "model"@ && a[3] == "choices"@ && a[4]
        == "usage"@);
    let b = anthropic_response_keys();
    assert(b[0] == "id"@ && b[1] == "type"@ && b[2] == "role"@ && b[3] == "model"@ && b[4]
        == "content"@ && b[5] == "stop_reason"@ && b[6] == "stop_sequence"@ && b[7] == "usage"@);
    let c = responses_response_keys();
    assert(c[0] == "id"@ && c[1] == "object"@ && c[2] == "created_at"@ && c[3] == "model"@ && c[4]
        == "output"@ && c[5] == "output_text"@ && c[6] == "status"@ && c[7] == "usage"@ && c[8]
        == "metadata"@ && c[9] == "error"@ && c[10] == "incomplete_details"@);
}

/// What an error of a stream says beyond its message is told and read with it.
pub proof fn errors_say_all(
    s: StateView,
    message: Seq<char>,
    metadata: Map<Seq<char>, JsonView>,
    ids: IdsView,
    now: i64,
    v: JsonView,
    name: Option<Seq<char>>,
    k: Seq<char>,
) -> (vs: (JsonView, JsonView, JsonView))
    requires
        k != "message"@,
        k != "type"@,
    ensures
        chat_event_written(s, EventView::Error { message, metadata }, ids, now).1 matches Ok(out)
            && tells(out[0], vs.0) && vs.0.at("error"@).field(k) == lookup(metadata, k),
        responses_event_written(s, EventView::Error { message, metadata }, ids, now).1 matches Ok(
            out,
        ) && tells(out[0], vs.1) && vs.1.at("error"@).field(k) == lookup(metadata, k),
        anthropic_event_written(s, EventView::Error { message, metadata }, ids).1 matches Ok(out)
            && tells(out[0], vs.2) && vs.2.at("error"@).field(k) == lookup(metadata, k),
        v.at("error"@) is Object ==> (chat_parsed_read(Some(v), s).1 matches Ok(events) && (
        events[0] matches EventView::Error { metadata: read, .. } && JsonView::Object(read) == v.at(
            "error"@,
        ))),
        v.at("error"@) is Object && says(v, "type"@, "error"@) ==> (anthropic_parsed_read(
            Some(v),
            name,
            s,
        ).1 matches Ok(events) && (events[0] matches EventView::Error { metadata: read, .. }
            && JsonView::Object(read) == v.at("error"@))) && (responses_parsed_read(
            Some(v),
            name,
            s,
        ).1 matches Ok(events) && (events[0] matches EventView::Error { metadata: read, .. }
            && JsonView::Object(read) == v.at("error"@))),
{
    names_differ();
    let fields = metadata.insert("message"@, JsonView::Text(message));
    (
        object1("error"@, JsonView::Object(fields)),
        JsonView::Object(
            no_fields().insert("error"@, JsonView::Object(fields)).insert(
                "type"@,
                JsonView::Text("error"@),
            ).insert("sequence_number"@, jint(s.sequence_number)),
        ),
        object2(
            "type"@,
            JsonView::Text("error"@),
            "error"@,
            JsonView::Object(error_fields(message, metadata)),
        ),
    )
}

} // verus!
