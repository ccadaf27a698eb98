//! What a request asks for is asked for in every format, under the names on the wire.

use super::anthropic::{
    anthropic_choice_of, anthropic_content_of, anthropic_extra_fields, anthropic_message_of,
    anthropic_message_reader, anthropic_request_of, anthropic_request_value, output_config,
    request_choice_value, thinking_value,
};
use super::error::ErrorView;
use super::fresh::IdsView;
use super::names::names_differ;
use super::openai_chat::{
    chat_choice_of, chat_choice_value, chat_extra_fields, chat_format_of, chat_format_value,
    chat_message_of, chat_message_reader, chat_message_writer, chat_request_fields, chat_request_of,
    chat_request_value, last_search, other_tools,
};
use super::openai_responses::{
    responses_choice_of, responses_choice_value, responses_content_of, responses_extra_fields,
    responses_item_of, responses_item_reader, responses_request_of, responses_request_value,
    responses_text_fields,
};
use super::part_laws::says;
use super::tools::{tools_of, tools_value, ToolDialect};
use crate::json::{lookup, JsonView, NumView};
use crate::model::{no_fields, text_part, LLMProtocol, LLMRole, MessageView, RequestView, ToolView};
use crate::seqs::{try_map_each, try_map_ids};
use crate::wire::double_of;
use vstd::prelude::*;

verus! {

/// Whether a field holds a number written as a fraction, or is not there where there is none.
pub open spec fn fraction_at(v: JsonView, name: Seq<char>, number: Option<Seq<char>>) -> bool {
    match number {
        Some(text) => v.at(name) == JsonView::Number(NumView::Float(text)),
        None => v.field(name) is None,
    }
}

/// Whether a field holds a count, or is not there where there is none.
pub open spec fn count_at(v: JsonView, name: Seq<char>, n: Option<u64>) -> bool {
    match n {
        Some(n) => v.at(name) == JsonView::Number(NumView::PosInt(n)),
        None => v.field(name) is None,
    }
}

proof fn not_passed(r: RequestView)
    ensures
        !chat_extra_fields().contains("temperature"@),
        !chat_extra_fields().contains("max_tokens"@),
        !chat_extra_fields().contains("top_p"@),
        !chat_extra_fields().contains("stop"@),
        !chat_extra_fields().contains("tools"@),
        !chat_extra_fields().contains("tool_choice"@),
        !chat_extra_fields().contains("parallel_tool_calls"@),
        !chat_extra_fields().contains("response_format"@),
        !chat_extra_fields().contains("metadata"@),
        !responses_extra_fields().contains("temperature"@),
        !responses_extra_fields().contains("max_output_tokens"@),
        !responses_extra_fields().contains("top_p"@),
        !responses_extra_fields().contains("stop"@),
        !responses_extra_fields().contains("tools"@),
        !responses_extra_fields().contains("tool_choice"@),
        !responses_extra_fields().contains("parallel_tool_calls"@),
        !responses_extra_fields().contains("reasoning"@),
        !responses_extra_fields().contains("text"@),
        !responses_extra_fields().contains("metadata"@),
        !anthropic_extra_fields().contains("system"@),
        !anthropic_extra_fields().contains("temperature"@),
        !anthropic_extra_fields().contains("top_p"@),
        !anthropic_extra_fields().contains("stop_sequences"@),
        !anthropic_extra_fields().contains("tools"@),
        !anthropic_extra_fields().contains("tool_choice"@),
        !anthropic_extra_fields().contains("thinking"@),
        !anthropic_extra_fields().contains("output_config"@),
        !anthropic_extra_fields().contains("metadata"@),
{
    names_differ();
}

proof fn chat_conversation_set(r: RequestView, messages: Seq<JsonView>, tools: Seq<JsonView>)
    ensures
        ({
            let v = JsonView::Object(chat_request_fields(r, messages, tools));
            v.at("messages"@) == JsonView::Array(messages)
        }),
{
    names_differ();
}

proof fn chat_tools_set(r: RequestView, messages: Seq<JsonView>, tools: Seq<JsonView>)
    ensures
        ({
            let v = JsonView::Object(chat_request_fields(r, messages, tools));
            &&& v.at("tools"@).list() == tools
            &&& last_search(r.tools) matches Some(options) ==> v.at("web_search_options"@)
                == options
        }),
{
    names_differ();
    not_passed(r);
}

proof fn chat_sampling_set(r: RequestView, messages: Seq<JsonView>, tools: Seq<JsonView>)
    ensures
        ({
            let v = JsonView::Object(chat_request_fields(r, messages, tools));
            &&& fraction_at(v, "temperature"@, r.temperature)
            &&& fraction_at(v, "top_p"@, r.top_p)
            &&& count_at(v, "max_tokens"@, r.max_tokens)
            &&& v.field("stop"@) == r.stop
        }),
{
    names_differ();
    not_passed(r);
}

proof fn chat_choices_set(r: RequestView, messages: Seq<JsonView>, tools: Seq<JsonView>)
    ensures
        ({
            let v = JsonView::Object(chat_request_fields(r, messages, tools));
            &&& r.parallel_tool_calls matches Some(b) ==> v.at("parallel_tool_calls"@)
                == JsonView::Bool(b)
            &&& r.parallel_tool_calls is None ==> v.field("parallel_tool_calls"@) is None
            &&& r.tool_choice matches Some(choice) ==> v.at("tool_choice"@) == chat_choice_value(
                choice,
            )
            &&& r.tool_choice is None ==> v.field("tool_choice"@) is None
            &&& r.response_format matches Some(format) ==> v.at("response_format"@)
                == chat_format_value(format)
            &&& r.response_format is None ==> v.field("response_format"@) is None
            &&& r.metadata != no_fields() ==> v.at("metadata"@) == JsonView::Object(r.metadata)
        }),
{
    names_differ();
    not_passed(r);
}

/// A Chat request is made of the written messages and tools.
pub(crate) proof fn chat_request_made(r: RequestView, ids: IdsView)
    ensures
        chat_request_value(r, ids) matches Ok(v) ==> {
            let messages = try_map_ids(r.messages, ids, chat_message_writer());
            let tools = tools_value(other_tools(r.tools), ToolDialect::OpenAiChat);
            messages is Ok && tools is Ok && v == JsonView::Object(
                chat_request_fields(r, messages->Ok_0, tools->Ok_0),
            ) && v.at("messages"@) == JsonView::Array(messages->Ok_0)
        },
{
    if chat_request_value(r, ids) is Ok {
        let messages = try_map_ids(r.messages, ids, chat_message_writer())->Ok_0;
        let tools = tools_value(other_tools(r.tools), ToolDialect::OpenAiChat)->Ok_0;
        chat_conversation_set(r, messages, tools);
    }
}

/// What a request sets is asked for of a Chat server, and nothing that it does not set.
pub proof fn settings_in_chat(r: RequestView, ids: IdsView)
    ensures
        chat_request_value(r, ids) matches Ok(v) ==> {
            &&& fraction_at(v, "temperature"@, r.temperature)
            &&& fraction_at(v, "top_p"@, r.top_p)
            &&& count_at(v, "max_tokens"@, r.max_tokens)
            &&& v.field("stop"@) == r.stop
            &&& r.parallel_tool_calls matches Some(b) ==> v.at("parallel_tool_calls"@)
                == JsonView::Bool(b)
            &&& r.parallel_tool_calls is None ==> v.field("parallel_tool_calls"@) is None
            &&& r.tool_choice matches Some(choice) ==> v.at("tool_choice"@) == chat_choice_value(
                choice,
            )
            &&& r.tool_choice is None ==> v.field("tool_choice"@) is None
            &&& r.response_format matches Some(format) ==> v.at("response_format"@)
                == chat_format_value(format)
            &&& r.response_format is None ==> v.field("response_format"@) is None
            &&& r.metadata != no_fields() ==> v.at("metadata"@) == JsonView::Object(r.metadata)
            &&& tools_value(other_tools(r.tools), ToolDialect::OpenAiChat) == Ok::<
                Seq<JsonView>,
                ErrorView,
            >(v.at("tools"@).list())
            &&& last_search(r.tools) matches Some(options) ==> v.at("web_search_options"@)
                == options
        },
{
    chat_request_made(r, ids);
    if chat_request_value(r, ids) is Ok {
        let messages = try_map_ids(r.messages, ids, chat_message_writer())->Ok_0;
        let tools = tools_value(other_tools(r.tools), ToolDialect::OpenAiChat)->Ok_0;
        chat_conversation_set(r, messages, tools);
        chat_tools_set(r, messages, tools);
        chat_sampling_set(r, messages, tools);
        chat_choices_set(r, messages, tools);
    }
}

/// What a request sets is asked for of a Responses server, and nothing that it does not set.
pub proof fn settings_in_responses(r: RequestView, ids: IdsView)
    ensures
        responses_request_value(r, ids) matches Ok(v) ==> {
            &&& says(v, "model"@, r.model)
            &&& v.at("stream"@) == JsonView::Bool(r.stream)
            &&& fraction_at(v, "temperature"@, r.temperature)
            &&& fraction_at(v, "top_p"@, r.top_p)
            &&& count_at(v, "max_output_tokens"@, r.max_tokens)
            &&& v.field("stop"@) == r.stop
            &&& r.parallel_tool_calls matches Some(b) ==> v.at("parallel_tool_calls"@)
                == JsonView::Bool(b)
            &&& r.parallel_tool_calls is None ==> v.field("parallel_tool_calls"@) is None
            &&& r.tool_choice matches Some(choice) ==> v.at("tool_choice"@)
                == responses_choice_value(choice)
            &&& r.tool_choice is None ==> v.field("tool_choice"@) is None
            &&& r.response_format matches Some(format) ==> v.at("text"@).at("format"@) == format
            &&& r.response_format is None ==> v.at("text"@).field("format"@) is None
            &&& r.reasoning matches Some(reasoning) ==> (r.source
                != LLMProtocol::AnthropicMessages ==> v.at("reasoning"@) == reasoning)
            &&& r.reasoning is None ==> v.field("reasoning"@) is None
            &&& r.metadata != no_fields() ==> v.at("metadata"@) == JsonView::Object(r.metadata)
            &&& tools_value(r.tools, ToolDialect::OpenAiResponses) == Ok::<
                Seq<JsonView>,
                ErrorView,
            >(v.at("tools"@).list())
        },
{
    names_differ();
    not_passed(r);
    if r.response_format is Some {
        assert(responses_text_fields(r).contains_key("format"@));
    }
}

/// How wordy an answer is to be is asked for of a Responses server beside the form of its text, and
/// metadata are sent where there are some.
pub proof fn wordiness_in_responses(r: RequestView, ids: IdsView)
    ensures
        responses_request_value(r, ids) matches Ok(v) ==> {
            &&& v.at("text"@).field("verbosity"@) == lookup(r.extra, "verbosity"@)
            &&& r.metadata == no_fields() ==> v.field("metadata"@) is None
        },
{
    names_differ();
    not_passed(r);
    if r.extra.contains_key("verbosity"@) {
        assert(responses_text_fields(r).contains_key("verbosity"@));
    }
}

/// What a request sets is asked for of a Messages server, and nothing that it does not set, but
/// for a limit, which that server wants.
pub proof fn settings_in_messages(r: RequestView, ids: IdsView)
    ensures
        anthropic_request_value(r, ids) matches Ok(v) ==> {
            &&& says(v, "model"@, r.model)
            &&& v.at("stream"@) == JsonView::Bool(r.stream)
            &&& fraction_at(v, "temperature"@, r.temperature)
            &&& fraction_at(v, "top_p"@, r.top_p)
            &&& r.max_tokens is Some ==> count_at(v, "max_tokens"@, r.max_tokens)
            &&& r.max_tokens is None ==> count_at(v, "max_tokens"@, Some(1024))
            &&& r.stop is None ==> v.field("stop_sequences"@) is None
            &&& r.stop matches Some(stop) ==> (stop is Array ==> v.at("stop_sequences"@) == stop)
            &&& r.stop matches Some(stop) ==> (stop is Text ==> v.at("stop_sequences"@)
                == JsonView::Array(seq![stop]))
            &&& request_choice_value(r) == Ok::<Option<JsonView>, ErrorView>(
                v.field("tool_choice"@),
            )
            &&& r.response_format matches Some(format) ==> v.at("output_config"@).at("format"@)
                == format
            &&& r.response_format is None ==> v.at("output_config"@).field("format"@) is None
            &&& r.reasoning matches Some(reasoning) ==> v.at("output_config"@).field("effort"@)
                == reasoning.field("effort"@)
            &&& r.reasoning is None ==> v.field("thinking"@) is None && v.at(
                "output_config"@,
            ).field("effort"@) is None
            &&& tools_value(r.tools, ToolDialect::Anthropic) == Ok::<Seq<JsonView>, ErrorView>(
                v.at("tools"@).list(),
            )
        },
{
    names_differ();
    not_passed(r);
    if r.response_format is Some {
        assert(output_config(r).contains_key("format"@));
    }
    if let Some(reasoning) = r.reasoning {
        if reasoning.field("effort"@) is Some {
            assert(output_config(r).contains_key("effort"@));
        }
    }
}

/// The user that a Messages server is told of: the one that the request names, in its metadata or
/// beside it.
pub proof fn users_in_messages(r: RequestView, ids: IdsView, user: Seq<char>)
    ensures
        anthropic_request_value(r, ids) matches Ok(v) ==> {
            &&& r.metadata.contains_key("user_id"@) && r.metadata["user_id"@] == JsonView::Text(
                user,
            ) ==> says(v.at("metadata"@), "user_id"@, user)
            &&& !r.metadata.contains_key("user_id"@) && r.extra.contains_key("user"@)
                && r.extra["user"@] == JsonView::Text(user) ==> says(
                v.at("metadata"@),
                "user_id"@,
                user,
            )
            &&& !r.metadata.contains_key("user_id"@) && !r.extra.contains_key("user"@)
                && r.extra.contains_key("safety_identifier"@) && r.extra["safety_identifier"@]
                == JsonView::Text(user) ==> says(v.at("metadata"@), "user_id"@, user)
        },
{
    names_differ();
}

/// How far a model is to reason is told in every format.
pub proof fn efforts_are_told(r: RequestView, ids: IdsView, effort: Seq<char>)
    requires
        r.reasoning matches Some(reasoning) && says(reasoning, "effort"@, effort),
    ensures
        chat_request_value(r, ids) matches Ok(v) ==> says(v, "reasoning_effort"@, effort),
        responses_request_value(r, ids) matches Ok(v) ==> says(v.at("reasoning"@), "effort"@, effort)
            || r.source == LLMProtocol::AnthropicMessages && says(
            r.reasoning->0,
            "type"@,
            "disabled"@,
        ),
        anthropic_request_value(r, ids) matches Ok(v) ==> says(
            v.at("output_config"@),
            "effort"@,
            effort,
        ),
        r.source != LLMProtocol::AnthropicMessages && effort == "none"@ ==> (
        anthropic_request_value(r, ids) matches Ok(v) ==> says(
            v.at("thinking"@),
            "type"@,
            "disabled"@,
        )),
        r.source != LLMProtocol::AnthropicMessages && effort != "none"@ ==> (
        anthropic_request_value(r, ids) matches Ok(v) ==> says(
            v.at("thinking"@),
            "type"@,
            "adaptive"@,
        )),
{
    names_differ();
    not_passed(r);
    assert(output_config(r).contains_key("effort"@));
    let thinking = thinking_value(r.reasoning->0, r.source);
    if r.source != LLMProtocol::AnthropicMessages {
        assert(thinking.fields_or_none().contains_key("type"@));
    }
}

/// How a Messages client lets a model think, as the other servers are asked for it.
pub proof fn thinking_is_told(r: RequestView, ids: IdsView, thinking: JsonView, budget: u64)
    requires
        r.source == LLMProtocol::AnthropicMessages,
        r.reasoning == Some(thinking),
        thinking.field("effort"@) is None,
    ensures
        says(thinking, "type"@, "disabled"@) ==> (responses_request_value(r, ids) matches Ok(v)
            ==> says(v.at("reasoning"@), "effort"@, "none"@)) && (chat_request_value(
            r,
            ids,
        ) matches Ok(v) ==> v.field("reasoning_effort"@) is None),
        says(thinking, "type"@, "enabled"@) && thinking.at("budget_tokens"@) == JsonView::Number(
            NumView::PosInt(budget),
        ) ==> (responses_request_value(r, ids) matches Ok(v) ==> says(
            v.at("reasoning"@),
            "effort"@,
            if budget <= 2048 {
                "low"@
            } else if budget <= 8192 {
                "medium"@
            } else {
                "high"@
            },
        )) && (chat_request_value(r, ids) matches Ok(v) ==> says(v, "reasoning_effort"@, "high"@)),
        anthropic_request_value(r, ids) matches Ok(v) ==> (thinking matches JsonView::Object(m)
            ==> m != no_fields() ==> v.at("thinking"@) == thinking),
{
    names_differ();
    assert(!chat_extra_fields().contains("reasoning_effort"@));
    if let JsonView::Object(m) = thinking {
        assert(m.remove("effort"@) =~= m);
    }
}

/// A schema for the answer is written for Chat under its own name, and read back as it was.
pub proof fn formats_of_answers(format: JsonView, schema: Map<Seq<char>, JsonView>)
    ensures
        !says(format, "type"@, "json_schema"@) ==> chat_format_value(format) == format
            && chat_format_of(format) == format,
        format == JsonView::Object(schema) && says(format, "type"@, "json_schema"@) ==> {
            let v = chat_format_value(format);
            &&& says(v, "type"@, "json_schema"@)
            &&& v.at("json_schema"@) == JsonView::Object(schema.remove("type"@))
            &&& chat_format_of(v) == format
        },
{
    names_differ();
    if format == JsonView::Object(schema) && says(format, "type"@, "json_schema"@) {
        let v = chat_format_value(format);
        assert(v.at("json_schema"@) == JsonView::Object(schema.remove("type"@)));
        assert(schema.remove("type"@).insert("type"@, JsonView::Text("json_schema"@)) =~= schema);
    }
}

/// What a Chat client asks for is what its request says under the names of the format.
pub proof fn chat_requests_read(v: JsonView, i: int)
    ensures
        chat_request_of(v) matches Ok(r) ==> {
            &&& says(v, "model"@, r.model)
            &&& r.source == LLMProtocol::OpenAiChat
            &&& r.messages.len() == v.at("messages"@).list().len()
            &&& 0 <= i < r.messages.len() ==> chat_message_of(v.at("messages"@).list()[i]) == Ok::<
                MessageView,
                ErrorView,
            >(r.messages[i])
            &&& r.stream == (v.at("stream"@) == JsonView::Bool(true))
            &&& r.temperature == double_of(v.at("temperature"@))
            &&& r.top_p == double_of(v.at("top_p"@))
            &&& r.stop == v.field("stop"@)
            &&& v.at("max_completion_tokens"@).uint() is Some ==> r.max_tokens == v.at(
                "max_completion_tokens"@,
            ).uint()
            &&& v.at("max_completion_tokens"@).uint() is None ==> r.max_tokens == v.at(
                "max_tokens"@,
            ).uint()
            &&& r.parallel_tool_calls == v.at("parallel_tool_calls"@).truth()
            &&& r.tool_choice == chat_choice_of(v.field("tool_choice"@))
            &&& v.field("response_format"@) is None ==> r.response_format is None
            &&& v.field("response_format"@) matches Some(format) ==> r.response_format == Some(
                chat_format_of(format),
            )
            &&& v.field("reasoning"@) is None && v.field("reasoning_effort"@) is Some ==> (
            r.reasoning matches Some(reasoning) && reasoning.at("effort"@) == v.at(
                "reasoning_effort"@,
            ))
            &&& v.field("reasoning"@) is Some ==> r.reasoning == v.field("reasoning"@)
            &&& v.at("metadata"@) is Object ==> JsonView::Object(r.metadata) == v.at("metadata"@)
            &&& v.field("web_search_options"@) is None ==> tools_of(
                v.at("tools"@),
                ToolDialect::OpenAiChat,
            ) == Ok::<Seq<ToolView>, ErrorView>(r.tools)
        },
        v.at("model"@).text() is None ==> chat_request_of(v) == Err::<RequestView, ErrorView>(
            ErrorView::MissingField("model"@),
        ),
        v.at("model"@).text() is Some && !(v.at("messages"@) is Array) ==> chat_request_of(v)
            == Err::<RequestView, ErrorView>(ErrorView::MissingField("messages"@)),
{
    names_differ();
    let list = v.at("messages"@).list();
    try_map_each(list, chat_message_reader());
    if 0 <= i < list.len() {
        assert(chat_message_reader()(list[i]) == chat_message_of(list[i]));
    }
}

/// What a Responses client asks for is what its request says under the names of the format.
pub proof fn responses_requests_read(v: JsonView, i: int)
    ensures
        responses_request_of(v) matches Ok(r) ==> {
            let instructed: int = if v.at("instructions"@) == JsonView::Null {
                0
            } else {
                1
            };
            &&& says(v, "model"@, r.model)
            &&& r.source == LLMProtocol::OpenAiResponses
            &&& v.at("input"@) matches JsonView::Array(items) ==> r.messages.len() == items.len()
                + instructed && (0 <= i < items.len() ==> responses_item_of(items[i]) == Ok::<
                MessageView,
                ErrorView,
            >(r.messages[i + instructed]))
            &&& v.at("input"@) matches JsonView::Text(text) ==> r.messages.len() == 1 + instructed
                && r.messages[instructed].role == LLMRole::User && r.messages[instructed].content
                == seq![text_part(text)]
            &&& instructed == 1 ==> r.messages[0].role == LLMRole::Developer && r.messages[0].content
                == responses_content_of(v.at("instructions"@))
            &&& r.stream == (v.at("stream"@) == JsonView::Bool(true))
            &&& r.temperature == double_of(v.at("temperature"@))
            &&& r.top_p == double_of(v.at("top_p"@))
            &&& r.stop == v.field("stop"@)
            &&& r.max_tokens == v.at("max_output_tokens"@).uint()
            &&& r.parallel_tool_calls == v.at("parallel_tool_calls"@).truth()
            &&& r.tool_choice == responses_choice_of(v.field("tool_choice"@))
            &&& r.response_format == v.at("text"@).field("format"@)
            &&& r.reasoning == v.field("reasoning"@)
            &&& v.at("metadata"@) is Object ==> JsonView::Object(r.metadata) == v.at("metadata"@)
            &&& tools_of(v.at("tools"@), ToolDialect::OpenAiResponses) == Ok::<
                Seq<ToolView>,
                ErrorView,
            >(r.tools)
        },
        v.at("model"@).text() is None ==> responses_request_of(v) == Err::<
            RequestView,
            ErrorView,
        >(ErrorView::MissingField("model"@)),
{
    names_differ();
    let list = v.at("input"@).list();
    try_map_each(list, responses_item_reader());
    if 0 <= i < list.len() {
        assert(responses_item_reader()(list[i]) == responses_item_of(list[i]));
    }
}

/// What a Messages client asks for is what its request says under the names of the format.
pub proof fn messages_requests_read(v: JsonView, i: int)
    ensures
        anthropic_request_of(v) matches Ok(r) ==> {
            let list = v.at("messages"@).list();
            let instructed: int = if v.at("system"@) == JsonView::Null {
                0
            } else {
                1
            };
            &&& says(v, "model"@, r.model)
            &&& r.source == LLMProtocol::AnthropicMessages
            &&& r.messages.len() == list.len() + instructed
            &&& 0 <= i < list.len() ==> r.messages[i + instructed].content == anthropic_content_of(
                list[i].at("content"@),
            ) && (r.messages[i + instructed].role == LLMRole::Assistant <==> says(
                list[i],
                "role"@,
                "assistant"@,
            )) && (r.messages[i + instructed].role == LLMRole::Assistant || r.messages[i
                + instructed].role == LLMRole::User)
            &&& instructed == 1 ==> r.messages[0].role == LLMRole::System && r.messages[0].content
                == anthropic_content_of(v.at("system"@))
            &&& r.stream == (v.at("stream"@) == JsonView::Bool(true))
            &&& r.temperature == double_of(v.at("temperature"@))
            &&& r.top_p == double_of(v.at("top_p"@))
            &&& r.stop == v.field("stop_sequences"@)
            &&& r.max_tokens == v.at("max_tokens"@).uint()
            &&& v.at("tool_choice"@).at("disable_parallel_tool_use"@) matches JsonView::Bool(b)
                ==> r.parallel_tool_calls == Some(!b)
            &&& v.at("tool_choice"@).at("disable_parallel_tool_use"@) == JsonView::Null
                ==> r.parallel_tool_calls is None
            &&& r.tool_choice == anthropic_choice_of(v.field("tool_choice"@))
            &&& v.at("output_config"@).field("format"@) is Some ==> r.response_format == v.at(
                "output_config"@,
            ).field("format"@)
            &&& v.at("output_config"@).field("format"@) is None ==> r.response_format == v.field(
                "output_format"@,
            )
            &&& v.at("output_config"@).field("effort"@) is None ==> r.reasoning == v.field(
                "thinking"@,
            )
            &&& v.at("output_config"@).field("effort"@) matches Some(effort) ==> (
            r.reasoning matches Some(reasoning) && reasoning.at("effort"@) == effort)
            &&& v.at("metadata"@) is Object ==> JsonView::Object(r.metadata) == v.at("metadata"@)
            &&& tools_of(v.at("tools"@), ToolDialect::Anthropic) == Ok::<Seq<ToolView>, ErrorView>(
                r.tools,
            )
        },
        v.at("model"@).text() is None ==> anthropic_request_of(v) == Err::<
            RequestView,
            ErrorView,
        >(ErrorView::MissingField("model"@)),
        v.at("model"@).text() is Some && !(v.at("messages"@) is Array) ==> anthropic_request_of(v)
            == Err::<RequestView, ErrorView>(ErrorView::MissingField("messages"@)),
{
    names_differ();
    let list = v.at("messages"@).list();
    if 0 <= i < list.len() {
        assert(list.map_values(anthropic_message_reader())[i] == anthropic_message_of(list[i]));
    }
}

} // verus!
