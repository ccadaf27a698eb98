//! What answers say and what they cost, by the names on the wire.

use super::anthropic::{
    anthropic_blocks_value, anthropic_content_of, anthropic_reason_of, anthropic_reason_text,
    anthropic_response_of, anthropic_response_value, anthropic_usage_of, anthropic_usage_value,
};
use super::error::ErrorView;
use super::fresh::IdsView;
use super::message_laws::each_with_ids;
use super::names::names_differ;
use super::openai_chat::{
    chat_choice_writer, chat_choices_of, chat_completion_details, chat_message_of,
    chat_message_value, chat_prompt_details, chat_reason_of, chat_reason_text,
    chat_response_choice_of, chat_response_choice_value, chat_response_of, chat_response_value,
    chat_usage_of, chat_usage_value,
};
use super::openai_responses::{
    incomplete_text, output_of, output_value, responses_output_details, responses_reason_of,
    responses_response_of, responses_response_value, responses_usage_of, responses_usage_value,
    status_text,
};
use super::part_laws::says;
use crate::json::{with_int, JsonView, NumView};
use crate::model::{
    no_fields, text_part, texts_joined, ChoiceView, ContentView, LLMProtocol, LLMRole, MessageView,
    ResponseView, UsageView,
};
use vstd::prelude::*;

verus! {

/// Whether a field holds a number.
pub open spec fn counts(v: JsonView, name: Seq<char>, n: u64) -> bool {
    v.at(name) == JsonView::Number(NumView::PosInt(n))
}

/// The number that is there, or none.
pub open spec fn spent(n: Option<u64>) -> u64 {
    match n {
        Some(n) => n,
        None => 0,
    }
}

/// What an answer cost is told to a Chat client under the names of the format.
pub proof fn costs_in_chat(u: UsageView)
    ensures
        ({
            let v = chat_usage_value(u);
            let given = v.at("prompt_tokens_details"@);
            let made = v.at("completion_tokens_details"@);
            &&& counts(v, "prompt_tokens"@, spent(u.input_tokens))
            &&& counts(v, "completion_tokens"@, spent(u.output_tokens))
            &&& u.total_tokens matches Some(n) ==> counts(v, "total_tokens"@, n)
            &&& u.total_tokens is None && spent(u.input_tokens) + spent(u.output_tokens) <= u64::MAX
                ==> counts(
                v,
                "total_tokens"@,
                (spent(u.input_tokens) + spent(u.output_tokens)) as u64,
            )
            &&& u.cache_read_tokens matches Some(n) ==> counts(given, "cached_tokens"@, n)
            &&& u.input_audio_tokens matches Some(n) ==> counts(given, "audio_tokens"@, n)
            &&& u.reasoning_tokens matches Some(n) ==> counts(made, "reasoning_tokens"@, n)
            &&& u.output_audio_tokens matches Some(n) ==> counts(made, "audio_tokens"@, n)
            &&& u.accepted_prediction_tokens matches Some(n) ==> counts(
                made,
                "accepted_prediction_tokens"@,
                n,
            )
            &&& u.rejected_prediction_tokens matches Some(n) ==> counts(
                made,
                "rejected_prediction_tokens"@,
                n,
            )
        }),
{
    names_differ();
    let given = chat_prompt_details(u);
    let made = chat_completion_details(u);
    if u.cache_read_tokens is Some || u.input_audio_tokens is Some {
        assert(given.contains_key("cached_tokens"@) || given.contains_key("audio_tokens"@));
    }
    if u.reasoning_tokens is Some || u.output_audio_tokens is Some
        || u.accepted_prediction_tokens is Some || u.rejected_prediction_tokens is Some {
        assert(made.contains_key("reasoning_tokens"@) || made.contains_key("audio_tokens"@)
            || made.contains_key("accepted_prediction_tokens"@) || made.contains_key(
            "rejected_prediction_tokens"@,
        ));
    }
}

/// What an answer cost is told to a Responses client under the names of the format.
pub proof fn costs_in_responses(u: UsageView)
    ensures
        ({
            let v = responses_usage_value(u);
            let made = v.at("output_tokens_details"@);
            &&& counts(v, "input_tokens"@, spent(u.input_tokens))
            &&& counts(v, "output_tokens"@, spent(u.output_tokens))
            &&& u.total_tokens matches Some(n) ==> counts(v, "total_tokens"@, n)
            &&& u.total_tokens is None && spent(u.input_tokens) + spent(u.output_tokens) <= u64::MAX
                ==> counts(
                v,
                "total_tokens"@,
                (spent(u.input_tokens) + spent(u.output_tokens)) as u64,
            )
            &&& u.cache_read_tokens matches Some(n) ==> counts(
                v.at("input_tokens_details"@),
                "cached_tokens"@,
                n,
            )
            &&& u.reasoning_tokens matches Some(n) ==> counts(made, "reasoning_tokens"@, n)
            &&& u.accepted_prediction_tokens matches Some(n) ==> counts(
                made,
                "accepted_prediction_tokens"@,
                n,
            )
            &&& u.rejected_prediction_tokens matches Some(n) ==> counts(
                made,
                "rejected_prediction_tokens"@,
                n,
            )
        }),
{
    names_differ();
    let made = responses_output_details(u);
    if let Some(n) = u.cache_read_tokens {
        assert(with_int(no_fields(), "cached_tokens"@, Some(n)).contains_key(
            "cached_tokens"@,
        ));
    }
    if u.reasoning_tokens is Some || u.accepted_prediction_tokens is Some
        || u.rejected_prediction_tokens is Some {
        assert(made.contains_key("reasoning_tokens"@) || made.contains_key(
            "accepted_prediction_tokens"@,
        ) || made.contains_key("rejected_prediction_tokens"@));
    }
}

/// What an answer cost is told to a Messages client under the names of the format.
pub proof fn costs_in_messages(u: UsageView)
    ensures
        ({
            let v = anthropic_usage_value(u);
            &&& counts(v, "input_tokens"@, spent(u.input_tokens))
            &&& counts(v, "output_tokens"@, spent(u.output_tokens))
            &&& u.cache_read_tokens matches Some(n) ==> counts(v, "cache_read_input_tokens"@, n)
            &&& u.cache_creation_tokens matches Some(n) ==> counts(
                v,
                "cache_creation_input_tokens"@,
                n,
            )
        }),
{
    names_differ();
}

/// What an answer cost is read from the names of each format.
pub proof fn costs_read(m: Map<Seq<char>, JsonView>)
    ensures
        ({
            let v = JsonView::Object(m);
            let given = v.at("prompt_tokens_details"@);
            let made = v.at("completion_tokens_details"@);
            chat_usage_of(v) matches Some(u) && u.input_tokens == v.at("prompt_tokens"@).uint()
                && u.output_tokens == v.at("completion_tokens"@).uint() && u.total_tokens == v.at(
                "total_tokens"@,
            ).uint() && u.cache_read_tokens == given.at("cached_tokens"@).uint()
                && u.input_audio_tokens == given.at("audio_tokens"@).uint() && u.reasoning_tokens
                == made.at("reasoning_tokens"@).uint() && u.output_audio_tokens == made.at(
                "audio_tokens"@,
            ).uint() && u.accepted_prediction_tokens == made.at(
                "accepted_prediction_tokens"@,
            ).uint() && u.rejected_prediction_tokens == made.at(
                "rejected_prediction_tokens"@,
            ).uint()
        }),
        ({
            let v = JsonView::Object(m);
            let given = v.at("input_tokens_details"@);
            let made = v.at("output_tokens_details"@);
            responses_usage_of(v) matches Some(u) && u.input_tokens == v.at("input_tokens"@).uint()
                && u.output_tokens == v.at("output_tokens"@).uint() && u.total_tokens == v.at(
                "total_tokens"@,
            ).uint() && u.cache_read_tokens == given.at("cached_tokens"@).uint()
                && u.reasoning_tokens == made.at("reasoning_tokens"@).uint()
                && u.accepted_prediction_tokens == made.at("accepted_prediction_tokens"@).uint()
                && u.rejected_prediction_tokens == made.at("rejected_prediction_tokens"@).uint()
        }),
        ({
            let v = JsonView::Object(m);
            let input = v.at("input_tokens"@).uint();
            let output = v.at("output_tokens"@).uint();
            anthropic_usage_of(v) matches Some(u) && u.input_tokens == input && u.output_tokens
                == output && u.cache_read_tokens == v.at("cache_read_input_tokens"@).uint()
                && u.cache_creation_tokens == v.at("cache_creation_input_tokens"@).uint() && (
            input is Some && output is Some && input->0 + output->0 <= u64::MAX ==> u.total_tokens
                == Some((input->0 + output->0) as u64))
        }),
{
    names_differ();
}

/// An answer that is written for Chat names the response and the model, and has each choice with
/// its message and the reason for which it ended.
pub proof fn answers_in_chat(r: ResponseView, ids: IdsView, now: i64, i: int)
    ensures
        chat_response_value(r, ids, now) matches Ok(v) ==> {
            let list = v.at("choices"@).list();
            &&& says(v, "object"@, "chat.completion"@)
            &&& r.id matches Some(id) ==> says(v, "id"@, id)
            &&& r.id is None ==> says(v, "id"@, "chatcmpl_"@ + ids.item)
            &&& r.model matches Some(model) ==> says(v, "model"@, model)
            &&& now >= 0 ==> counts(v, "created"@, now as u64)
            &&& list.len() == r.choices.len()
            &&& 0 <= i < list.len() ==> {
                let choice = r.choices[i];
                let message = MessageView {
                    source: Some(r.source),
                    role: choice.role,
                    content: choice.content,
                    name: None,
                    metadata: no_fields(),
                };
                &&& counts(list[i], "index"@, choice.index as u64)
                &&& chat_message_value(message, ids.at(i)) == Ok::<JsonView, ErrorView>(
                    list[i].at("message"@),
                )
                &&& choice.finish_reason matches Some(reason) ==> says(
                    list[i],
                    "finish_reason"@,
                    chat_reason_text(reason),
                )
                &&& choice.finish_reason is None ==> list[i].at("finish_reason"@) == JsonView::Null
            }
            &&& r.usage matches Some(usage) ==> v.at("usage"@) == chat_usage_value(usage)
        },
{
    names_differ();
    let f = chat_choice_writer(r.source);
    each_with_ids(r.choices, ids, f, i);
    if 0 <= i < r.choices.len() {
        assert(f(r.choices[i], ids.at(i)) == chat_response_choice_value(
            r.choices[i],
            r.source,
            ids.at(i),
        ));
    }
}

/// An answer that is written for Messages names the response and the model, and has the blocks of
/// its one choice and the reason for which it ended.
pub proof fn answers_in_messages(r: ResponseView, ids: IdsView)
    ensures
        r.choices.len() != 1 ==> anthropic_response_value(r, ids) is Err,
        anthropic_response_value(r, ids) matches Ok(v) ==> {
            let choice = r.choices[0];
            &&& says(v, "type"@, "message"@)
            &&& says(v, "role"@, "assistant"@)
            &&& r.id matches Some(id) ==> says(v, "id"@, id)
            &&& r.id is None ==> says(v, "id"@, "msg_"@ + ids.item)
            &&& r.model matches Some(model) ==> says(v, "model"@, model)
            &&& v.at("content"@) is Array
            &&& anthropic_blocks_value(choice.content, ids.at(0)) == Ok::<Seq<JsonView>, ErrorView>(
                v.at("content"@).list(),
            )
            &&& choice.finish_reason matches Some(reason) ==> says(
                v,
                "stop_reason"@,
                anthropic_reason_text(reason),
            )
            &&& choice.finish_reason is None ==> v.at("stop_reason"@) == JsonView::Null
            &&& choice.metadata.contains_key("stop_sequence"@) ==> v.at("stop_sequence"@)
                == choice.metadata["stop_sequence"@]
            &&& r.usage matches Some(usage) ==> v.at("usage"@) == anthropic_usage_value(usage)
        },
{
    names_differ();
}

/// An answer that is written for Responses names the response and the model, and has the items of
/// its one choice, its whole text and its state.
pub proof fn answers_in_responses(r: ResponseView, ids: IdsView, now: i64)
    ensures
        r.choices.len() != 1 ==> responses_response_value(r, ids, now) is Err,
        responses_response_value(r, ids, now) matches Ok(v) ==> {
            let choice = r.choices[0];
            &&& says(v, "object"@, "response"@)
            &&& r.id matches Some(id) ==> says(v, "id"@, id)
            &&& r.id is None ==> says(v, "id"@, "resp_"@ + ids.item)
            &&& r.model matches Some(model) ==> says(v, "model"@, model)
            &&& now >= 0 ==> counts(v, "created_at"@, now as u64)
            &&& v.at("output"@) is Array
            &&& !choice.metadata.contains_key("logprobs"@) ==> output_value(
                choice.content,
                ids.at(0),
            ) == Ok::<Seq<JsonView>, ErrorView>(v.at("output"@).list())
            &&& says(v, "output_text"@, texts_joined(choice.content))
            &&& says(v, "status"@, status_text(choice.finish_reason))
            &&& status_text(choice.finish_reason) == "incomplete"@ ==> says(
                v.at("incomplete_details"@),
                "reason"@,
                incomplete_text(choice.finish_reason),
            )
            &&& v.at("metadata"@) == JsonView::Object(r.metadata)
            &&& r.metadata.contains_key("error"@) ==> v.at("error"@) == r.metadata["error"@]
            &&& r.usage matches Some(usage) ==> v.at("usage"@) == responses_usage_value(usage)
        },
{
    names_differ();
}

proof fn each_choice(list: Seq<JsonView>, i: int)
    ensures
        chat_choices_of(list) matches Ok(out) ==> out.len() == list.len() && (0 <= i < list.len()
            ==> chat_response_choice_of(list[i], i) == Ok::<ChoiceView, ErrorView>(out[i])),
    decreases list.len(),
{
    if list.len() > 0 {
        each_choice(list.drop_last(), i);
    }
}

/// An answer that is read from Chat names the response and the model, and has each choice with its
/// message and the reason for which it ended.
pub proof fn answers_from_chat(v: JsonView, i: int)
    ensures
        !(v.at("choices"@) is Array) ==> chat_response_of(v) is Err,
        chat_response_of(v) matches Ok(r) ==> {
            let list = v.at("choices"@).list();
            &&& r.source == LLMProtocol::OpenAiChat
            &&& r.id == v.at("id"@).text()
            &&& r.model == v.at("model"@).text()
            &&& r.choices.len() == list.len()
            &&& 0 <= i < list.len() ==> {
                let message = list[i].at("message"@);
                &&& message.at("role"@) is Text ==> (chat_message_of(message) matches Ok(m)
                    && r.choices[i].role == m.role && r.choices[i].content == m.content)
                &&& message.at("role"@) == JsonView::Null ==> r.choices[i].role
                    == LLMRole::Assistant
                &&& list[i].at("finish_reason"@) matches JsonView::Text(name)
                    ==> r.choices[i].finish_reason == Some(chat_reason_of(name))
                &&& list[i].at("finish_reason"@) == JsonView::Null
                    ==> r.choices[i].finish_reason is None
                &&& list[i].at("index"@) matches JsonView::Number(NumView::PosInt(n)) ==> (n
                    <= usize::MAX ==> r.choices[i].index == n)
            }
            &&& v.at("usage"@) is Object ==> r.usage == chat_usage_of(v.at("usage"@))
            &&& v.at("usage"@) == JsonView::Null ==> r.usage is None
        },
{
    names_differ();
    each_choice(v.at("choices"@).list(), i);
}

/// An answer that is read from Messages names the response and the model, and has one choice with
/// its parts and the reason for which it ended.
pub proof fn answers_from_messages(v: JsonView)
    ensures
        ({
            let r = anthropic_response_of(v);
            &&& r.source == LLMProtocol::AnthropicMessages
            &&& r.id == v.at("id"@).text()
            &&& r.model == v.at("model"@).text()
            &&& r.choices.len() == 1
            &&& r.choices[0].index == 0
            &&& r.choices[0].role == LLMRole::Assistant
            &&& r.choices[0].content == anthropic_content_of(v.at("content"@))
            &&& v.at("stop_reason"@) matches JsonView::Text(name) ==> r.choices[0].finish_reason
                == Some(anthropic_reason_of(name))
            &&& v.at("stop_reason"@) == JsonView::Null ==> r.choices[0].finish_reason is None
            &&& v.at("stop_sequence"@) is Text ==> r.choices[0].metadata.contains_key(
                "stop_sequence"@,
            ) && r.choices[0].metadata["stop_sequence"@] == v.at("stop_sequence"@)
            &&& v.at("usage"@) is Object ==> r.usage == anthropic_usage_of(v.at("usage"@))
            &&& v.at("usage"@) == JsonView::Null ==> r.usage is None
        }),
{
    names_differ();
}

/// An answer that is read from Responses names the response and the model, and has one choice with
/// the parts of its items and the reason for which it ended.
pub proof fn answers_from_responses(v: JsonView)
    ensures
        responses_response_of(v) matches Ok(r) ==> {
            &&& r.source == LLMProtocol::OpenAiResponses
            &&& r.id == v.at("id"@).text()
            &&& r.model == v.at("model"@).text()
            &&& r.choices.len() == 1
            &&& r.choices[0].index == 0
            &&& r.choices[0].role == LLMRole::Assistant
            &&& v.at("output"@) matches JsonView::Array(items) ==> output_of(items) == Ok::<
                Seq<ContentView>,
                ErrorView,
            >(r.choices[0].content)
            &&& v.at("output"@) == JsonView::Null ==> (v.at(
                "output_text"@,
            ) matches JsonView::Text(text) ==> r.choices[0].content == seq![text_part(text)])
            &&& v.at("status"@) matches JsonView::Text(status) ==> r.choices[0].finish_reason
                == Some(
                responses_reason_of(status, v.at("incomplete_details"@), r.choices[0].content),
            )
            &&& v.at("error"@) != JsonView::Null ==> r.metadata.contains_key("error"@)
                && r.metadata["error"@] == v.at("error"@)
            &&& v.at("usage"@) is Object ==> r.usage == responses_usage_of(v.at("usage"@))
            &&& v.at("usage"@) == JsonView::Null ==> r.usage is None
        },
{
    names_differ();
}

} // verus!
