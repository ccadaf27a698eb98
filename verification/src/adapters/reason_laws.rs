//! The reason for which an answer ended means the same in every format.

use super::anthropic::{anthropic_reason_of, anthropic_reason_text};
use super::names::names_differ;
use super::openai_chat::{chat_reason_of, chat_reason_text};
use super::openai_responses::{has_call, incomplete_text, responses_reason_of, status_text};
use crate::json::JsonView;
use crate::model::ContentView;
use vstd::prelude::*;

verus! {

/// A reason that a Chat server gave, as a Messages client is told of it.
pub proof fn chat_reasons_told_in_messages(name: Seq<char>)
    ensures
        ({
            let told = anthropic_reason_text(chat_reason_of(name));
            &&& name == "stop"@ ==> told == "end_turn"@
            &&& name == "length"@ ==> told == "max_tokens"@
            &&& name == "tool_calls"@ ==> told == "tool_use"@
            &&& name == "function_call"@ ==> told == "tool_use"@
            &&& name == "content_filter"@ ==> told == "refusal"@
            &&& told == "max_tokens"@ ==> name == "length"@
            &&& told == "tool_use"@ ==> name == "tool_calls"@ || name == "function_call"@
            &&& told == "refusal"@ ==> name == "content_filter"@
            &&& told == "end_turn"@ || told == "max_tokens"@ || told == "tool_use"@ || told
                == "refusal"@
        }),
{
    names_differ();
}

/// A reason that a Messages server gave, as a Chat client is told of it.
pub proof fn messages_reasons_told_in_chat(name: Seq<char>)
    ensures
        ({
            let told = chat_reason_text(anthropic_reason_of(name));
            &&& name == "end_turn"@ ==> told == "stop"@
            &&& name == "stop_sequence"@ ==> told == "stop"@
            &&& name == "pause_turn"@ ==> told == "stop"@
            &&& name == "max_tokens"@ ==> told == "length"@
            &&& name == "model_context_window_exceeded"@ ==> told == "length"@
            &&& name == "tool_use"@ ==> told == "tool_calls"@
            &&& name == "refusal"@ ==> told == "content_filter"@
            &&& told == "length"@ ==> name == "max_tokens"@ || name
                == "model_context_window_exceeded"@
            &&& told == "tool_calls"@ ==> name == "tool_use"@
            &&& told == "content_filter"@ ==> name == "refusal"@
            &&& told == "stop"@ || told == "length"@ || told == "tool_calls"@ || told
                == "content_filter"@
        }),
{
    names_differ();
}

/// Within one format a reason keeps its name; only the old `function_call` becomes `tool_calls`.
pub proof fn reasons_keep_their_names(name: Seq<char>)
    ensures
        name == "stop"@ || name == "length"@ || name == "tool_calls"@ || name == "content_filter"@
            ==> chat_reason_text(chat_reason_of(name)) == name,
        name == "function_call"@ ==> chat_reason_text(chat_reason_of(name)) == "tool_calls"@,
        name == "end_turn"@ || name == "max_tokens"@ || name == "stop_sequence"@ || name
            == "tool_use"@ || name == "pause_turn"@ || name == "refusal"@ || name
            == "model_context_window_exceeded"@ ==> anthropic_reason_text(
            anthropic_reason_of(name),
        ) == name,
{
    names_differ();
}

/// The state of an answer that a Responses server gave, as Chat and Messages clients are told why
/// it ended.
pub proof fn responses_states_told_elsewhere(
    status: Seq<char>,
    details: JsonView,
    content: Seq<ContentView>,
)
    ensures
        ({
            let reason = responses_reason_of(status, details, content);
            let why = details.at("reason"@);
            let in_chat = chat_reason_text(reason);
            let in_messages = anthropic_reason_text(reason);
            &&& status == "completed"@ && has_call(content) ==> in_chat == "tool_calls"@
                && in_messages == "tool_use"@
            &&& status == "completed"@ && !has_call(content) ==> in_chat == "stop"@ && in_messages
                == "end_turn"@
            &&& status == "failed"@ || status == "cancelled"@ ==> in_chat == "stop"@
                && in_messages == "end_turn"@
            &&& status == "incomplete"@ && why == JsonView::Text("content_filter"@) ==> in_chat
                == "content_filter"@ && in_messages == "refusal"@
            &&& status == "incomplete"@ && why == JsonView::Text("max_output_tokens"@) ==> in_chat
                == "length"@ && in_messages == "max_tokens"@
            &&& status == "incomplete"@ && why == JsonView::Text(
                "model_context_window_exceeded"@,
            ) ==> in_chat == "length"@ && in_messages == "model_context_window_exceeded"@
            &&& status == "incomplete"@ && why != JsonView::Text("content_filter"@) ==> in_chat
                == "length"@
            &&& in_chat == "tool_calls"@ ==> has_call(content) && status == "completed"@
            &&& in_chat == "length"@ || in_chat == "content_filter"@ ==> status == "incomplete"@
        }),
{
    names_differ();
}

/// A reason that a Chat or Messages server gave, as the state of an answer that a Responses client
/// is told.
pub proof fn reasons_told_in_responses(name: Seq<char>)
    ensures
        ({
            let of_chat = Some(chat_reason_of(name));
            &&& name == "stop"@ || name == "tool_calls"@ || name == "function_call"@
                ==> status_text(of_chat) == "completed"@
            &&& name == "length"@ ==> status_text(of_chat) == "incomplete"@ && incomplete_text(
                of_chat,
            ) == "max_output_tokens"@
            &&& name == "content_filter"@ ==> status_text(of_chat) == "incomplete"@
                && incomplete_text(of_chat) == "content_filter"@
            &&& status_text(of_chat) == "incomplete"@ ==> name == "length"@ || name
                == "content_filter"@
        }),
        ({
            let of_messages = Some(anthropic_reason_of(name));
            &&& name == "end_turn"@ || name == "stop_sequence"@ || name == "tool_use"@ || name
                == "pause_turn"@ || name == "refusal"@ ==> status_text(of_messages) == "completed"@
            &&& name == "max_tokens"@ ==> status_text(of_messages) == "incomplete"@
                && incomplete_text(of_messages) == "max_output_tokens"@
            &&& name == "model_context_window_exceeded"@ ==> status_text(of_messages)
                == "incomplete"@ && incomplete_text(of_messages)
                == "model_context_window_exceeded"@
            &&& status_text(of_messages) == "incomplete"@ ==> name == "max_tokens"@ || name
                == "model_context_window_exceeded"@
        }),
{
    names_differ();
}

/// The state of an answer that is passed on within Responses stays, and so does what cut it off.
pub proof fn responses_states_stay(
    status: Seq<char>,
    details: JsonView,
    content: Seq<ContentView>,
)
    ensures
        ({
            let reason = Some(responses_reason_of(status, details, content));
            let why = details.at("reason"@);
            &&& status == "completed"@ || status == "failed"@ || status == "cancelled"@ || status
                == "incomplete"@ ==> status_text(reason) == status
            &&& status == "incomplete"@ && (why == JsonView::Text("content_filter"@) || why
                == JsonView::Text("max_output_tokens"@) || why == JsonView::Text(
                "model_context_window_exceeded"@,
            )) ==> JsonView::Text(incomplete_text(reason)) == why
        }),
{
    names_differ();
}

} // verus!
