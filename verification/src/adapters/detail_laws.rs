//! What holds of the smaller things that the adapters read and write.

use super::anthropic::{
    anthropic_block_value, anthropic_request_value, anthropic_response_of, anthropic_source_of,
    anthropic_source_value,
};
use super::error::{error_message, ErrorView};
use super::fresh::IdsView;
use super::names::names_differ;
use super::openai_chat::{
    chat_content_value, chat_message_of, chat_parts_of, chat_response_choice_of,
    chat_response_choice_value, chat_tools_of,
};
use super::openai_responses::{
    answer_output, first_typed, output_value, responses_part_value, responses_request_value,
    with_logprobs,
};
use super::part_laws::says;
use super::responses_stream::{responses_parsed_read, silent_events};
use super::state::StateView;
use super::tools::{tools_of, ToolDialect};
use crate::json::JsonView;
use crate::model::{
    ChoiceView, ContentView, EventView, KindView, LLMFinishReason, LLMProtocol, LLMRole, MediaView,
    RequestView, ToolKindView,
};
use crate::text::{decimal_text, digit_value, digits_value, split_once, u64_value};
use crate::text_laws::{prefix_and_rest, splits_at_the_first};
use vstd::prelude::*;

verus! {

/// An error names the field or the feature that it is about.
pub proof fn errors_name_what_is_wrong(name: Seq<char>)
    ensures
        error_message(ErrorView::MissingField(name)) == "missing field: "@ + name,
        error_message(ErrorView::InvalidField(name)) == "invalid field: "@ + name,
        error_message(ErrorView::Unsupported(name)) == "unsupported protocol feature: "@ + name,
{
}

proof fn splits_there(before: Seq<char>, mark: Seq<char>, rest: Seq<char>)
    requires
        mark.len() > 0,
        forall|i: int| 0 <= i < before.len() ==> before[i] != mark[0],
    ensures
        split_once(before + mark + rest, mark) == Some((before, rest)),
{
    let s = before + mark + rest;
    splits_at_the_first(s, mark);
    let n = before.len() as int;
    assert(s.skip(n) =~= mark + rest);
    assert((mark + rest).subrange(0, mark.len() as int) =~= mark);
    assert(mark.is_prefix_of(s.skip(n)));
    if let Some((a, b)) = split_once(s, mark) {
        if a.len() < n {
            assert(s[a.len() as int] == mark[0]);
            assert(s[a.len() as int] == before[a.len() as int]);
        } else if a.len() > n {
            assert(!mark.is_prefix_of(s.skip(n)));
        }
        assert(a =~= before) by {
            assert forall|i: int| 0 <= i < a.len() implies a[i] == before[i] by {
                assert(s[i] == a[i]);
            }
        }
        assert(b =~= rest) by {
            assert forall|i: int| 0 <= i < b.len() implies b[i] == rest[i] by {
                assert(s[n + mark.len() + i] == b[i]);
            }
        }
    }
}

/// An image that stands in its address is handed to a Messages server as data with its type.
pub proof fn images_in_addresses(kind: Seq<char>, data: Seq<char>)
    requires
        forall|i: int| 0 <= i < kind.len() ==> kind[i] != ';',
    ensures
        ({
            let url = "data:"@ + (kind + ";base64,"@ + data);
            let v = anthropic_source_value(MediaView::Url { url });
            &&& says(v, "type"@, "base64"@)
            &&& says(v, "media_type"@, kind)
            &&& says(v, "data"@, data)
            &&& anthropic_source_of(v) == (MediaView::Data { data, media_type: Some(kind) })
        }),
{
    names_differ();
    reveal_strlit(";base64,");
    prefix_and_rest(kind + ";base64,"@ + data, "data:"@);
    splits_there(kind, ";base64,"@, data);
}

/// Data without a type is handed on as bytes.
pub proof fn data_without_a_type(data: Seq<char>, c: ContentView, role: LLMRole)
    requires
        c.kind == (KindView::Image {
            source: MediaView::Data { data, media_type: None },
            detail: None,
        }),
    ensures
        chat_content_value(c) matches Ok(v) && says(
            v.at("image_url"@),
            "url"@,
            "data:"@ + "application/octet-stream"@ + ";base64,"@ + data,
        ),
        responses_part_value(c, role) matches Ok(v) && says(
            v,
            "image_url"@,
            "data:"@ + "application/octet-stream"@ + ";base64,"@ + data,
        ),
        says(
            anthropic_source_value(MediaView::Data { data, media_type: None }),
            "media_type"@,
            "application/octet-stream"@,
        ),
{
    names_differ();
}

/// Arguments that are no object are handed to a Messages server in one.
pub proof fn arguments_in_an_object(c: ContentView, ids: IdsView, arguments: JsonView)
    requires
        c.kind matches KindView::ToolCall { arguments: given, .. } && given == arguments,
        !(arguments is Object),
        !(arguments is Text),
    ensures
        anthropic_block_value(c, ids) matches Ok(v) && v.at("input"@).at("value"@) == arguments,
{
    names_differ();
}

/// A Messages client's way of thinking stays as it was, without the effort, which is told apart.
pub proof fn thinking_stays(r: RequestView, ids: IdsView, thinking: Map<Seq<char>, JsonView>)
    requires
        r.source == LLMProtocol::AnthropicMessages,
        r.reasoning == Some(JsonView::Object(thinking)),
        thinking.contains_key("type"@),
    ensures
        anthropic_request_value(r, ids) matches Ok(v) ==> v.at("thinking"@) == JsonView::Object(
            thinking.remove("effort"@),
        ),
        responses_request_value(r, ids) matches Ok(v) ==> (thinking["type"@] != JsonView::Text(
            "disabled"@,
        ) ==> says(v.at("reasoning"@), "summary"@, "auto"@)),
{
    names_differ();
    assert(thinking.remove("effort"@).contains_key("type"@));
}

/// A reason that a format does not know is kept beside the answer.
pub proof fn unknown_reasons_are_kept(v: JsonView, reason: Seq<char>)
    ensures
        says(v, "stop_reason"@, reason) && anthropic_response_of(v).choices[0].finish_reason
            == Some(LLMFinishReason::Unknown) ==> {
            let m = anthropic_response_of(v).choices[0].metadata;
            m.contains_key("raw_finish_reason"@) && m["raw_finish_reason"@] == JsonView::Text(reason)
        },
        says(v, "finish_reason"@, reason) ==> (chat_response_choice_of(v, 0) matches Ok(choice) ==> (
        choice.finish_reason == Some(LLMFinishReason::Unknown) ==> choice.metadata.contains_key(
            "raw_finish_reason"@,
        ) && choice.metadata["raw_finish_reason"@] == JsonView::Text(reason))),
{
    names_differ();
}

/// The probabilities of a Chat choice stay with it.
pub proof fn probabilities_of_choices(
    v: JsonView,
    choice: ChoiceView,
    source: LLMProtocol,
    ids: IdsView,
    logprobs: JsonView,
)
    ensures
        v.field("logprobs"@) == Some(logprobs) ==> (chat_response_choice_of(v, 0) matches Ok(read)
            ==> read.metadata.contains_key("logprobs"@) && read.metadata["logprobs"@] == logprobs),
        choice.metadata.contains_key("logprobs"@) ==> (chat_response_choice_value(
            choice,
            source,
            ids,
        ) matches Ok(w) ==> w.at("logprobs"@) == choice.metadata["logprobs"@]),
        !choice.metadata.contains_key("logprobs"@) ==> answer_output(choice, ids) == output_value(
            choice.content,
            ids,
        ),
{
    names_differ();
}

proof fn typed_first(s: Seq<JsonView>, kind: Seq<char>)
    ensures
        0 <= first_typed(s, kind) <= s.len(),
        first_typed(s, kind) < s.len() ==> says(s[first_typed(s, kind)], "type"@, kind),
        forall|i: int|
            0 <= i < first_typed(s, kind) ==> !says(#[trigger] s[i], "type"@, kind),
    decreases s.len(),
{
    if s.len() > 0 && !says(s[0], "type"@, kind) {
        let t = s.subrange(1, s.len() as int);
        typed_first(t, kind);
        assert forall|i: int| 0 <= i < first_typed(s, kind) implies !says(
            #[trigger] s[i],
            "type"@,
            kind,
        ) by {
            if i > 0 {
                assert(t[i - 1] == s[i]);
            }
        }
    }
}

/// Probabilities are told to a Responses client with the first text of the first message, and
/// nothing else of the answer changes.
pub proof fn probabilities_in_responses(
    output: Seq<JsonView>,
    parts: Seq<JsonView>,
    logprobs: JsonView,
    i: int,
)
    requires
        0 <= i < output.len(),
        forall|j: int| 0 <= j < i ==> !says(#[trigger] output[j], "type"@, "message"@),
        says(output[i], "type"@, "message"@),
        output[i].at("content"@) == JsonView::Array(parts),
        parts.len() > 0,
        says(parts[0], "type"@, "output_text"@),
    ensures
        ({
            let told = with_logprobs(output, logprobs);
            let after = told[i].at("content"@).list();
            &&& told.len() == output.len()
            &&& after.len() == parts.len()
            &&& after[0].at("logprobs"@) == logprobs
            &&& after[0].at("text"@) == parts[0].at("text"@)
            &&& forall|j: int| 0 < j < parts.len() ==> after[j] == #[trigger] parts[j]
            &&& forall|j: int| 0 <= j < output.len() && j != i ==> told[j] == #[trigger] output[j]
        }),
{
    names_differ();
    typed_first(output, "message"@);
    let n = first_typed(output, "message"@);
    if n < i {
        assert(says(output[n], "type"@, "message"@));
    }
    assert(n == i);
    assert(first_typed(parts, "output_text"@) == 0);
}

/// A search of the web that a Chat client asks for is a tool, after those of its list.
pub proof fn searches_are_tools(v: JsonView, options: Map<Seq<char>, JsonView>, k: Seq<char>)
    requires
        v.field("web_search_options"@) == Some(JsonView::Object(options)),
    ensures
        chat_tools_of(v) matches Ok(tools) ==> (tools_of(
            v.at("tools"@),
            ToolDialect::OpenAiChat,
        ) matches Ok(listed) && tools.drop_last() == listed && tools.len() == listed.len() + 1 && (
        tools.last().kind matches ToolKindView::Builtin { name, config, .. } && name
            == "web_search"@ && (k != "type"@ ==> config.field(k) == JsonView::Object(
            options,
        ).field(k)))),
        v.field("web_search_options"@) is None ==> chat_tools_of(v) == tools_of(
            v.at("tools"@),
            ToolDialect::OpenAiChat,
        ),
{
    if let Ok(listed) = tools_of(v.at("tools"@), ToolDialect::OpenAiChat) {
        if let Ok(tools) = chat_tools_of(v) {
            assert(tools.drop_last() =~= listed);
        }
    }
}

/// The result of a call in the old form of Chat is found by the name of the function.
pub proof fn results_in_the_old_form(v: JsonView, name: Seq<char>)
    requires
        says(v, "role"@, "function"@),
        says(v, "name"@, name),
        v.field("tool_call_id"@) is None,
    ensures
        chat_message_of(v) matches Ok(m) ==> m.role == LLMRole::Tool && m.content.len() == 1 && (
        m.content[0].kind matches KindView::ToolResult { tool_call_id, content, .. }
            && tool_call_id == name && chat_parts_of(v) == Ok::<Seq<ContentView>, ErrorView>(content)),
{
    names_differ();
}

/// An event that only repeats what was told says nothing.
pub proof fn repetitions_say_nothing(v: JsonView, name: Option<Seq<char>>, s: StateView)
    requires
        says(v, "type"@, "response.output_text.done"@) || says(
            v,
            "type"@,
            "response.content_part.done"@,
        ) || says(v, "type"@, "response.refusal.done"@) || says(
            v,
            "type"@,
            "response.function_call_arguments.done"@,
        ) || says(v, "type"@, "response.reasoning_summary_text.done"@) || says(
            v,
            "type"@,
            "response.reasoning_text.done"@,
        ) || says(v, "type"@, "response.queued"@),
    ensures
        responses_parsed_read(Some(v), name, s) == (s, Ok::<Seq<EventView>, ErrorView>(Seq::empty())),
{
    names_differ();
    let silent = silent_events();
    assert(silent[0] == "response.queued"@ && silent[1] == "response.content_part.done"@ && silent[2]
        == "response.output_text.done"@ && silent[3] == "response.refusal.done"@ && silent[4]
        == "response.function_call_arguments.done"@ && silent[7]
        == "response.reasoning_summary_text.done"@ && silent[8] == "response.reasoning_text.done"@);
}

/// A number is read from its digits.
pub proof fn numbers_are_read_back(n: nat)
    ensures
        digits_value(decimal_text(n)) == Some(n),
        decimal_text(n).len() > 0,
        digit_value(decimal_text(n)[0]) is Some,
        n <= u64::MAX ==> u64_value(decimal_text(n)) == Some(n as u64),
    decreases n,
{
    let text = decimal_text(n);
    if n < 10 {
        assert(text.drop_last() =~= Seq::<char>::empty());
        reveal_with_fuel(digits_value, 2);
    } else {
        numbers_are_read_back(n / 10);
        assert(text.drop_last() =~= decimal_text(n / 10));
        assert(text[0] == decimal_text(n / 10)[0]);
    }
}

} // verus!
