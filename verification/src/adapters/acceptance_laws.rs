//! What the formats take, and what they refuse.

use super::anthropic::{
    anthropic_accepted_fields, anthropic_block_value, anthropic_blocks_value,
    anthropic_extra_fields, anthropic_request_of, anthropic_request_value, anthropic_response_value,
    conversation_of, request_choice_value, stop_value,
};
use super::common::{all_text, says_nothing};
use super::error::ErrorView;
use super::fresh::IdsView;
use super::laws::{chat_accepts, responses_accepts, unknown_fields_are_refused};
use super::names::names_differ;
use super::openai_chat::{
    all_annotations, chat_body_value, chat_call_of, chat_call_reader, chat_choice_writer,
    chat_choices_of, chat_extra_fields, chat_message_of, chat_message_reader, chat_message_value,
    chat_message_writer, chat_request_of, chat_request_value, chat_response_choice_of,
    chat_response_choice_value, chat_response_of, chat_response_value, chat_tools_of, other_tools,
    visible_parts,
};
use super::openai_responses::{
    input_items, input_parts, message_items, output_item_of, output_of, output_parts, output_value,
    responses_extra_fields, responses_item_of, responses_item_reader, responses_part_value,
    responses_part_writer, responses_request_of, responses_request_value, responses_response_of,
    responses_response_value,
};
use super::part_laws::says;
use super::tool_laws::function_in;
use super::tools::{builtin_value, dialect_protocol, tool_of, tool_reader, tools_of, ToolDialect};
use crate::json::{JsonView, NumView};
use crate::model::{
    no_fields, ChoiceView, ContentView, KindView, LLMProtocol, LLMRole, MessageView, RequestView,
    ResponseView,
};
use crate::seqs::{try_map_each, try_map_ids};
use vstd::prelude::*;

verus! {

/// Whether a value is empty.
pub open spec fn is_empty(value: JsonView) -> bool {
    value == JsonView::Null || value == JsonView::Text(Seq::empty()) || value == JsonView::Array(
        Seq::empty(),
    ) || value == JsonView::Object(Map::empty())
}

/// Whether a name is one of those for which a value that is not empty may say nothing.
pub open spec fn has_a_usual_value(name: Seq<char>) -> bool {
    name == "n"@ || name == "background"@ || name == "logprobs"@ || name == "store"@ || name
        == "frequency_penalty"@ || name == "presence_penalty"@ || name == "top_logprobs"@ || name
        == "modalities"@ || name == "truncation"@
}

/// What of a request says nothing: an empty value, and what would be done anyway.
pub proof fn what_says_nothing(name: Seq<char>, value: JsonView, n: u64)
    ensures
        is_empty(value) ==> says_nothing(name, value),
        !is_empty(value) && !has_a_usual_value(name) ==> !says_nothing(name, value),
        name == "n"@ && value == JsonView::Number(NumView::PosInt(n)) ==> (
        says_nothing(name, value) <==> n == 1),
        name == "background"@ || name == "logprobs"@ || name == "store"@ ==> says_nothing(
            name,
            JsonView::Bool(false),
        ) && !says_nothing(name, JsonView::Bool(true)),
        name == "modalities"@ ==> says_nothing(
            name,
            JsonView::Array(seq![JsonView::Text("text"@)]),
        ) && !says_nothing(name, JsonView::Array(seq![JsonView::Text("audio"@)])),
        name == "truncation"@ ==> says_nothing(name, JsonView::Text("disabled"@)) && !says_nothing(
            name,
            JsonView::Text("auto"@),
        ),
{
    names_differ();
    reveal_strlit("");
    assert(""@ =~= Seq::<char>::empty());
    reveal_strlit("disabled");
    reveal_strlit("auto");
    assert("disabled"@.len() == 8 && "auto"@.len() == 4);
    let texts = seq![JsonView::Text("text"@)];
    assert(texts[0].text() == Some("text"@));
    let sounds = JsonView::Array(seq![JsonView::Text("audio"@)]);
    assert(sounds.list()[0].text() == Some("audio"@));
    assert(sounds.list().len() == 1);
}

/// Whether Chat has a form for a field that not all formats share.
pub open spec fn known_to_chat(k: Seq<char>) -> bool {
    k == "audio"@ || k == "frequency_penalty"@ || k == "logit_bias"@ || k == "logprobs"@ || k
        == "modalities"@ || k == "n"@ || k == "prediction"@ || k == "presence_penalty"@ || k
        == "prompt_cache_key"@ || k == "prompt_cache_retention"@ || k == "safety_identifier"@ || k
        == "seed"@ || k == "service_tier"@ || k == "store"@ || k == "stream_options"@ || k
        == "top_logprobs"@ || k == "user"@ || k == "verbosity"@ || k == "web_search_options"@
}

/// Whether Responses has a form for a field that not all formats share.
pub open spec fn known_to_responses(k: Seq<char>) -> bool {
    k == "background"@ || k == "conversation"@ || k == "include"@ || k == "max_tool_calls"@ || k
        == "previous_response_id"@ || k == "prompt"@ || k == "prompt_cache_key"@ || k
        == "prompt_cache_retention"@ || k == "safety_identifier"@ || k == "service_tier"@ || k
        == "store"@ || k == "stream_options"@ || k == "top_logprobs"@ || k == "truncation"@ || k
        == "user"@
}

/// Whether Messages has a form for a field that not all formats share.
pub open spec fn known_to_messages(k: Seq<char>) -> bool {
    k == "container"@ || k == "context_management"@ || k == "inference_geo"@ || k == "mcp_servers"@
        || k == "service_tier"@ || k == "speed"@ || k == "top_k"@
}

/// The fields that the formats have forms for.
pub proof fn what_is_known(k: Seq<char>)
    ensures
        chat_extra_fields().contains(k) <==> known_to_chat(k),
        responses_extra_fields().contains(k) <==> known_to_responses(k),
        anthropic_extra_fields().contains(k) <==> known_to_messages(k),
        chat_accepts().contains(k) <==> known_to_chat(k) || k == "include"@,
        responses_accepts().contains(k) <==> known_to_responses(k) || k == "verbosity"@ || k
            == "logprobs"@,
        anthropic_accepted_fields().contains(k) <==> known_to_messages(k) || k == "user"@ || k
            == "safety_identifier"@ || k == "include"@ || k == "prompt_cache_key"@ || k
            == "prompt_cache_retention"@ || k == "stream_options"@ || k == "verbosity"@,
{
    let a = chat_extra_fields();
    assert(a[0] == "audio"@ && a[1] == "frequency_penalty"@ && a[2] == "logit_bias"@ && a[3]
        == "logprobs"@ && a[4] == "modalities"@ && a[5] == "n"@ && a[6] == "prediction"@ && a[7]
        == "presence_penalty"@ && a[8] == "prompt_cache_key"@ && a[9] == "prompt_cache_retention"@
        && a[10] == "safety_identifier"@ && a[11] == "seed"@ && a[12] == "service_tier"@ && a[13]
        == "store"@ && a[14] == "stream_options"@ && a[15] == "top_logprobs"@ && a[16] == "user"@
        && a[17] == "verbosity"@ && a[18] == "web_search_options"@);
    let b = responses_extra_fields();
    assert(b[0] == "background"@ && b[1] == "conversation"@ && b[2] == "include"@ && b[3]
        == "max_tool_calls"@ && b[4] == "previous_response_id"@ && b[5] == "prompt"@ && b[6]
        == "prompt_cache_key"@ && b[7] == "prompt_cache_retention"@ && b[8] == "safety_identifier"@
        && b[9] == "service_tier"@ && b[10] == "store"@ && b[11] == "stream_options"@ && b[12]
        == "top_logprobs"@ && b[13] == "truncation"@ && b[14] == "user"@);
    let c = anthropic_extra_fields();
    assert(c[0] == "container"@ && c[1] == "context_management"@ && c[2] == "inference_geo"@ && c[3]
        == "mcp_servers"@ && c[4] == "service_tier"@ && c[5] == "speed"@ && c[6] == "top_k"@);
    let d = chat_accepts();
    assert(d.len() == 20 && d[19] == "include"@);
    assert(forall|i: int| 0 <= i < 19 ==> d[i] == a[i]);
    let e = responses_accepts();
    assert(e.len() == 17 && e[15] == "verbosity"@ && e[16] == "logprobs"@);
    assert(forall|i: int| 0 <= i < 15 ==> e[i] == b[i]);
    let f = anthropic_accepted_fields();
    assert(f[0] == "container"@ && f[1] == "context_management"@ && f[2] == "inference_geo"@ && f[3]
        == "mcp_servers"@ && f[4] == "service_tier"@ && f[5] == "speed"@ && f[6] == "top_k"@ && f[7]
        == "user"@ && f[8] == "safety_identifier"@ && f[9] == "include"@ && f[10]
        == "prompt_cache_key"@ && f[11] == "prompt_cache_retention"@ && f[12] == "stream_options"@
        && f[13] == "verbosity"@);
    if known_to_chat(k) || k == "include"@ {
        assert(d.contains(k)) by {
            if known_to_chat(k) {
                let i = choose|i: int| 0 <= i < 19 && a[i] == k;
                assert(d[i] == k);
            }
        }
    }
    if known_to_responses(k) {
        let i = choose|i: int| 0 <= i < 15 && b[i] == k;
        assert(e[i] == k);
    }
}

/// A request that says something for which the server's format has no form is refused.
pub proof fn what_has_no_form_is_refused(r: RequestView, ids: IdsView, k: Seq<char>)
    requires
        r.extra.contains_key(k),
        !is_empty(r.extra[k]),
        !has_a_usual_value(k),
    ensures
        !known_to_chat(k) && k != "include"@ ==> (chat_request_value(r, ids) matches Err(
            ErrorView::Unsupported(_),
        )),
        !known_to_responses(k) && k != "verbosity"@ ==> (responses_request_value(
            r,
            ids,
        ) matches Err(ErrorView::Unsupported(_))),
        !known_to_messages(k) && k != "user"@ && k != "safety_identifier"@ && k != "include"@ && k
            != "prompt_cache_key"@ && k != "prompt_cache_retention"@ && k != "stream_options"@ && k
            != "verbosity"@ ==> (anthropic_request_value(r, ids) matches Err(
            ErrorView::Unsupported(_),
        )),
{
    what_is_known(k);
    what_says_nothing(k, r.extra[k], 0);
    unknown_fields_are_refused(r, ids, k);
}

/// Whether a message says plain texts.
pub open spec fn plain_message(m: MessageView) -> bool {
    m.role != LLMRole::Tool && forall|i: int|
        0 <= i < m.content.len() ==> ((#[trigger] m.content[i]).kind matches KindView::Text {
            annotations,
            ..
        } && annotations.len() == 0)
}

proof fn plain_blocks(s: Seq<ContentView>, ids: IdsView)
    requires
        forall|i: int|
            0 <= i < s.len() ==> ((#[trigger] s[i]).kind matches KindView::Text { annotations, .. }
                && annotations.len() == 0),
    ensures
        anthropic_blocks_value(s, ids) is Ok,
        input_parts(s, ids) matches Ok(all) && all.visible == s && all.items.len() == 0,
        all_annotations(s).len() == 0,
        visible_parts(s) == s,
        all_text(s),
    decreases s.len(),
{
    if s.len() > 0 {
        let t = s.drop_last();
        assert(forall|i: int| 0 <= i < t.len() ==> t[i] == s[i]);
        plain_blocks(t, ids);
        assert(s[s.len() - 1].kind is Text);
        assert(s =~= t.push(s.last()));
        assert(anthropic_block_value(s.last(), ids.at(s.len() - 1)) is Ok);
    } else {
        assert(s =~= Seq::<ContentView>::empty());
    }
}

proof fn plain_conversation(messages: Seq<MessageView>, ids: IdsView)
    requires
        forall|i: int| 0 <= i < messages.len() ==> plain_message(#[trigger] messages[i]),
    ensures
        conversation_of(messages, ids) is Ok,
        input_items(messages, ids) is Ok,
        try_map_ids(messages, ids, chat_message_writer()) is Ok,
    decreases messages.len(),
{
    if messages.len() > 0 {
        let before = messages.drop_last();
        assert(forall|i: int| 0 <= i < before.len() ==> before[i] == messages[i]);
        plain_conversation(before, ids);
        let m = messages.last();
        assert(plain_message(messages[messages.len() - 1]));
        let at = ids.at(messages.len() - 1);
        plain_blocks(m.content, at);
        assert(chat_body_value(m.content) is Ok);
        assert(chat_message_value(m, at) is Ok);
        assert(chat_message_writer()(m, at) == chat_message_value(m, at));
        assert(message_items(m, at) is Ok);
    }
}

/// A conversation of plain texts, with nothing asked for that a format has no form for, is taken
/// by every format.
pub proof fn plain_requests_are_taken(r: RequestView, ids: IdsView)
    requires
        forall|i: int| 0 <= i < r.messages.len() ==> plain_message(#[trigger] r.messages[i]),
        r.tools.len() == 0,
        r.tool_choice is None,
        r.extra == no_fields(),
    ensures
        chat_request_value(r, ids) is Ok,
        responses_request_value(r, ids) is Ok,
        anthropic_request_value(r, ids) is Ok,
{
    plain_conversation(r.messages, ids);
    assert(other_tools(r.tools).len() == 0);
}

/// A built-in tool that a format has no form for is refused.
pub proof fn unknown_tools_are_refused(
    source: LLMProtocol,
    name: Seq<char>,
    config: JsonView,
    d: ToolDialect,
)
    requires
        source != dialect_protocol(d),
        name != "web_search"@,
        name != "web_search_preview"@,
        name != "computer"@,
        name != "code_interpreter"@,
        name != "local_shell"@,
    ensures
        builtin_value(source, name, config, d) matches Err(ErrorView::Unsupported(_)),
{
}

/// Where no choice of tools is made, none is told; where no list of stops can be told, an empty
/// one is.
pub proof fn what_is_not_chosen(r: RequestView, stop: JsonView)
    ensures
        r.tool_choice is None ==> request_choice_value(r) == Ok::<Option<JsonView>, ErrorView>(None),
        stop is Number || stop is Bool || stop is Object ==> stop_value(stop) == JsonView::Array(
            Seq::empty(),
        ),
{
}

/// A Chat request is taken where it names a model and has messages, each of which can be read,
/// and tools that can be read.
pub proof fn chat_requests_are_taken(v: JsonView)
    requires
        v.at("model"@) is Text,
        v.at("messages"@) is Array,
        forall|i: int|
            0 <= i < v.at("messages"@).list().len() ==> chat_message_of(
                #[trigger] v.at("messages"@).list()[i],
            ) is Ok,
        chat_tools_of(v) is Ok,
    ensures
        chat_request_of(v) is Ok,
{
    let list = v.at("messages"@).list();
    let f = chat_message_reader();
    assert forall|i: int| 0 <= i < list.len() implies #[trigger] f(list[i]) is Ok by {
        assert(f(list[i]) == chat_message_of(list[i]));
    }
    try_map_each(list, f);
}

/// A Chat message is taken where it has a role that is one, its calls have names, and, as a
/// result, it names its call.
pub proof fn chat_messages_are_taken(v: JsonView, role: Seq<char>)
    requires
        says(v, "role"@, role),
        forall|i: int|
            0 <= i < v.at("tool_calls"@).list().len() ==> (#[trigger] v.at(
                "tool_calls"@,
            ).list()[i]).at("function"@).at("name"@) is Text,
        v.at("function_call"@) is Object ==> v.at("function_call"@).at("name"@) is Text,
    ensures
        role == "system"@ || role == "developer"@ || role == "user"@ || role == "assistant"@
            ==> chat_message_of(v) is Ok,
        role == "tool"@ || role == "function"@ ==> (chat_message_of(v) is Ok <==> v.at(
            "tool_call_id"@,
        ) is Text || v.at("name"@) is Text),
        role != "system"@ && role != "developer"@ && role != "user"@ && role != "assistant"@ && role
            != "tool"@ && role != "function"@ ==> chat_message_of(v) == Err::<
            MessageView,
            ErrorView,
        >(ErrorView::InvalidField("role"@)),
{
    names_differ();
    let list = v.at("tool_calls"@).list();
    let f = chat_call_reader();
    assert forall|i: int| 0 <= i < list.len() implies #[trigger] f(list[i]) is Ok by {
        assert(f(list[i]) == chat_call_of(list[i]));
        assert(list[i].at("function"@).at("name"@) is Text);
    }
    try_map_each(list, f);
}

/// A Responses request is taken where it names a model, has an input whose items can be read, and
/// tools that can be read.
pub proof fn responses_requests_are_taken(v: JsonView)
    requires
        v.at("model"@) is Text,
        v.at("input"@) is Text || v.at("input"@) is Array || v.at("input"@) == JsonView::Null,
        forall|i: int|
            0 <= i < v.at("input"@).list().len() ==> responses_item_of(
                #[trigger] v.at("input"@).list()[i],
            ) is Ok,
        tools_of(v.at("tools"@), ToolDialect::OpenAiResponses) is Ok,
    ensures
        responses_request_of(v) is Ok,
{
    let list = v.at("input"@).list();
    let f = responses_item_reader();
    assert forall|i: int| 0 <= i < list.len() implies #[trigger] f(list[i]) is Ok by {
        assert(f(list[i]) == responses_item_of(list[i]));
    }
    try_map_each(list, f);
}

/// A Messages request is taken where it names a model, has messages, and tools that can be read.
pub proof fn messages_requests_are_taken(v: JsonView)
    requires
        v.at("model"@) is Text,
        v.at("messages"@) is Array,
        v.at("thinking"@) is Object || v.field("thinking"@) is None,
        tools_of(v.at("tools"@), ToolDialect::Anthropic) is Ok,
    ensures
        anthropic_request_of(v) is Ok,
{
}

/// Tools are taken where each is; a function is where it has a name, and every other tool is.
pub proof fn tools_are_taken(v: JsonView, d: ToolDialect)
    requires
        forall|i: int|
            0 <= i < v.list().len() ==> tool_of(#[trigger] v.list()[i], d) is Ok,
    ensures
        tools_of(v, d) is Ok,
{
    let f = tool_reader(d);
    assert forall|i: int| 0 <= i < v.list().len() implies #[trigger] f(v.list()[i]) is Ok by {
        assert(f(v.list()[i]) == tool_of(v.list()[i], d));
    }
    try_map_each(v.list(), f);
}

/// A tool is refused only where it is a function without a name.
pub proof fn nameless_functions_are_refused(v: JsonView, d: ToolDialect)
    ensures
        says(v, "type"@, "function"@) && function_in(v, d).at("name"@).text() is None ==> tool_of(
            v,
            d,
        ) is Err,
        v.at("type"@) is Text && !says(v, "type"@, "function"@) && d != ToolDialect::Anthropic
            ==> tool_of(v, d) is Ok,
{
    names_differ();
}

proof fn every_choice_is_taken(list: Seq<JsonView>)
    requires
        forall|i: int|
            0 <= i < list.len() ==> chat_response_choice_of(#[trigger] list[i], i) is Ok,
    ensures
        chat_choices_of(list) is Ok,
    decreases list.len(),
{
    if list.len() > 0 {
        let first = list.drop_last();
        assert(forall|i: int| 0 <= i < first.len() ==> first[i] == list[i]);
        assert(chat_response_choice_of(list[list.len() - 1], list.len() - 1) is Ok);
        every_choice_is_taken(first);
    }
}

/// A Chat answer is taken where it has choices, each of which can be read.
pub proof fn chat_answers_are_taken(v: JsonView)
    requires
        v.at("choices"@) is Array,
        forall|i: int|
            0 <= i < v.at("choices"@).list().len() ==> chat_response_choice_of(
                #[trigger] v.at("choices"@).list()[i],
                i,
            ) is Ok,
    ensures
        chat_response_of(v) is Ok,
{
    every_choice_is_taken(v.at("choices"@).list());
}

proof fn every_item_is_taken(items: Seq<JsonView>)
    requires
        forall|i: int| 0 <= i < items.len() ==> output_item_of(#[trigger] items[i]) is Ok,
    ensures
        output_of(items) is Ok,
    decreases items.len(),
{
    if items.len() > 0 {
        let first = items.drop_last();
        assert(forall|i: int| 0 <= i < first.len() ==> first[i] == items[i]);
        assert(output_item_of(items[items.len() - 1]) is Ok);
        every_item_is_taken(first);
    }
}

/// A Responses answer is taken where each of its items can be read; an item is refused only where
/// it is a call without a name.
pub proof fn responses_answers_are_taken(v: JsonView, item: JsonView)
    requires
        forall|i: int|
            0 <= i < v.at("output"@).list().len() ==> output_item_of(
                #[trigger] v.at("output"@).list()[i],
            ) is Ok,
    ensures
        responses_response_of(v) is Ok,
        output_item_of(item) is Err ==> says(item, "type"@, "function_call"@) && item.at(
            "name"@,
        ).text() is None,
{
    names_differ();
    every_item_is_taken(v.at("output"@).list());
}

proof fn plain_output(s: Seq<ContentView>, ids: IdsView)
    requires
        forall|i: int|
            0 <= i < s.len() ==> ((#[trigger] s[i]).kind matches KindView::Text { annotations, .. }
                && annotations.len() == 0),
    ensures
        output_parts(s, ids) matches Ok(all) && all.visible == s && all.items.len() == 0,
    decreases s.len(),
{
    if s.len() > 0 {
        let t = s.drop_last();
        assert(forall|i: int| 0 <= i < t.len() ==> t[i] == s[i]);
        plain_output(t, ids);
        assert(s[s.len() - 1].kind is Text);
        assert(s =~= t.push(s.last()));
    } else {
        assert(s =~= Seq::<ContentView>::empty());
    }
}

/// An answer of plain texts is told in every format.
pub proof fn plain_answers_are_told(r: ResponseView, ids: IdsView, now: i64)
    requires
        r.choices.len() == 1,
        r.choices[0].role == LLMRole::Assistant,
        forall|i: int|
            0 <= i < r.choices[0].content.len() ==> ((
            #[trigger] r.choices[0].content[i]).kind matches KindView::Text { annotations, .. }
                && annotations.len() == 0),
    ensures
        chat_response_value(r, ids, now) is Ok,
        responses_response_value(r, ids, now) is Ok,
        anthropic_response_value(r, ids) is Ok,
{
    let s = r.choices[0].content;
    plain_blocks(s, ids.at(0));
    plain_output(s, ids.at(0));
    let f = responses_part_writer(LLMRole::Assistant);
    assert forall|i: int| 0 <= i < s.len() implies #[trigger] f(s[i]) is Ok by {
        assert(f(s[i]) == responses_part_value(s[i], LLMRole::Assistant));
        assert(s[i].kind is Text);
    }
    try_map_each(s, f);
    assert(output_value(s, ids.at(0)) is Ok);
    let g = chat_choice_writer(r.source);
    assert(chat_body_value(s) is Ok);
    assert(g(r.choices[0], ids.at(0)) == chat_response_choice_value(
        r.choices[0],
        r.source,
        ids.at(0),
    ));
    reveal_with_fuel(try_map_ids, 2);
    assert(r.choices.drop_last() =~= Seq::<ChoiceView>::empty());
    assert(r.choices.last() == r.choices[0]);
}

} // verus!
