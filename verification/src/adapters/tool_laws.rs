//! What tools and the choice among them say in each format, by the names on the wire.

use super::anthropic::{anthropic_choice_of, anthropic_choice_value, request_choice_value};
use super::error::ErrorView;
use super::laws::{carried_beyond_the_names, has_none, tool_field_names};
use super::names::names_differ;
use super::openai_chat::{chat_choice_of, chat_choice_value, is_search, last_search, other_tools};
use super::openai_responses::{responses_choice_of, responses_choice_value};
use super::part_laws::says;
use super::tools::{
    builtin_value, dialect_protocol, schema_key, tool_of, tool_reader, tool_value, tool_writer,
    tools_of, tools_value, ToolDialect,
};
use crate::json::JsonView;
use crate::model::{LLMProtocol, RequestView, ToolChoiceView, ToolKindView, ToolView};
use crate::seqs::try_map_each;
use vstd::prelude::*;

verus! {

/// Where a function stands in a tool of a format.
pub open spec fn function_in(v: JsonView, d: ToolDialect) -> JsonView {
    if d == ToolDialect::OpenAiChat {
        v.at("function"@)
    } else {
        v
    }
}

/// Where the schema of a function stands in a format.
pub open spec fn schema_in(v: JsonView, d: ToolDialect) -> JsonView {
    if d == ToolDialect::Anthropic {
        v.at("input_schema"@)
    } else {
        function_in(v, d).at("parameters"@)
    }
}

/// A function that is written holds its name, description, schema and strictness under the names
/// of the format.
pub proof fn functions_written(t: ToolView, d: ToolDialect)
    requires
        t.source == dialect_protocol(d) ==> has_none(t.metadata, tool_field_names(d)),
    ensures
        t.kind matches ToolKindView::Function { name, description, parameters, strict } ==> (
        tool_value(t, d) matches Ok(v) && {
            let f = function_in(v, d);
            &&& says(f, "name"@, name)
            &&& description matches Some(text) ==> says(f, "description"@, text)
            &&& description is None ==> f.field("description"@) is None
            &&& schema_in(v, d) == parameters
            &&& strict matches Some(b) ==> f.at("strict"@) == JsonView::Bool(b)
            &&& strict is None ==> f.field("strict"@) is None
            &&& d != ToolDialect::Anthropic ==> says(v, "type"@, "function"@)
        }),
{
    names_differ();
    carried_beyond_the_names(t, d);
    let names = tool_field_names(d);
    assert(names.contains("name"@)) by {
        assert(names[0] == "name"@);
    }
    assert(names.contains("description"@)) by {
        assert(names[1] == "description"@);
    }
    assert(names.contains(schema_key(d))) by {
        assert(names[2] == schema_key(d));
    }
    assert(names.contains("strict"@)) by {
        assert(names[3] == "strict"@);
    }
    assert(names.contains("type"@)) by {
        assert(names[4] == "type"@);
    }
}

/// A function that is read has the name, description, schema and strictness that stand under the
/// names of the format.
pub proof fn functions_read(v: JsonView, d: ToolDialect, name: Seq<char>)
    requires
        says(v, "type"@, "function"@) || d == ToolDialect::Anthropic && v.field(
            "input_schema"@,
        ) is Some,
        says(function_in(v, d), "name"@, name),
    ensures
        tool_of(v, d) matches Ok(t) && t.source == dialect_protocol(d) && (
        t.kind matches ToolKindView::Function { name: read, description, parameters, strict } && {
            let f = function_in(v, d);
            &&& read == name
            &&& description == f.at("description"@).text()
            &&& strict == f.at("strict"@).truth()
            &&& schema_in(v, d) != JsonView::Null ==> parameters == schema_in(v, d)
        }),
{
    names_differ();
}

/// Each tool is read and written, in order.
pub proof fn every_tool_is_kept(list: Seq<JsonView>, tools: Seq<ToolView>, d: ToolDialect, i: int)
    ensures
        tools_of(JsonView::Array(list), d) matches Ok(read) ==> read.len() == list.len() && (0 <= i
            < list.len() ==> tool_of(list[i], d) == Ok::<ToolView, ErrorView>(read[i])),
        tools_value(tools, d) matches Ok(written) ==> written.len() == tools.len() && (0 <= i
            < tools.len() ==> tool_value(tools[i], d) == Ok::<JsonView, ErrorView>(written[i])),
{
    try_map_each(list, tool_reader(d));
    try_map_each(tools, tool_writer(d));
    if 0 <= i < list.len() {
        assert(tool_reader(d)(list[i]) == tool_of(list[i], d));
    }
    if 0 <= i < tools.len() {
        assert(tool_writer(d)(tools[i]) == tool_value(tools[i], d));
    }
}

/// Searches of the web are set apart from the other tools for Chat: the others stay in order, and
/// the last search is the one that is asked for.
pub proof fn searches_are_set_apart(a: Seq<ToolView>, t: ToolView)
    ensures
        other_tools(Seq::empty()) == Seq::<ToolView>::empty(),
        last_search(Seq::empty()) is None,
        !is_search(t) ==> other_tools(a.push(t)) == other_tools(a).push(t) && last_search(a.push(t))
            == last_search(a),
        is_search(t) ==> other_tools(a.push(t)) == other_tools(a) && (last_search(
            a.push(t),
        ) matches Some(options) && (t.kind matches ToolKindView::Builtin { config, .. }
            && options.field("user_location"@) == config.field("user_location"@) && options.field(
            "search_context_size"@,
        ) == config.field("search_context_size"@))),
        t.kind is Function ==> !is_search(t),
{
    names_differ();
    assert(a.push(t).drop_last() =~= a);
}

/// A built-in tool keeps its configuration within its format.
pub proof fn builtins_stay(source: LLMProtocol, name: Seq<char>, config: JsonView, d: ToolDialect)
    ensures
        source == dialect_protocol(d) ==> builtin_value(source, name, config, d) == Ok::<
            JsonView,
            ErrorView,
        >(config),
        source != dialect_protocol(d) && d == ToolDialect::OpenAiChat ==> builtin_value(
            source,
            name,
            config,
            d,
        ) is Err,
{
}

/// A built-in tool of a Responses request, as a Messages server is asked for it.
pub proof fn builtins_from_responses(tool: JsonView)
    ensures
        tool_of(tool, ToolDialect::OpenAiResponses) matches Ok(t) ==> {
            let written = tool_value(t, ToolDialect::Anthropic);
            &&& says(tool, "type"@, "web_search"@) ==> (written matches Ok(v) && says(
                v,
                "type"@,
                "web_search_20250305"@,
            ) && says(v, "name"@, "web_search"@) && v.at("user_location"@) == tool.at(
                "user_location"@,
            ) && (tool.at("filters"@).at("allowed_domains"@) != JsonView::Null ==> v.at(
                "allowed_domains"@,
            ) == tool.at("filters"@).at("allowed_domains"@)))
            &&& says(tool, "type"@, "computer_use_preview"@) ==> (written matches Ok(v) && says(
                v,
                "type"@,
                "computer_20250124"@,
            ) && says(v, "name"@, "computer"@) && (tool.at("display_width"@).uint() is Some
                && tool.at("display_width_px"@).uint() is None ==> v.at("display_width_px"@)
                == tool.at("display_width"@)) && (tool.at("display_height"@).uint() is Some
                && tool.at("display_height_px"@).uint() is None ==> v.at("display_height_px"@)
                == tool.at("display_height"@)))
            &&& says(tool, "type"@, "code_interpreter"@) ==> (written matches Ok(v) && says(
                v,
                "type"@,
                "code_execution_20250522"@,
            ) && says(v, "name"@, "code_execution"@))
            &&& says(tool, "type"@, "local_shell"@) ==> (written matches Ok(v) && says(
                v,
                "type"@,
                "bash_20250124"@,
            ) && says(v, "name"@, "bash"@))
        },
{
    names_differ();
}

/// A built-in tool of a Messages request, as a Responses server is asked for it.
pub proof fn builtins_from_messages(tool: JsonView, version: Seq<char>)
    requires
        tool.field("input_schema"@) is None,
    ensures
        tool_of(tool, ToolDialect::Anthropic) matches Ok(t) ==> {
            let written = tool_value(t, ToolDialect::OpenAiResponses);
            &&& says(tool, "type"@, "web_search_20250305"@) ==> (written matches Ok(v) && says(
                v,
                "type"@,
                "web_search"@,
            ) && v.at("user_location"@) == tool.at("user_location"@) && (tool.at(
                "allowed_domains"@,
            ) is Array ==> v.at("filters"@).at("allowed_domains"@) == tool.at("allowed_domains"@)))
            &&& says(tool, "type"@, "computer_"@ + version) ==> (written matches Ok(v) && says(
                v,
                "type"@,
                "computer_use_preview"@,
            ) && (tool.at("display_width_px"@).uint() is Some && tool.at("display_width"@).uint()
                is None ==> v.at("display_width"@) == tool.at("display_width_px"@)) && (tool.at(
                "display_height_px"@,
            ).uint() is Some && tool.at("display_height"@).uint() is None ==> v.at(
                "display_height"@,
            ) == tool.at("display_height_px"@)))
            &&& says(tool, "type"@, "code_execution_"@ + version) ==> (written matches Ok(v)
                && says(v, "type"@, "code_interpreter"@))
            &&& says(tool, "type"@, "bash_"@ + version) ==> (written matches Ok(v) && says(
                v,
                "type"@,
                "local_shell"@,
            ))
        },
{
    names_differ();
    builtin_names_begin(version);
}

proof fn builtin_names_begin(version: Seq<char>)
    ensures
        "computer_"@.is_prefix_of("computer_"@ + version),
        "code_execution_"@.is_prefix_of("code_execution_"@ + version),
        "bash_"@.is_prefix_of("bash_"@ + version),
        !"computer_"@.is_prefix_of("code_execution_"@ + version),
        !"computer_"@.is_prefix_of("bash_"@ + version),
        !"code_execution_"@.is_prefix_of("bash_"@ + version),
        "computer_"@ + version != "web_search_20250305"@,
        "code_execution_"@ + version != "web_search_20250305"@,
        "bash_"@ + version != "web_search_20250305"@,
        "computer_"@ + version != "function"@,
        "code_execution_"@ + version != "function"@,
        "bash_"@ + version != "function"@,
{
    reveal_strlit("computer_");
    reveal_strlit("code_execution_");
    reveal_strlit("bash_");
    reveal_strlit("web_search_20250305");
    reveal_strlit("function");
    let computer = "computer_"@ + version;
    let code = "code_execution_"@ + version;
    let bash = "bash_"@ + version;
    assert(computer.subrange(0, "computer_"@.len() as int) =~= "computer_"@);
    assert(code.subrange(0, "code_execution_"@.len() as int) =~= "code_execution_"@);
    assert(bash.subrange(0, "bash_"@.len() as int) =~= "bash_"@);
    assert(computer[0] == 'c' && computer[1] == 'o' && computer[2] == 'm');
    assert(code[0] == 'c' && code[1] == 'o' && code[2] == 'd');
    assert(bash[0] == 'b');
    assert("web_search_20250305"@[0] == 'w');
    assert("function"@[0] == 'f');
    if "computer_"@.is_prefix_of(code) {
        assert(code.subrange(0, "computer_"@.len() as int)[2] == "computer_"@[2]);
    }
    if "computer_"@.is_prefix_of(bash) {
        assert(bash.subrange(0, "computer_"@.len() as int)[0] == "computer_"@[0]);
    }
    if "code_execution_"@.is_prefix_of(bash) {
        assert(bash.subrange(0, "code_execution_"@.len() as int)[0] == "code_execution_"@[0]);
    }
}

/// A choice of tools is written under the names of each format.
pub proof fn choices_written(choice: ToolChoiceView)
    ensures
        match choice {
            ToolChoiceView::Auto => chat_choice_value(choice) == JsonView::Text("auto"@)
                && responses_choice_value(choice) == JsonView::Text("auto"@) && says(
                anthropic_choice_value(choice),
                "type"@,
                "auto"@,
            ),
            ToolChoiceView::NoTools => chat_choice_value(choice) == JsonView::Text("none"@)
                && responses_choice_value(choice) == JsonView::Text("none"@) && says(
                anthropic_choice_value(choice),
                "type"@,
                "none"@,
            ),
            ToolChoiceView::Required => chat_choice_value(choice) == JsonView::Text("required"@)
                && responses_choice_value(choice) == JsonView::Text("required"@) && says(
                anthropic_choice_value(choice),
                "type"@,
                "any"@,
            ),
            ToolChoiceView::Function { name } => {
                &&& says(chat_choice_value(choice), "type"@, "function"@)
                &&& says(chat_choice_value(choice).at("function"@), "name"@, name)
                &&& says(responses_choice_value(choice), "type"@, "function"@)
                &&& says(responses_choice_value(choice), "name"@, name)
                &&& says(anthropic_choice_value(choice), "type"@, "tool"@)
                &&& says(anthropic_choice_value(choice), "name"@, name)
            },
            ToolChoiceView::Raw { value } => chat_choice_value(choice) == value
                && responses_choice_value(choice) == value && anthropic_choice_value(choice)
                == value,
        },
{
    names_differ();
}

/// A choice of tools that is written for a format is read from it as the same choice.
pub proof fn choices_read_back(choice: ToolChoiceView)
    requires
        !(choice is Raw),
    ensures
        chat_choice_of(Some(chat_choice_value(choice))) == Some(choice),
        responses_choice_of(Some(responses_choice_value(choice))) == Some(choice),
        anthropic_choice_of(Some(anthropic_choice_value(choice))) == Some(choice),
        chat_choice_of(None) is None,
        responses_choice_of(None) is None,
        anthropic_choice_of(None) is None,
{
    names_differ();
}

/// Whether calls may be made side by side is told to a Messages server with the choice of tools,
/// the other way round.
pub proof fn parallel_calls_in_messages(r: RequestView, choice: ToolChoiceView, parallel: bool)
    requires
        r.tool_choice == Some(choice),
        !(choice is Raw),
    ensures
        r.parallel_tool_calls == Some(parallel) ==> (request_choice_value(r) matches Ok(Some(v))
            && v.at("disable_parallel_tool_use"@) == JsonView::Bool(!parallel) && v.at("type"@)
            == anthropic_choice_value(choice).at("type"@) && v.at("name"@)
            == anthropic_choice_value(choice).at("name"@)),
        r.parallel_tool_calls is None ==> request_choice_value(r) == Ok::<
            Option<JsonView>,
            ErrorView,
        >(Some(anthropic_choice_value(choice))),
{
    names_differ();
}

} // verus!
