//! Tools: their forms in the wire formats.

use super::common::{json1, object1, protocol_name, protocol_text};
use super::error::{AdapterError, ErrorView};
use crate::json::{
    jint, jtext, prefixed, with_some, with_text, with_truth, without, Json, JsonMap, JsonView,
};
use crate::model::{no_fields, Fields, LLMProtocol, LLMTool, LLMToolKind, ToolKindView, ToolView};
use crate::seqs::{outcome, outcomes, try_each, try_map, views};
use crate::text::{borrow, or_text, own, same, starts_with, texts};
use vstd::prelude::*;

verus! {

/// The form that a wire format gives tools.
#[derive(Clone, Copy, PartialEq, Eq, Structural)]
pub enum ToolDialect {
    OpenAiChat,
    OpenAiResponses,
    Anthropic,
}

/// The wire format of a form of tools.
pub open spec fn dialect_protocol(d: ToolDialect) -> LLMProtocol {
    match d {
        ToolDialect::OpenAiChat => LLMProtocol::OpenAiChat,
        ToolDialect::OpenAiResponses => LLMProtocol::OpenAiResponses,
        ToolDialect::Anthropic => LLMProtocol::AnthropicMessages,
    }
}

impl ToolDialect {
    fn protocol(self) -> (r: LLMProtocol)
        ensures
            r == dialect_protocol(self),
    {
        match self {
            ToolDialect::OpenAiChat => LLMProtocol::OpenAiChat,
            ToolDialect::OpenAiResponses => LLMProtocol::OpenAiResponses,
            ToolDialect::Anthropic => LLMProtocol::AnthropicMessages,
        }
    }
}

/// The field that holds the schema of a tool's parameters.
pub open spec fn schema_key(d: ToolDialect) -> Seq<char> {
    if d == ToolDialect::Anthropic {
        "input_schema"@
    } else {
        "parameters"@
    }
}

fn schema_field(d: ToolDialect) -> (r: &'static str)
    ensures
        r@ == schema_key(d),
{
    match d {
        ToolDialect::Anthropic => "input_schema",
        _ => "parameters",
    }
}

/// The type of a tool.
pub open spec fn tool_type(tool: JsonView) -> Seq<char> {
    or_text(tool.at("type"@).text(), "function"@)
}

/// Whether a tool is a function.
pub open spec fn is_function(tool: JsonView, d: ToolDialect) -> bool {
    tool_type(tool) == "function"@ || (d == ToolDialect::Anthropic && tool.at("name"@) is Text
        && tool.field("input_schema"@) is Some)
}

/// Where a function tool has its fields.
pub open spec fn function_of(tool: JsonView, d: ToolDialect) -> JsonView {
    if d == ToolDialect::OpenAiChat && tool_type(tool) == "function"@ {
        tool.at("function"@)
    } else {
        tool
    }
}

/// What a tool has beyond the fields that the neutral form names.
pub open spec fn tool_metadata(tool: JsonView, d: ToolDialect) -> Fields {
    let inner = without(
        function_of(tool, d).fields_or_none(),
        seq!["name"@, "description"@, schema_key(d), "strict"@, "type"@],
    );
    if d == ToolDialect::OpenAiChat {
        inner.union_prefer_right(without(tool.fields_or_none(), seq!["type"@, "function"@]))
    } else {
        inner
    }
}

/// The tool that a value is.
pub open spec fn tool_of(tool: JsonView, d: ToolDialect) -> Result<ToolView, ErrorView> {
    let function = function_of(tool, d);
    if is_function(tool, d) {
        match function.at("name"@).text() {
            None => Err(ErrorView::MissingField("tools.name"@)),
            Some(name) => Ok(
                ToolView {
                    source: dialect_protocol(d),
                    kind: ToolKindView::Function {
                        name,
                        description: function.at("description"@).text(),
                        parameters: match function.field(schema_key(d)) {
                            Some(schema) => schema,
                            None => object1("type"@, jtext("object"@)),
                        },
                        strict: function.at("strict"@).truth(),
                    },
                    metadata: tool_metadata(tool, d),
                },
            ),
        }
    } else {
        Ok(
            ToolView {
                source: dialect_protocol(d),
                kind: ToolKindView::Builtin {
                    protocol: dialect_protocol(d),
                    name: builtin_name(tool_type(tool), d),
                    config: tool,
                },
                metadata: no_fields(),
            },
        )
    }
}

/// The neutral name of a built-in tool.
pub open spec fn builtin_name(name: Seq<char>, d: ToolDialect) -> Seq<char> {
    if d == ToolDialect::Anthropic && name == "web_search_20250305"@ {
        "web_search"@
    } else if d == ToolDialect::Anthropic && "computer_"@.is_prefix_of(name) {
        "computer"@
    } else if d == ToolDialect::Anthropic && "code_execution_"@.is_prefix_of(name) {
        "code_interpreter"@
    } else if d == ToolDialect::Anthropic && "bash_"@.is_prefix_of(name) {
        "local_shell"@
    } else if d == ToolDialect::OpenAiResponses && name == "computer_use_preview"@ {
        "computer"@
    } else {
        name
    }
}

/// `tool_of` for one form of tools.
pub open spec fn tool_reader(d: ToolDialect) -> spec_fn(JsonView) -> Result<ToolView, ErrorView> {
    |tool: JsonView| tool_of(tool, d)
}

/// The tools that a list of values is.
pub open spec fn tools_of(value: JsonView, d: ToolDialect) -> Result<Seq<ToolView>, ErrorView> {
    try_map(value.list(), tool_reader(d))
}

fn normalize_builtin_tool_name(name: &str, d: ToolDialect) -> (r: String)
    ensures
        r@ == builtin_name(name@, d),
{
    let anthropic = d == ToolDialect::Anthropic;
    if anthropic && same(name, "web_search_20250305") {
        "web_search".to_owned()
    } else if anthropic && starts_with(name, "computer_") {
        "computer".to_owned()
    } else if anthropic && starts_with(name, "code_execution_") {
        "code_interpreter".to_owned()
    } else if anthropic && starts_with(name, "bash_") {
        "local_shell".to_owned()
    } else if d == ToolDialect::OpenAiResponses && same(name, "computer_use_preview") {
        "computer".to_owned()
    } else {
        name.to_owned()
    }
}

fn tool_from_value(tool: &Json, d: ToolDialect) -> (r: Result<LLMTool, AdapterError>)
    ensures
        outcome(r) == tool_of(tool@, d),
{
    let kind = tool.text_at("type").unwrap_or("function");
    let plain = same(kind, "function");
    let function = if d == ToolDialect::OpenAiChat && plain {
        tool.at("function")
    } else {
        tool
    };
    let named = match tool.text_at("name") {
        Some(_) => true,
        None => false,
    };
    let schema = match tool.get("input_schema") {
        Some(_) => true,
        None => false,
    };
    if plain || (d == ToolDialect::Anthropic && named && schema) {
        let name = match function.text_at("name") {
            Some(name) => name.to_owned(),
            None => {
                return Err(AdapterError::MissingField("tools.name"));
            },
        };
        let schema_name = schema_field(d);
        let known = ["name", "description", schema_name, "strict", "type"];
        let mut metadata = function.fields_without(&known);
        assert(texts(known@) =~= seq![
            "name"@,
            "description"@,
            schema_key(d),
            "strict"@,
            "type"@,
        ]);
        if d == ToolDialect::OpenAiChat {
            let outer = ["type", "function"];
            metadata.extend(&tool.fields_without(&outer));
            assert(texts(outer@) =~= seq!["type"@, "function"@]);
        }
        let parameters = match function.get(schema_name) {
            Some(schema) => schema.clone(),
            None => json1("type", Json::text("object")),
        };
        Ok(
            LLMTool {
                source: d.protocol(),
                kind: LLMToolKind::Function {
                    name,
                    description: own(function.text_at("description")),
                    parameters,
                    strict: function.bool_at("strict"),
                },
                metadata,
            },
        )
    } else {
        Ok(
            LLMTool {
                source: d.protocol(),
                kind: LLMToolKind::Builtin {
                    protocol: d.protocol(),
                    name: normalize_builtin_tool_name(kind, d),
                    config: tool.clone(),
                },
                metadata: JsonMap::new(),
            },
        )
    }
}

/// The tools that a list of values is.
pub fn tools_from_value(value: &Json, d: ToolDialect) -> (r: Result<Vec<LLMTool>, AdapterError>)
    ensures
        outcomes(r) == tools_of(value@, d),
{
    match value.as_array() {
        None => {
            let none: Vec<LLMTool> = Vec::new();
            assert(views(none@) =~= Seq::empty());
            Ok(none)
        },
        Some(items) => {
            let read = |tool: &Json| -> (r: Result<LLMTool, AdapterError>)
                ensures
                    outcome(r) == tool_of(tool@, d),
            {
                tool_from_value(tool, d)
            };
            try_each(items.as_slice(), read, Ghost(tool_reader(d)))
        },
    }
}

/// The fields of a function tool in a target format.
pub open spec fn function_fields(tool: ToolView, d: ToolDialect) -> Fields
    recommends
        tool.kind is Function,
{
    let base = with_truth(
        with_text(
            no_fields().insert("name"@, JsonView::Text(tool.kind->Function_name)),
            "description"@,
            tool.kind->description,
        ).insert(schema_key(d), tool.kind->parameters),
        "strict"@,
        tool.kind->strict,
    );
    base.union_prefer_right(
        if tool.source == dialect_protocol(d) {
            tool.metadata
        } else {
            prefixed(tool.metadata, "x-"@)
        },
    )
}

/// The value that a tool is in a target format.
pub open spec fn tool_value(tool: ToolView, d: ToolDialect) -> Result<JsonView, ErrorView> {
    match tool.kind {
        ToolKindView::Function { .. } => {
            let function = function_fields(tool, d);
            Ok(
                match d {
                    ToolDialect::OpenAiChat => JsonView::Object(
                        no_fields().insert("type"@, jtext("function"@)).insert(
                            "function"@,
                            JsonView::Object(function),
                        ),
                    ),
                    ToolDialect::OpenAiResponses => JsonView::Object(
                        function.insert("type"@, jtext("function"@)),
                    ),
                    ToolDialect::Anthropic => JsonView::Object(function),
                },
            )
        },
        ToolKindView::Builtin { protocol, name, config } => builtin_value(
            protocol,
            name,
            config,
            d,
        ),
    }
}

/// The first integer that is there, or `other`.
pub open spec fn first_int(a: Option<u64>, b: Option<u64>, other: u64) -> u64 {
    match a {
        Some(n) => n,
        None => match b {
            Some(n) => n,
            None => other,
        },
    }
}

/// The domains to which a search is limited.
pub open spec fn allowed_domains(config: JsonView) -> Option<Seq<JsonView>> {
    match config.at("allowed_domains"@).items() {
        Some(domains) => Some(domains),
        None => config.at("filters"@).at("allowed_domains"@).items(),
    }
}

/// The value that a built-in tool is in a target format.
pub open spec fn builtin_value(
    source: LLMProtocol,
    name: Seq<char>,
    config: JsonView,
    d: ToolDialect,
) -> Result<JsonView, ErrorView> {
    let search = name == "web_search"@ || name == "web_search_preview"@;
    if source == dialect_protocol(d) {
        Ok(config)
    } else if search && d == ToolDialect::OpenAiResponses {
        let fields = with_some(
            with_some(
                no_fields().insert("type"@, jtext("web_search"@)),
                "search_context_size"@,
                config.field("search_context_size"@),
            ),
            "user_location"@,
            config.field("user_location"@),
        );
        Ok(
            JsonView::Object(
                match allowed_domains(config) {
                    Some(domains) => fields.insert(
                        "filters"@,
                        object1("allowed_domains"@, JsonView::Array(domains)),
                    ),
                    None => fields,
                },
            ),
        )
    } else if search && d == ToolDialect::Anthropic {
        let fields = no_fields().insert("type"@, jtext("web_search_20250305"@)).insert(
            "name"@,
            jtext("web_search"@),
        );
        let fields = with_some(fields, "max_uses"@, config.field("max_uses"@));
        let fields = with_some(fields, "allowed_domains"@, config.field("allowed_domains"@));
        let fields = with_some(fields, "blocked_domains"@, config.field("blocked_domains"@));
        let fields = with_some(fields, "user_location"@, config.field("user_location"@));
        Ok(
            JsonView::Object(
                with_some(
                    fields,
                    "allowed_domains"@,
                    config.at("filters"@).field("allowed_domains"@),
                ),
            ),
        )
    } else if name == "computer"@ && d == ToolDialect::OpenAiResponses {
        Ok(
            JsonView::Object(
                no_fields().insert("type"@, jtext("computer_use_preview"@)).insert(
                    "display_width"@,
                    jint(
                        first_int(
                            config.at("display_width"@).uint(),
                            config.at("display_width_px"@).uint(),
                            1024,
                        ),
                    ),
                ).insert(
                    "display_height"@,
                    jint(
                        first_int(
                            config.at("display_height"@).uint(),
                            config.at("display_height_px"@).uint(),
                            768,
                        ),
                    ),
                ).insert(
                    "environment"@,
                    jtext(or_text(config.at("environment"@).text(), "browser"@)),
                ),
            ),
        )
    } else if name == "computer"@ && d == ToolDialect::Anthropic {
        Ok(
            JsonView::Object(
                no_fields().insert("type"@, jtext("computer_20250124"@)).insert(
                    "name"@,
                    jtext("computer"@),
                ).insert(
                    "display_width_px"@,
                    jint(
                        first_int(
                            config.at("display_width_px"@).uint(),
                            config.at("display_width"@).uint(),
                            1024,
                        ),
                    ),
                ).insert(
                    "display_height_px"@,
                    jint(
                        first_int(
                            config.at("display_height_px"@).uint(),
                            config.at("display_height"@).uint(),
                            768,
                        ),
                    ),
                ),
            ),
        )
    } else if name == "code_interpreter"@ && d == ToolDialect::OpenAiResponses {
        Ok(
            JsonView::Object(
                no_fields().insert("type"@, jtext("code_interpreter"@)).insert(
                    "container"@,
                    object1("type"@, jtext("auto"@)),
                ),
            ),
        )
    } else if name == "code_interpreter"@ && d == ToolDialect::Anthropic {
        Ok(
            JsonView::Object(
                no_fields().insert("type"@, jtext("code_execution_20250522"@)).insert(
                    "name"@,
                    jtext("code_execution"@),
                ),
            ),
        )
    } else if name == "local_shell"@ && d == ToolDialect::OpenAiResponses {
        Ok(object1("type"@, jtext("local_shell"@)))
    } else if name == "local_shell"@ && d == ToolDialect::Anthropic {
        Ok(
            JsonView::Object(
                no_fields().insert("type"@, jtext("bash_20250124"@)).insert("name"@, jtext("bash"@)),
            ),
        )
    } else {
        Err(
            ErrorView::Unsupported(
                protocol_text(dialect_protocol(d)) + " cannot represent "@ + protocol_text(source)
                    + " built-in tool `"@ + name + "`"@,
            ),
        )
    }
}

/// `tool_value` for one form of tools.
pub open spec fn tool_writer(d: ToolDialect) -> spec_fn(ToolView) -> Result<JsonView, ErrorView> {
    |tool: ToolView| tool_value(tool, d)
}

/// The values that tools are in a target format.
pub open spec fn tools_value(tools: Seq<ToolView>, d: ToolDialect) -> Result<
    Seq<JsonView>,
    ErrorView,
> {
    try_map(tools, tool_writer(d))
}

fn uint_or(a: Option<u64>, b: Option<u64>, other: u64) -> (r: u64)
    ensures
        r == first_int(a, b, other),
{
    match a {
        Some(n) => n,
        None => match b {
            Some(n) => n,
            None => other,
        },
    }
}

fn builtin_tool_to_value(
    source: LLMProtocol,
    name: &str,
    config: &Json,
    d: ToolDialect,
) -> (r: Result<Json, AdapterError>)
    ensures
        outcome(r) == builtin_value(source, name@, config@, d),
{
    if source == d.protocol() {
        return Ok(config.clone());
    }
    let search = same(name, "web_search") || same(name, "web_search_preview");
    let responses = d == ToolDialect::OpenAiResponses;
    let anthropic = d == ToolDialect::Anthropic;
    let mut fields = JsonMap::new();
    if search && responses {
        fields.put_text("type", "web_search");
        fields.put_some("search_context_size", config.get("search_context_size"));
        fields.put_some("user_location", config.get("user_location"));
        let domains = match config.array_at("allowed_domains") {
            Some(domains) => Some(domains),
            None => config.at("filters").array_at("allowed_domains"),
        };
        if let Some(domains) = domains {
            let list = crate::json::copy_all(domains);
            fields.put("filters", json1("allowed_domains", Json::array(list)));
        }
    } else if search && anthropic {
        fields.put_text("type", "web_search_20250305");
        fields.put_text("name", "web_search");
        fields.put_some("max_uses", config.get("max_uses"));
        fields.put_some("allowed_domains", config.get("allowed_domains"));
        fields.put_some("blocked_domains", config.get("blocked_domains"));
        fields.put_some("user_location", config.get("user_location"));
        fields.put_some("allowed_domains", config.at("filters").get("allowed_domains"));
    } else if same(name, "computer") && responses {
        fields.put_text("type", "computer_use_preview");
        fields.put_uint(
            "display_width",
            uint_or(config.uint_at("display_width"), config.uint_at("display_width_px"), 1024),
        );
        fields.put_uint(
            "display_height",
            uint_or(config.uint_at("display_height"), config.uint_at("display_height_px"), 768),
        );
        fields.put_text("environment", config.text_at("environment").unwrap_or("browser"));
    } else if same(name, "computer") && anthropic {
        fields.put_text("type", "computer_20250124");
        fields.put_text("name", "computer");
        fields.put_uint(
            "display_width_px",
            uint_or(config.uint_at("display_width_px"), config.uint_at("display_width"), 1024),
        );
        fields.put_uint(
            "display_height_px",
            uint_or(config.uint_at("display_height_px"), config.uint_at("display_height"), 768),
        );
    } else if same(name, "code_interpreter") && responses {
        fields.put_text("type", "code_interpreter");
        fields.put("container", json1("type", Json::text("auto")));
    } else if same(name, "code_interpreter") && anthropic {
        fields.put_text("type", "code_execution_20250522");
        fields.put_text("name", "code_execution");
    } else if same(name, "local_shell") && responses {
        fields.put_text("type", "local_shell");
    } else if same(name, "local_shell") && anthropic {
        fields.put_text("type", "bash_20250124");
        fields.put_text("name", "bash");
    } else {
        let mut message = protocol_name(d.protocol()).to_owned();
        message.push_str(" cannot represent ");
        message.push_str(protocol_name(source));
        message.push_str(" built-in tool `");
        message.push_str(name);
        message.push_str("`");
        return Err(AdapterError::Unsupported(message));
    }
    Ok(Json::object(fields))
}

fn tool_to_value(tool: &LLMTool, d: ToolDialect) -> (r: Result<Json, AdapterError>)
    ensures
        outcome(r) == tool_value(tool@, d),
{
    match &tool.kind {
        LLMToolKind::Function { name, description, parameters, strict } => {
            let mut function = JsonMap::new();
            function.put_text("name", name.as_str());
            function.put_some_text("description", borrow(description));
            function.put(schema_field(d), parameters.clone());
            function.put_some_bool("strict", *strict);
            if tool.source == d.protocol() {
                function.extend(&tool.metadata);
            } else {
                function.extend(&tool.metadata.prefixed("x-"));
            }
            assert(function@ == function_fields(tool@, d));
            match d {
                ToolDialect::OpenAiChat => {
                    let mut outer = JsonMap::new();
                    outer.put_text("type", "function");
                    outer.put_object("function", function);
                    Ok(Json::object(outer))
                },
                ToolDialect::OpenAiResponses => {
                    function.put_text("type", "function");
                    Ok(Json::object(function))
                },
                ToolDialect::Anthropic => Ok(Json::object(function)),
            }
        },
        LLMToolKind::Builtin { protocol, name, config } => builtin_tool_to_value(
            *protocol,
            name.as_str(),
            config,
            d,
        ),
    }
}

/// The values that tools are in a target format.
pub fn tools_to_value(tools: &[LLMTool], d: ToolDialect) -> (r: Result<Vec<Json>, AdapterError>)
    ensures
        outcomes(r) == tools_value(views(tools@), d),
{
    let write = |tool: &LLMTool| -> (r: Result<Json, AdapterError>)
        ensures
            outcome(r) == tool_value(tool@, d),
    {
        tool_to_value(tool, d)
    };
    try_each(tools, write, Ghost(tool_writer(d)))
}

/// The tools of a Chat Completions request.
pub fn tools_from_openai_chat(value: &Json) -> (r: Result<Vec<LLMTool>, AdapterError>)
    ensures
        outcomes(r) == tools_of(value@, ToolDialect::OpenAiChat),
{
    tools_from_value(value, ToolDialect::OpenAiChat)
}

/// The tools of a Responses request.
pub fn tools_from_openai_responses(value: &Json) -> (r: Result<Vec<LLMTool>, AdapterError>)
    ensures
        outcomes(r) == tools_of(value@, ToolDialect::OpenAiResponses),
{
    tools_from_value(value, ToolDialect::OpenAiResponses)
}

/// The tools of a Messages request.
pub fn tools_from_anthropic(value: &Json) -> (r: Result<Vec<LLMTool>, AdapterError>)
    ensures
        outcomes(r) == tools_of(value@, ToolDialect::Anthropic),
{
    tools_from_value(value, ToolDialect::Anthropic)
}

/// Tools, for a Chat Completions request.
pub fn tools_to_openai_chat(tools: &[LLMTool]) -> (r: Result<Vec<Json>, AdapterError>)
    ensures
        outcomes(r) == tools_value(views(tools@), ToolDialect::OpenAiChat),
{
    tools_to_value(tools, ToolDialect::OpenAiChat)
}

/// Tools, for a Responses request.
pub fn tools_to_openai_responses(tools: &[LLMTool]) -> (r: Result<Vec<Json>, AdapterError>)
    ensures
        outcomes(r) == tools_value(views(tools@), ToolDialect::OpenAiResponses),
{
    tools_to_value(tools, ToolDialect::OpenAiResponses)
}

/// Tools, for a Messages request.
pub fn tools_to_anthropic(tools: &[LLMTool]) -> (r: Result<Vec<Json>, AdapterError>)
    ensures
        outcomes(r) == tools_value(views(tools@), ToolDialect::Anthropic),
{
    tools_to_value(tools, ToolDialect::Anthropic)
}

} // verus!
