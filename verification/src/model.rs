//! The protocol-neutral form of requests, responses and stream events.

use crate::json::{opt_float, opt_view, Float, Json, JsonMap, JsonView};
use crate::seqs::views;
use crate::text::{copy_strings, opt_str, opt_text, strings};
use vstd::prelude::*;

verus! {

/// Fields that the neutral form has no name for.
pub type Extensions = JsonMap;

/// What extensions stand for.
pub type Fields = Map<Seq<char>, JsonView>;

/// Who a message is from.
#[derive(Debug, Clone, Copy, PartialEq, Eq, Structural)]
pub enum LLMRole {
    System,
    Developer,
    User,
    Assistant,
    Tool,
}

/// A wire format.
#[derive(Debug, Clone, Copy, PartialEq, Eq, Structural)]
pub enum LLMProtocol {
    OpenAiChat,
    OpenAiResponses,
    AnthropicMessages,
}

/// Why a model stopped.
#[derive(Debug, Clone, Copy, PartialEq, Eq, Structural)]
pub enum LLMFinishReason {
    Stop,
    Length,
    ToolCalls,
    ContentFilter,
    FunctionCall,
    EndTurn,
    StopSequence,
    MaxTokens,
    ToolUse,
    PauseTurn,
    Refusal,
    ContextLimit,
    Completed,
    Incomplete,
    Failed,
    Cancelled,
    Unknown,
}

/// A request to a model.
#[derive(Debug, PartialEq)]
pub struct LLMRequest {
    pub source: LLMProtocol,
    pub model: String,
    pub messages: Vec<LLMMessage>,
    pub temperature: Option<Float>,
    pub max_tokens: Option<u64>,
    pub top_p: Option<Float>,
    pub stop: Option<Json>,
    pub stream: bool,
    pub tools: Vec<LLMTool>,
    pub tool_choice: Option<LLMToolChoice>,
    pub parallel_tool_calls: Option<bool>,
    pub response_format: Option<Json>,
    pub reasoning: Option<Json>,
    pub metadata: Extensions,
    pub extra: Extensions,
}

/// A message of a conversation.
#[derive(Debug, PartialEq)]
pub struct LLMMessage {
    pub source: Option<LLMProtocol>,
    pub role: LLMRole,
    pub content: Vec<LLMContent>,
    pub name: Option<String>,
    pub metadata: Extensions,
}

/// A part of a message.
#[derive(Debug, PartialEq)]
pub struct LLMContent {
    pub source: Option<LLMProtocol>,
    pub kind: LLMContentKind,
    pub metadata: Extensions,
}

/// What a part of a message is.
#[derive(Debug, PartialEq)]
#[allow(inconsistent_fields)]
pub enum LLMContentKind {
    Text { text: String, annotations: Vec<LLMAnnotation> },
    Image { source: LLMMediaSource, detail: Option<String> },
    Audio { source: LLMMediaSource, format: Option<String> },
    File { source: LLMMediaSource, filename: Option<String>, media_type: Option<String> },
    ToolCall { id: Option<String>, name: String, arguments: Json },
    ToolResult { tool_call_id: String, content: Vec<LLMContent>, is_error: Option<bool> },
    Reasoning {
        text: Option<String>,
        summary: Vec<String>,
        signature: Option<String>,
        encrypted_content: Option<String>,
    },
    Refusal { refusal: String },
    Raw { protocol: LLMProtocol, value: Json },
}

/// Where a picture, a sound or a file comes from.
#[derive(Debug, PartialEq)]
pub enum LLMMediaSource {
    Url { url: String },
    Data { data: String, media_type: Option<String> },
    FileId { file_id: String },
    Raw { value: Json },
}

/// A tool that the model may call.
#[derive(Debug, PartialEq)]
pub struct LLMTool {
    pub source: LLMProtocol,
    pub kind: LLMToolKind,
    pub metadata: Extensions,
}

/// What a tool is.
#[derive(Debug, PartialEq)]
pub enum LLMToolKind {
    Function { name: String, description: Option<String>, parameters: Json, strict: Option<bool> },
    Builtin { protocol: LLMProtocol, name: String, config: Json },
}

/// Which tool the model shall call.
#[derive(Debug, PartialEq)]
pub enum LLMToolChoice {
    Auto,
    NoTools,
    Required,
    Function { name: String },
    Raw { value: Json },
}

/// A citation in a text.
#[derive(Debug, PartialEq)]
pub struct LLMAnnotation {
    pub source: LLMProtocol,
    pub annotation_type: String,
    pub start_index: Option<u64>,
    pub end_index: Option<u64>,
    pub url: Option<String>,
    pub title: Option<String>,
    pub file_id: Option<String>,
    pub filename: Option<String>,
    pub cited_text: Option<String>,
    pub metadata: Extensions,
}

/// What a call consumed.
#[derive(Debug, PartialEq)]
pub struct LLMUsage {
    pub source: Option<LLMProtocol>,
    pub input_tokens: Option<u64>,
    pub output_tokens: Option<u64>,
    pub total_tokens: Option<u64>,
    pub cache_read_tokens: Option<u64>,
    pub cache_creation_tokens: Option<u64>,
    pub reasoning_tokens: Option<u64>,
    pub input_audio_tokens: Option<u64>,
    pub output_audio_tokens: Option<u64>,
    pub accepted_prediction_tokens: Option<u64>,
    pub rejected_prediction_tokens: Option<u64>,
    pub extra: Extensions,
}

/// One answer of a response.
#[derive(Debug, PartialEq)]
pub struct LLMChoice {
    pub index: usize,
    pub role: LLMRole,
    pub content: Vec<LLMContent>,
    pub finish_reason: Option<LLMFinishReason>,
    pub metadata: Extensions,
}

/// A response of a model.
#[derive(Debug, PartialEq)]
pub struct LLMResponse {
    pub source: LLMProtocol,
    pub id: Option<String>,
    pub model: Option<String>,
    pub choices: Vec<LLMChoice>,
    pub usage: Option<LLMUsage>,
    pub metadata: Extensions,
    pub extra: Extensions,
}

/// An event of a streamed response.
#[derive(Debug, PartialEq)]
#[allow(inconsistent_fields)]
pub enum LLMStreamEvent {
    MessageStart { id: Option<String>, model: Option<String>, usage: Option<LLMUsage> },
    ContentStart { index: usize, content: LLMContent },
    TextDelta { index: usize, text: String },
    ReasoningDelta { index: usize, text: Option<String>, signature: Option<String> },
    RefusalDelta { index: usize, refusal: String },
    AnnotationAdded { index: usize, annotation: LLMAnnotation },
    ToolCallDelta {
        index: usize,
        id: Option<String>,
        name: Option<String>,
        arguments_delta: String,
    },
    ContentEnd { index: usize },
    Usage { usage: LLMUsage },
    MessageEnd {
        finish_reason: Option<LLMFinishReason>,
        usage: Option<LLMUsage>,
        metadata: Extensions,
    },
    Error { message: String, metadata: Extensions },
    Raw { protocol: LLMProtocol, value: Json },
}

/// What a request stands for.
#[verifier::ext_equal]
pub struct RequestView {
    pub source: LLMProtocol,
    pub model: Seq<char>,
    pub messages: Seq<MessageView>,
    pub temperature: Option<Seq<char>>,
    pub max_tokens: Option<u64>,
    pub top_p: Option<Seq<char>>,
    pub stop: Option<JsonView>,
    pub stream: bool,
    pub tools: Seq<ToolView>,
    pub tool_choice: Option<ToolChoiceView>,
    pub parallel_tool_calls: Option<bool>,
    pub response_format: Option<JsonView>,
    pub reasoning: Option<JsonView>,
    pub metadata: Fields,
    pub extra: Fields,
}

/// What a message stands for.
#[verifier::ext_equal]
pub struct MessageView {
    pub source: Option<LLMProtocol>,
    pub role: LLMRole,
    pub content: Seq<ContentView>,
    pub name: Option<Seq<char>>,
    pub metadata: Fields,
}

/// What a part of a message stands for.
#[verifier::ext_equal]
pub struct ContentView {
    pub source: Option<LLMProtocol>,
    pub kind: KindView,
    pub metadata: Fields,
}

/// What the kind of a part stands for.
#[verifier::ext_equal]
#[allow(inconsistent_fields)]
pub enum KindView {
    Text { text: Seq<char>, annotations: Seq<AnnotationView> },
    Image { source: MediaView, detail: Option<Seq<char>> },
    Audio { source: MediaView, format: Option<Seq<char>> },
    File { source: MediaView, filename: Option<Seq<char>>, media_type: Option<Seq<char>> },
    ToolCall { id: Option<Seq<char>>, name: Seq<char>, arguments: JsonView },
    ToolResult { tool_call_id: Seq<char>, content: Seq<ContentView>, is_error: Option<bool> },
    Reasoning {
        text: Option<Seq<char>>,
        summary: Seq<Seq<char>>,
        signature: Option<Seq<char>>,
        encrypted_content: Option<Seq<char>>,
    },
    Refusal { refusal: Seq<char> },
    Raw { protocol: LLMProtocol, value: JsonView },
}

/// What a source of media stands for.
#[verifier::ext_equal]
pub enum MediaView {
    Url { url: Seq<char> },
    Data { data: Seq<char>, media_type: Option<Seq<char>> },
    FileId { file_id: Seq<char> },
    Raw { value: JsonView },
}

/// What a tool stands for.
#[verifier::ext_equal]
pub struct ToolView {
    pub source: LLMProtocol,
    pub kind: ToolKindView,
    pub metadata: Fields,
}

/// What the kind of a tool stands for.
#[verifier::ext_equal]
pub enum ToolKindView {
    Function {
        name: Seq<char>,
        description: Option<Seq<char>>,
        parameters: JsonView,
        strict: Option<bool>,
    },
    Builtin { protocol: LLMProtocol, name: Seq<char>, config: JsonView },
}

/// What a choice of tools stands for.
#[verifier::ext_equal]
pub enum ToolChoiceView {
    Auto,
    NoTools,
    Required,
    Function { name: Seq<char> },
    Raw { value: JsonView },
}

/// What a citation stands for.
#[verifier::ext_equal]
pub struct AnnotationView {
    pub source: LLMProtocol,
    pub annotation_type: Seq<char>,
    pub start_index: Option<u64>,
    pub end_index: Option<u64>,
    pub url: Option<Seq<char>>,
    pub title: Option<Seq<char>>,
    pub file_id: Option<Seq<char>>,
    pub filename: Option<Seq<char>>,
    pub cited_text: Option<Seq<char>>,
    pub metadata: Fields,
}

/// What a consumption stands for.
#[verifier::ext_equal]
pub struct UsageView {
    pub source: Option<LLMProtocol>,
    pub input_tokens: Option<u64>,
    pub output_tokens: Option<u64>,
    pub total_tokens: Option<u64>,
    pub cache_read_tokens: Option<u64>,
    pub cache_creation_tokens: Option<u64>,
    pub reasoning_tokens: Option<u64>,
    pub input_audio_tokens: Option<u64>,
    pub output_audio_tokens: Option<u64>,
    pub accepted_prediction_tokens: Option<u64>,
    pub rejected_prediction_tokens: Option<u64>,
    pub extra: Fields,
}

/// What an answer stands for.
#[verifier::ext_equal]
pub struct ChoiceView {
    pub index: usize,
    pub role: LLMRole,
    pub content: Seq<ContentView>,
    pub finish_reason: Option<LLMFinishReason>,
    pub metadata: Fields,
}

/// What a response stands for.
#[verifier::ext_equal]
pub struct ResponseView {
    pub source: LLMProtocol,
    pub id: Option<Seq<char>>,
    pub model: Option<Seq<char>>,
    pub choices: Seq<ChoiceView>,
    pub usage: Option<UsageView>,
    pub metadata: Fields,
    pub extra: Fields,
}

/// What an event of a streamed response stands for.
#[verifier::ext_equal]
#[allow(inconsistent_fields)]
pub enum EventView {
    MessageStart { id: Option<Seq<char>>, model: Option<Seq<char>>, usage: Option<UsageView> },
    ContentStart { index: usize, content: ContentView },
    TextDelta { index: usize, text: Seq<char> },
    ReasoningDelta { index: usize, text: Option<Seq<char>>, signature: Option<Seq<char>> },
    RefusalDelta { index: usize, refusal: Seq<char> },
    AnnotationAdded { index: usize, annotation: AnnotationView },
    ToolCallDelta {
        index: usize,
        id: Option<Seq<char>>,
        name: Option<Seq<char>>,
        arguments_delta: Seq<char>,
    },
    ContentEnd { index: usize },
    Usage { usage: UsageView },
    MessageEnd {
        finish_reason: Option<LLMFinishReason>,
        usage: Option<UsageView>,
        metadata: Fields,
    },
    Error { message: Seq<char>, metadata: Fields },
    Raw { protocol: LLMProtocol, value: JsonView },
}

/// No fields.
pub open spec fn no_fields() -> Fields {
    Map::empty()
}

impl View for LLMAnnotation {
    type V = AnnotationView;

    open spec fn view(&self) -> AnnotationView {
        AnnotationView {
            source: self.source,
            annotation_type: self.annotation_type@,
            start_index: self.start_index,
            end_index: self.end_index,
            url: opt_text(self.url),
            title: opt_text(self.title),
            file_id: opt_text(self.file_id),
            filename: opt_text(self.filename),
            cited_text: opt_text(self.cited_text),
            metadata: self.metadata@,
        }
    }
}

impl View for LLMUsage {
    type V = UsageView;

    open spec fn view(&self) -> UsageView {
        UsageView {
            source: self.source,
            input_tokens: self.input_tokens,
            output_tokens: self.output_tokens,
            total_tokens: self.total_tokens,
            cache_read_tokens: self.cache_read_tokens,
            cache_creation_tokens: self.cache_creation_tokens,
            reasoning_tokens: self.reasoning_tokens,
            input_audio_tokens: self.input_audio_tokens,
            output_audio_tokens: self.output_audio_tokens,
            accepted_prediction_tokens: self.accepted_prediction_tokens,
            rejected_prediction_tokens: self.rejected_prediction_tokens,
            extra: self.extra@,
        }
    }
}

impl View for LLMMediaSource {
    type V = MediaView;

    open spec fn view(&self) -> MediaView {
        match self {
            LLMMediaSource::Url { url } => MediaView::Url { url: url@ },
            LLMMediaSource::Data { data, media_type } => MediaView::Data {
                data: data@,
                media_type: opt_text(*media_type),
            },
            LLMMediaSource::FileId { file_id } => MediaView::FileId { file_id: file_id@ },
            LLMMediaSource::Raw { value } => MediaView::Raw { value: value@ },
        }
    }
}

impl View for LLMToolKind {
    type V = ToolKindView;

    open spec fn view(&self) -> ToolKindView {
        match self {
            LLMToolKind::Function { name, description, parameters, strict } => {
                ToolKindView::Function {
                    name: name@,
                    description: opt_text(*description),
                    parameters: parameters@,
                    strict: *strict,
                }
            },
            LLMToolKind::Builtin { protocol, name, config } => ToolKindView::Builtin {
                protocol: *protocol,
                name: name@,
                config: config@,
            },
        }
    }
}

impl View for LLMTool {
    type V = ToolView;

    open spec fn view(&self) -> ToolView {
        ToolView { source: self.source, kind: self.kind@, metadata: self.metadata@ }
    }
}

impl View for LLMToolChoice {
    type V = ToolChoiceView;

    open spec fn view(&self) -> ToolChoiceView {
        match self {
            LLMToolChoice::Auto => ToolChoiceView::Auto,
            LLMToolChoice::NoTools => ToolChoiceView::NoTools,
            LLMToolChoice::Required => ToolChoiceView::Required,
            LLMToolChoice::Function { name } => ToolChoiceView::Function { name: name@ },
            LLMToolChoice::Raw { value } => ToolChoiceView::Raw { value: value@ },
        }
    }
}

/// What a part of a message stands for, by recursion over the part.
pub open spec fn content_view(c: LLMContent) -> ContentView
    decreases c,
{
    ContentView { source: c.source, kind: kind_view(c.kind), metadata: c.metadata@ }
}

/// What the kind of a part stands for, by recursion over the kind.
pub open spec fn kind_view(k: LLMContentKind) -> KindView
    decreases k,
{
    match k {
        LLMContentKind::Text { text, annotations } => KindView::Text {
            text: text@,
            annotations: views(annotations@),
        },
        LLMContentKind::Image { source, detail } => KindView::Image {
            source: source@,
            detail: opt_text(detail),
        },
        LLMContentKind::Audio { source, format } => KindView::Audio {
            source: source@,
            format: opt_text(format),
        },
        LLMContentKind::File { source, filename, media_type } => KindView::File {
            source: source@,
            filename: opt_text(filename),
            media_type: opt_text(media_type),
        },
        LLMContentKind::ToolCall { id, name, arguments } => KindView::ToolCall {
            id: opt_text(id),
            name: name@,
            arguments: arguments@,
        },
        LLMContentKind::ToolResult { tool_call_id, content, is_error } => KindView::ToolResult {
            tool_call_id: tool_call_id@,
            content: content_views(content@),
            is_error,
        },
        LLMContentKind::Reasoning { text, summary, signature, encrypted_content } => {
            KindView::Reasoning {
                text: opt_text(text),
                summary: strings(summary@),
                signature: opt_text(signature),
                encrypted_content: opt_text(encrypted_content),
            }
        },
        LLMContentKind::Refusal { refusal } => KindView::Refusal { refusal: refusal@ },
        LLMContentKind::Raw { protocol, value } => KindView::Raw { protocol, value: value@ },
    }
}

/// What parts stand for.
pub open spec fn content_views(s: Seq<LLMContent>) -> Seq<ContentView>
    decreases s,
{
    Seq::new(
        s.len(),
        |i: int|
            if 0 <= i < s.len() {
                content_view(s[i])
            } else {
                text_part(Seq::empty())
            },
    )
}

/// A part that is a text of no protocol.
pub open spec fn text_part(text: Seq<char>) -> ContentView {
    ContentView {
        source: None,
        kind: KindView::Text { text, annotations: Seq::empty() },
        metadata: no_fields(),
    }
}

impl View for LLMContent {
    type V = ContentView;

    open spec fn view(&self) -> ContentView {
        content_view(*self)
    }
}

impl View for LLMContentKind {
    type V = KindView;

    open spec fn view(&self) -> KindView {
        kind_view(*self)
    }
}

impl View for LLMMessage {
    type V = MessageView;

    open spec fn view(&self) -> MessageView {
        MessageView {
            source: self.source,
            role: self.role,
            content: content_views(self.content@),
            name: opt_text(self.name),
            metadata: self.metadata@,
        }
    }
}

/// What an optional choice of tools stands for.
pub open spec fn opt_choice(o: Option<LLMToolChoice>) -> Option<ToolChoiceView> {
    match o {
        Some(c) => Some(c@),
        None => None,
    }
}

/// What an optional consumption stands for.
pub open spec fn opt_usage(o: Option<LLMUsage>) -> Option<UsageView> {
    match o {
        Some(u) => Some(u@),
        None => None,
    }
}

impl View for LLMRequest {
    type V = RequestView;

    open spec fn view(&self) -> RequestView {
        RequestView {
            source: self.source,
            model: self.model@,
            messages: views(self.messages@),
            temperature: opt_float(self.temperature),
            max_tokens: self.max_tokens,
            top_p: opt_float(self.top_p),
            stop: opt_view(self.stop),
            stream: self.stream,
            tools: views(self.tools@),
            tool_choice: opt_choice(self.tool_choice),
            parallel_tool_calls: self.parallel_tool_calls,
            response_format: opt_view(self.response_format),
            reasoning: opt_view(self.reasoning),
            metadata: self.metadata@,
            extra: self.extra@,
        }
    }
}

impl View for LLMChoice {
    type V = ChoiceView;

    open spec fn view(&self) -> ChoiceView {
        ChoiceView {
            index: self.index,
            role: self.role,
            content: content_views(self.content@),
            finish_reason: self.finish_reason,
            metadata: self.metadata@,
        }
    }
}

impl View for LLMResponse {
    type V = ResponseView;

    open spec fn view(&self) -> ResponseView {
        ResponseView {
            source: self.source,
            id: opt_text(self.id),
            model: opt_text(self.model),
            choices: views(self.choices@),
            usage: opt_usage(self.usage),
            metadata: self.metadata@,
            extra: self.extra@,
        }
    }
}

impl View for LLMStreamEvent {
    type V = EventView;

    open spec fn view(&self) -> EventView {
        match self {
            LLMStreamEvent::MessageStart { id, model, usage } => EventView::MessageStart {
                id: opt_text(*id),
                model: opt_text(*model),
                usage: opt_usage(*usage),
            },
            LLMStreamEvent::ContentStart { index, content } => EventView::ContentStart {
                index: *index,
                content: content@,
            },
            LLMStreamEvent::TextDelta { index, text } => EventView::TextDelta {
                index: *index,
                text: text@,
            },
            LLMStreamEvent::ReasoningDelta { index, text, signature } => {
                EventView::ReasoningDelta {
                    index: *index,
                    text: opt_text(*text),
                    signature: opt_text(*signature),
                }
            },
            LLMStreamEvent::RefusalDelta { index, refusal } => EventView::RefusalDelta {
                index: *index,
                refusal: refusal@,
            },
            LLMStreamEvent::AnnotationAdded { index, annotation } => {
                EventView::AnnotationAdded { index: *index, annotation: annotation@ }
            },
            LLMStreamEvent::ToolCallDelta { index, id, name, arguments_delta } => {
                EventView::ToolCallDelta {
                    index: *index,
                    id: opt_text(*id),
                    name: opt_text(*name),
                    arguments_delta: arguments_delta@,
                }
            },
            LLMStreamEvent::ContentEnd { index } => EventView::ContentEnd { index: *index },
            LLMStreamEvent::Usage { usage } => EventView::Usage { usage: usage@ },
            LLMStreamEvent::MessageEnd { finish_reason, usage, metadata } => {
                EventView::MessageEnd {
                    finish_reason: *finish_reason,
                    usage: opt_usage(*usage),
                    metadata: metadata@,
                }
            },
            LLMStreamEvent::Error { message, metadata } => EventView::Error {
                message: message@,
                metadata: metadata@,
            },
            LLMStreamEvent::Raw { protocol, value } => EventView::Raw {
                protocol: *protocol,
                value: value@,
            },
        }
    }
}

impl Clone for LLMAnnotation {
    fn clone(&self) -> (r: LLMAnnotation)
        ensures
            r@ == self@,
    {
        LLMAnnotation {
            source: self.source,
            annotation_type: self.annotation_type.clone(),
            start_index: self.start_index,
            end_index: self.end_index,
            url: copy_text(&self.url),
            title: copy_text(&self.title),
            file_id: copy_text(&self.file_id),
            filename: copy_text(&self.filename),
            cited_text: copy_text(&self.cited_text),
            metadata: self.metadata.clone(),
        }
    }
}

/// A copy of an optional string.
pub fn copy_text(o: &Option<String>) -> (r: Option<String>)
    ensures
        opt_text(r) == opt_text(*o),
{
    match o {
        Some(s) => Some(s.clone()),
        None => None,
    }
}

/// A copy of citations.
pub fn copy_annotations(list: &Vec<LLMAnnotation>) -> (r: Vec<LLMAnnotation>)
    ensures
        views(r@) == views(list@),
{
    let mut out: Vec<LLMAnnotation> = Vec::new();
    let mut i: usize = 0;
    while i < list.len()
        invariant
            i <= list.len(),
            out.len() == i,
            forall|j: int| 0 <= j < i ==> #[trigger] out@[j]@ == list@[j]@,
        decreases list.len() - i,
    {
        out.push(list[i].clone());
        i = i + 1;
    }
    assert(views(out@) =~= views(list@));
    out
}

impl Clone for LLMUsage {
    fn clone(&self) -> (r: LLMUsage)
        ensures
            r@ == self@,
    {
        LLMUsage {
            source: self.source,
            input_tokens: self.input_tokens,
            output_tokens: self.output_tokens,
            total_tokens: self.total_tokens,
            cache_read_tokens: self.cache_read_tokens,
            cache_creation_tokens: self.cache_creation_tokens,
            reasoning_tokens: self.reasoning_tokens,
            input_audio_tokens: self.input_audio_tokens,
            output_audio_tokens: self.output_audio_tokens,
            accepted_prediction_tokens: self.accepted_prediction_tokens,
            rejected_prediction_tokens: self.rejected_prediction_tokens,
            extra: self.extra.clone(),
        }
    }
}

/// No consumption.
pub open spec fn no_usage() -> UsageView {
    UsageView {
        source: None,
        input_tokens: None,
        output_tokens: None,
        total_tokens: None,
        cache_read_tokens: None,
        cache_creation_tokens: None,
        reasoning_tokens: None,
        input_audio_tokens: None,
        output_audio_tokens: None,
        accepted_prediction_tokens: None,
        rejected_prediction_tokens: None,
        extra: no_fields(),
    }
}

impl Default for LLMUsage {
    fn default() -> (r: LLMUsage)
        ensures
            r@ == no_usage(),
    {
        LLMUsage {
            source: None,
            input_tokens: None,
            output_tokens: None,
            total_tokens: None,
            cache_read_tokens: None,
            cache_creation_tokens: None,
            reasoning_tokens: None,
            input_audio_tokens: None,
            output_audio_tokens: None,
            accepted_prediction_tokens: None,
            rejected_prediction_tokens: None,
            extra: JsonMap::new(),
        }
    }
}

/// A copy of an optional consumption.
pub fn copy_usage(o: &Option<LLMUsage>) -> (r: Option<LLMUsage>)
    ensures
        opt_usage(r) == opt_usage(*o),
{
    match o {
        Some(u) => Some(u.clone()),
        None => None,
    }
}

impl Clone for LLMMediaSource {
    fn clone(&self) -> (r: LLMMediaSource)
        ensures
            r@ == self@,
    {
        match self {
            LLMMediaSource::Url { url } => LLMMediaSource::Url { url: url.clone() },
            LLMMediaSource::Data { data, media_type } => LLMMediaSource::Data {
                data: data.clone(),
                media_type: copy_text(media_type),
            },
            LLMMediaSource::FileId { file_id } => LLMMediaSource::FileId {
                file_id: file_id.clone(),
            },
            LLMMediaSource::Raw { value } => LLMMediaSource::Raw { value: value.clone() },
        }
    }
}

impl Clone for LLMTool {
    fn clone(&self) -> (r: LLMTool)
        ensures
            r@ == self@,
    {
        let kind = match &self.kind {
            LLMToolKind::Function { name, description, parameters, strict } => {
                LLMToolKind::Function {
                    name: name.clone(),
                    description: copy_text(description),
                    parameters: parameters.clone(),
                    strict: *strict,
                }
            },
            LLMToolKind::Builtin { protocol, name, config } => LLMToolKind::Builtin {
                protocol: *protocol,
                name: name.clone(),
                config: config.clone(),
            },
        };
        LLMTool { source: self.source, kind, metadata: self.metadata.clone() }
    }
}

impl Clone for LLMContent {
    fn clone(&self) -> (r: LLMContent)
        ensures
            r@ == self@,
        decreases self,
    {
        let kind = match &self.kind {
            LLMContentKind::Text { text, annotations } => LLMContentKind::Text {
                text: text.clone(),
                annotations: copy_annotations(annotations),
            },
            LLMContentKind::Image { source, detail } => LLMContentKind::Image {
                source: source.clone(),
                detail: copy_text(detail),
            },
            LLMContentKind::Audio { source, format } => LLMContentKind::Audio {
                source: source.clone(),
                format: copy_text(format),
            },
            LLMContentKind::File { source, filename, media_type } => LLMContentKind::File {
                source: source.clone(),
                filename: copy_text(filename),
                media_type: copy_text(media_type),
            },
            LLMContentKind::ToolCall { id, name, arguments } => LLMContentKind::ToolCall {
                id: copy_text(id),
                name: name.clone(),
                arguments: arguments.clone(),
            },
            LLMContentKind::ToolResult { tool_call_id, content, is_error } => {
                let mut out: Vec<LLMContent> = Vec::new();
                let mut i: usize = 0;
                while i < content.len()
                    invariant
                        i <= content@.len(),
                        decreases_to!(self => content@),
                        out@.len() == i,
                        forall|j: int|
                            0 <= j < i ==> content_view(#[trigger] out@[j]) == content_view(
                                content@[j],
                            ),
                    decreases content@.len() - i,
                {
                    assert(decreases_to!(content@ => content@[i as int]));
                    out.push(content[i].clone());
                    i = i + 1;
                }
                assert(content_views(out@) =~= content_views(content@));
                LLMContentKind::ToolResult {
                    tool_call_id: tool_call_id.clone(),
                    content: out,
                    is_error: *is_error,
                }
            },
            LLMContentKind::Reasoning { text, summary, signature, encrypted_content } => {
                LLMContentKind::Reasoning {
                    text: copy_text(text),
                    summary: copy_strings(summary),
                    signature: copy_text(signature),
                    encrypted_content: copy_text(encrypted_content),
                }
            },
            LLMContentKind::Refusal { refusal } => LLMContentKind::Refusal {
                refusal: refusal.clone(),
            },
            LLMContentKind::Raw { protocol, value } => LLMContentKind::Raw {
                protocol: *protocol,
                value: value.clone(),
            },
        };
        LLMContent { source: self.source, kind, metadata: self.metadata.clone() }
    }
}

/// A copy of parts.
pub fn copy_contents(list: &Vec<LLMContent>) -> (r: Vec<LLMContent>)
    ensures
        content_views(r@) == content_views(list@),
{
    let mut out: Vec<LLMContent> = Vec::new();
    let mut i: usize = 0;
    while i < list.len()
        invariant
            i <= list.len(),
            out.len() == i,
            forall|j: int| 0 <= j < i ==> content_view(#[trigger] out@[j]) == content_view(list@[j]),
        decreases list.len() - i,
    {
        out.push(list[i].clone());
        i = i + 1;
    }
    assert(content_views(out@) =~= content_views(list@));
    out
}

/// The text of a part that is one.
pub open spec fn text_of(c: ContentView) -> Option<Seq<char>> {
    match c.kind {
        KindView::Text { text, .. } => Some(text),
        _ => None,
    }
}

/// The texts of the parts that are texts, one after the other.
pub open spec fn texts_joined(s: Seq<ContentView>) -> Seq<char>
    decreases s.len(),
{
    if s.len() == 0 {
        Seq::empty()
    } else {
        match text_of(s.last()) {
            Some(text) => texts_joined(s.drop_last()) + text,
            None => texts_joined(s.drop_last()),
        }
    }
}

impl LLMContent {
    /// A text of no protocol.
    pub fn text(text: &str) -> (r: LLMContent)
        ensures
            r@ == text_part(text@),
    {
        let r = LLMContent {
            source: None,
            kind: LLMContentKind::Text { text: text.to_owned(), annotations: Vec::new() },
            metadata: JsonMap::new(),
        };
        assert(r@.kind->annotations =~= Seq::empty());
        r
    }

    /// The text of a part that is one.
    pub fn text_value(&self) -> (r: Option<&str>)
        ensures
            opt_str(r) == text_of(self@),
    {
        match &self.kind {
            LLMContentKind::Text { text, .. } => Some(text.as_str()),
            _ => None,
        }
    }
}

impl LLMResponse {
    /// The first answer.
    pub fn primary_choice(&self) -> (r: Option<&LLMChoice>)
        ensures
            match r {
                Some(choice) => self@.choices.len() > 0 && choice@ == self@.choices[0],
                None => self@.choices.len() == 0,
            },
    {
        if self.choices.len() > 0 {
            Some(&self.choices[0])
        } else {
            None
        }
    }
}

/// One part that is a text.
pub fn text_content(value: &str) -> (r: Vec<LLMContent>)
    ensures
        content_views(r@) == seq![text_part(value@)],
{
    let mut out: Vec<LLMContent> = Vec::new();
    out.push(LLMContent::text(value));
    assert(content_views(out@) =~= seq![text_part(value@)]);
    out
}

/// The texts of the parts that are texts, one after the other.
pub fn joined_text(content: &[LLMContent]) -> (r: String)
    ensures
        r@ == texts_joined(content_views(content@)),
{
    let mut out = String::new();
    let ghost all = content_views(content@);
    let mut i: usize = 0;
    assert(all.take(0) =~= Seq::empty());
    while i < content.len()
        invariant
            all == content_views(content@),
            i <= content@.len(),
            out@ == texts_joined(all.take(i as int)),
        decreases content@.len() - i,
    {
        assert(all.take(i + 1).drop_last() =~= all.take(i as int));
        assert(all.take(i + 1).last() == content@[i as int]@);
        if let Some(text) = content[i].text_value() {
            out.push_str(text);
        }
        i = i + 1;
    }
    assert(all.take(i as int) =~= all);
    out
}

/// `content_views` gives what each part stands for.
pub broadcast proof fn content_views_are_views(s: Seq<LLMContent>)
    ensures
        #[trigger] content_views(s) == views(s),
{
    assert(content_views(s) =~= views(s));
}

} // verus!
