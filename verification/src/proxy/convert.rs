//! Requests and responses, from the format of one side to that of the other.

use super::reply::{failure, Failure, FailureView};
use crate::adapters::anthropic::{
    anthropic_request_of, anthropic_request_value, anthropic_response_of, anthropic_response_value,
};
use crate::adapters::error::{error_message, AdapterError, ErrorView};
use crate::adapters::fresh::{
    draw_for_request, draw_for_response, drawn_for_request, drawn_for_response, now, opt_ids,
    FreshIds, IdsView,
};
use crate::adapters::openai_chat::{
    chat_request_of, chat_request_value, chat_response_of, chat_response_value,
};
use crate::adapters::openai_responses::{
    responses_request_of, responses_request_value, responses_response_of, responses_response_value,
};
use crate::adapters::{anthropic, openai_chat, openai_responses};
use crate::json::{Json, JsonView};
use crate::model::{LLMRequest, LLMResponse, RequestView, ResponseView};
use crate::protocol::{InputFormat, UpstreamFormat};
use crate::seqs::outcome;
use crate::wire::{bytes_value, parse_bytes, parsed, render_bytes, value_text};
use vstd::prelude::*;
use vstd::utf8::encode_utf8;

verus! {

/// The request of a client that a value is.
pub open spec fn client_request_of(input: InputFormat, value: JsonView) -> Result<
    RequestView,
    ErrorView,
>
    recommends
        input != InputFormat::Models,
{
    match input {
        InputFormat::OpenAiChat => chat_request_of(value),
        InputFormat::OpenAiResponses => responses_request_of(value),
        _ => anthropic_request_of(value),
    }
}

/// The value of a request to a provider.
pub open spec fn upstream_request_value(
    upstream: UpstreamFormat,
    request: RequestView,
    ids: IdsView,
) -> Result<JsonView, ErrorView> {
    match upstream {
        UpstreamFormat::OpenAiChat => chat_request_value(request, ids),
        UpstreamFormat::OpenAiResponses => responses_request_value(request, ids),
        UpstreamFormat::AnthropicMessages => anthropic_request_value(request, ids),
    }
}

/// The response of a provider that a value is.
pub open spec fn upstream_response_of(upstream: UpstreamFormat, value: JsonView) -> Result<
    ResponseView,
    ErrorView,
> {
    match upstream {
        UpstreamFormat::OpenAiChat => chat_response_of(value),
        UpstreamFormat::OpenAiResponses => responses_response_of(value),
        UpstreamFormat::AnthropicMessages => Ok(anthropic_response_of(value)),
    }
}

/// The value of a response to a client.
pub open spec fn client_response_value(
    input: InputFormat,
    response: ResponseView,
    ids: IdsView,
    created: i64,
) -> Result<JsonView, ErrorView>
    recommends
        input != InputFormat::Models,
{
    match input {
        InputFormat::OpenAiChat => chat_response_value(response, ids, created),
        InputFormat::OpenAiResponses => responses_response_value(response, ids, created),
        _ => anthropic_response_value(response, ids),
    }
}

/// The request of a client that a value is.
pub fn input_to_llm(input: InputFormat, value: &Json) -> (r: Result<LLMRequest, AdapterError>)
    requires
        input != InputFormat::Models,
    ensures
        outcome(r) == client_request_of(input, value@),
{
    match input {
        InputFormat::OpenAiChat => openai_chat::read_request(value),
        InputFormat::OpenAiResponses => openai_responses::read_request(value),
        _ => anthropic::read_request(value),
    }
}

/// The value of a request to a provider, with the given identifiers.
pub fn llm_to_upstream(
    upstream: UpstreamFormat,
    request: &LLMRequest,
    ids: Option<&FreshIds>,
) -> (r: Result<Json, AdapterError>)
    ensures
        outcome(r) == upstream_request_value(upstream, request@, opt_ids(ids)),
{
    match upstream {
        UpstreamFormat::OpenAiChat => openai_chat::write_request(request, ids),
        UpstreamFormat::OpenAiResponses => openai_responses::write_request(request, ids),
        UpstreamFormat::AnthropicMessages => anthropic::write_request(request, ids),
    }
}

/// The response of a provider that a value is.
pub fn upstream_to_llm(upstream: UpstreamFormat, value: &Json) -> (r: Result<
    LLMResponse,
    AdapterError,
>)
    ensures
        outcome(r) == upstream_response_of(upstream, value@),
{
    match upstream {
        UpstreamFormat::OpenAiChat => openai_chat::read_response(value),
        UpstreamFormat::OpenAiResponses => openai_responses::read_response(value),
        UpstreamFormat::AnthropicMessages => Ok(anthropic::read_response(value)),
    }
}

/// The value of a response to a client, with the given identifiers and time of creation.
pub fn llm_to_input(
    input: InputFormat,
    response: &LLMResponse,
    ids: Option<&FreshIds>,
    created: i64,
) -> (r: Result<Json, AdapterError>)
    requires
        input != InputFormat::Models,
    ensures
        outcome(r) == client_response_value(input, response@, opt_ids(ids), created),
{
    match input {
        InputFormat::OpenAiChat => openai_chat::write_response(response, ids, created),
        InputFormat::OpenAiResponses => openai_responses::write_response(response, ids, created),
        _ => anthropic::write_response(response, ids),
    }
}

/// Why a conversion gives no body.
#[derive(Debug, PartialEq)]
pub enum ConvertError {
    /// The client is told why.
    Failed(Failure),
    /// A field would have to be set on a value that is neither an object nor null.
    NotAnObject,
}

/// What an error stands for.
#[verifier::ext_equal]
pub enum ConvertErrorView {
    Failed(FailureView),
    NotAnObject,
}

impl View for ConvertError {
    type V = ConvertErrorView;

    open spec fn view(&self) -> ConvertErrorView {
        match self {
            ConvertError::Failed(f) => ConvertErrorView::Failed(f@),
            ConvertError::NotAnObject => ConvertErrorView::NotAnObject,
        }
    }
}

/// A body or an error, by what it stands for.
pub open spec fn converted(r: Result<Vec<u8>, ConvertError>) -> Result<Seq<u8>, ConvertErrorView> {
    match r {
        Ok(bytes) => Ok(bytes@),
        Err(e) => Err(e@),
    }
}

/// A request, a response or an error, by what it stands for.
pub open spec fn read_outcome<T: View>(r: Result<T, ConvertError>) -> Result<
    T::V,
    ConvertErrorView,
> {
    match r {
        Ok(v) => Ok(v@),
        Err(e) => Err(e@),
    }
}

/// A failure with the words of an error of a conversion.
pub open spec fn failed(status: u16, e: ErrorView, error_type: Seq<char>) -> ConvertErrorView {
    if e == ErrorView::NotAnObject {
        ConvertErrorView::NotAnObject
    } else {
        ConvertErrorView::Failed(FailureView { status, message: error_message(e), error_type })
    }
}

fn fail(status: u16, e: &AdapterError, error_type: &str) -> (r: ConvertError)
    ensures
        r@ == failed(status, e@, error_type@),
{
    match e {
        AdapterError::NotAnObject => ConvertError::NotAnObject,
        _ => ConvertError::Failed(failure(status, e.message().as_str(), error_type)),
    }
}

/// The request that is read from a client's body: where there is none, the client is to blame.
pub open spec fn client_value_read(
    input: InputFormat,
    value: Result<JsonView, Seq<char>>,
) -> Result<RequestView, ConvertErrorView> {
    match value {
        Err(message) => Err(
            ConvertErrorView::Failed(
                FailureView { status: 400, message, error_type: "invalid_request_error"@ },
            ),
        ),
        Ok(value) => match client_request_of(input, value) {
            Err(e) => Err(failed(400, e, "invalid_request_error"@)),
            Ok(request) => Ok(request),
        },
    }
}

/// The request that a client's body is.
pub open spec fn client_body_read(input: InputFormat, body: Seq<u8>) -> Result<
    RequestView,
    ConvertErrorView,
> {
    client_value_read(input, bytes_value(body))
}

/// The body of a request to a provider. Where the provider's format has no form for what the
/// client asks, the client is to blame; else the proxy is.
pub open spec fn upstream_body_written(
    upstream: UpstreamFormat,
    request: RequestView,
    ids: IdsView,
) -> Result<Seq<u8>, ConvertErrorView> {
    match upstream_request_value(upstream, request, ids) {
        Ok(value) => Ok(encode_utf8(value_text(value))),
        Err(ErrorView::Unsupported(what)) => Err(
            failed(400, ErrorView::Unsupported(what), "invalid_request_error"@),
        ),
        Err(e) => Err(failed(502, e, "api_error"@)),
    }
}

/// The request that is read from a client's body.
pub fn read_client_value(input: InputFormat, value: Result<Json, String>) -> (r: Result<
    LLMRequest,
    ConvertError,
>)
    requires
        input != InputFormat::Models,
    ensures
        read_outcome(r) == client_value_read(input, parsed(value)),
{
    let value = match value {
        Ok(value) => value,
        Err(message) => {
            return Err(
                ConvertError::Failed(failure(400, message.as_str(), "invalid_request_error")),
            );
        },
    };
    match input_to_llm(input, &value) {
        Ok(request) => Ok(request),
        Err(e) => Err(fail(400, &e, "invalid_request_error")),
    }
}

/// The request that a client's body is.
pub fn read_client_body(input: InputFormat, body: &[u8]) -> (r: Result<LLMRequest, ConvertError>)
    requires
        input != InputFormat::Models,
    ensures
        read_outcome(r) == client_body_read(input, body@),
{
    read_client_value(input, parse_bytes(body))
}

/// The body of a request to a provider, with the given identifiers.
pub fn write_upstream_body(
    upstream: UpstreamFormat,
    request: &LLMRequest,
    ids: Option<&FreshIds>,
) -> (r: Result<Vec<u8>, ConvertError>)
    ensures
        converted(r) == upstream_body_written(upstream, request@, opt_ids(ids)),
{
    match llm_to_upstream(upstream, request, ids) {
        Ok(value) => Ok(render_bytes(&value)),
        Err(AdapterError::Unsupported(what)) => Err(
            fail(400, &AdapterError::Unsupported(what), "invalid_request_error"),
        ),
        Err(e) => Err(fail(502, &e, "api_error")),
    }
}

/// The body of a request to a provider, from that of a client.
pub open spec fn request_converted(
    input: InputFormat,
    upstream: UpstreamFormat,
    body: Seq<u8>,
    ids: IdsView,
) -> Result<Seq<u8>, ConvertErrorView> {
    match client_body_read(input, body) {
        Err(e) => Err(e),
        Ok(request) => upstream_body_written(upstream, request, ids),
    }
}

/// Whether identifiers have been drawn for the request that a client's body is.
pub open spec fn drawn_for_client_body(input: InputFormat, body: Seq<u8>, ids: IdsView) -> bool {
    client_body_read(input, body) matches Ok(request) ==> drawn_for_request(request, ids)
}

/// The body of a request to a provider, from that of a client, with fresh identifiers where it
/// names none.
pub fn convert_request(input: InputFormat, upstream: UpstreamFormat, body: &[u8]) -> (r: Result<
    Vec<u8>,
    ConvertError,
>)
    requires
        input != InputFormat::Models,
    ensures
        exists|ids: IdsView| #[trigger]
            drawn_for_client_body(input, body@, ids) && converted(r) == request_converted(
                input,
                upstream,
                body@,
                ids,
            ),
{
    match read_client_body(input, body) {
        Ok(request) => {
            let ids = draw_for_request(&request);
            let r = write_upstream_body(upstream, &request, Some(&ids));
            assert(drawn_for_client_body(input, body@, ids@));
            r
        },
        Err(e) => {
            assert(drawn_for_client_body(input, body@, crate::adapters::fresh::no_ids()));
            Err(e)
        },
    }
}

/// The response that is read from a provider's body: where there is none, the provider is to blame.
pub open spec fn upstream_value_read(
    upstream: UpstreamFormat,
    value: Result<JsonView, Seq<char>>,
) -> Result<ResponseView, ConvertErrorView> {
    match value {
        Err(message) => Err(
            ConvertErrorView::Failed(
                FailureView { status: 502, message, error_type: "api_error"@ },
            ),
        ),
        Ok(value) => match upstream_response_of(upstream, value) {
            Err(e) => Err(failed(502, e, "api_error"@)),
            Ok(response) => Ok(response),
        },
    }
}

/// The response that a provider's body is.
pub open spec fn upstream_body_read(upstream: UpstreamFormat, body: Seq<u8>) -> Result<
    ResponseView,
    ConvertErrorView,
> {
    upstream_value_read(upstream, bytes_value(body))
}

/// The body of a response to a client.
pub open spec fn client_body_written(
    input: InputFormat,
    response: ResponseView,
    ids: IdsView,
    created: i64,
) -> Result<Seq<u8>, ConvertErrorView> {
    match client_response_value(input, response, ids, created) {
        Ok(value) => Ok(encode_utf8(value_text(value))),
        Err(e) => Err(failed(502, e, "api_error"@)),
    }
}

/// The response that is read from a provider's body.
pub fn read_upstream_value(upstream: UpstreamFormat, value: Result<Json, String>) -> (r: Result<
    LLMResponse,
    ConvertError,
>)
    ensures
        read_outcome(r) == upstream_value_read(upstream, parsed(value)),
{
    let value = match value {
        Ok(value) => value,
        Err(message) => {
            return Err(ConvertError::Failed(failure(502, message.as_str(), "api_error")));
        },
    };
    match upstream_to_llm(upstream, &value) {
        Ok(response) => Ok(response),
        Err(e) => Err(fail(502, &e, "api_error")),
    }
}

/// The response that a provider's body is.
pub fn read_upstream_body(upstream: UpstreamFormat, body: &[u8]) -> (r: Result<
    LLMResponse,
    ConvertError,
>)
    ensures
        read_outcome(r) == upstream_body_read(upstream, body@),
{
    read_upstream_value(upstream, parse_bytes(body))
}

/// The body of a response to a client, with the given identifiers and time of creation.
pub fn write_client_body(
    input: InputFormat,
    response: &LLMResponse,
    ids: Option<&FreshIds>,
    created: i64,
) -> (r: Result<Vec<u8>, ConvertError>)
    requires
        input != InputFormat::Models,
    ensures
        converted(r) == client_body_written(input, response@, opt_ids(ids), created),
{
    match llm_to_input(input, response, ids, created) {
        Ok(value) => Ok(render_bytes(&value)),
        Err(e) => Err(fail(502, &e, "api_error")),
    }
}

/// The body of a response to a client, from that of a provider.
pub open spec fn response_converted(
    input: InputFormat,
    upstream: UpstreamFormat,
    body: Seq<u8>,
    ids: IdsView,
    created: i64,
) -> Result<Seq<u8>, ConvertErrorView> {
    match upstream_body_read(upstream, body) {
        Err(e) => Err(e),
        Ok(response) => client_body_written(input, response, ids, created),
    }
}

/// Whether identifiers have been drawn for the response that a provider's body is.
pub open spec fn drawn_for_upstream_body(upstream: UpstreamFormat, body: Seq<u8>, ids: IdsView)
    -> bool {
    upstream_body_read(upstream, body) matches Ok(response) ==> drawn_for_response(response, ids)
}

/// The body of a response to a client, from that of a provider, with fresh identifiers where it
/// names none, and the present time.
pub fn convert_response(input: InputFormat, upstream: UpstreamFormat, body: &[u8]) -> (r: Result<
    Vec<u8>,
    ConvertError,
>)
    requires
        input != InputFormat::Models,
    ensures
        exists|ids: IdsView, created: i64|
            drawn_for_upstream_body(upstream, body@, ids) && converted(r)
                == #[trigger] response_converted(input, upstream, body@, ids, created),
{
    match read_upstream_body(upstream, body) {
        Ok(response) => {
            let ids = draw_for_response(&response);
            let created = now();
            let r = write_client_body(input, &response, Some(&ids), created);
            assert(converted(r) == response_converted(input, upstream, body@, ids@, created));
            r
        },
        Err(e) => {
            let r: Result<Vec<u8>, ConvertError> = Err(e);
            assert(converted(r) == response_converted(
                input,
                upstream,
                body@,
                crate::adapters::fresh::no_ids(),
                0,
            ));
            r
        },
    }
}

} // verus!
