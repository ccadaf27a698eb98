//! Replies of the proxy itself: errors in the format of the client.

use crate::adapters::common::{json1, json2, object1, object2};
use crate::json::{jtext, Json, JsonMap, JsonView};
use crate::model::no_fields;
use crate::models::{client_models, for_client};
use crate::protocol::InputFormat;
use crate::text::{cat3, decimal, decimal_text, or_text, utf8_text};
use crate::wire::{bytes_value, parse_bytes, parsed, render_bytes, value_text};
use vstd::prelude::*;
use vstd::utf8::{decode_utf8, encode_utf8, encode_utf8_decode_utf8, valid_utf8};

verus! {

/// The largest number of bytes of a body that is converted.
pub const MAX_JSON_BODY_BYTES: usize = 67_108_864;

/// The largest number of bytes of the body of an error.
pub const MAX_ERROR_BODY_BYTES: usize = 1_048_576;

/// Why a request cannot be answered.
#[derive(Debug, PartialEq)]
pub struct Failure {
    pub status: u16,
    pub message: String,
    pub error_type: String,
}

/// What a failure stands for.
#[verifier::ext_equal]
pub struct FailureView {
    pub status: u16,
    pub message: Seq<char>,
    pub error_type: Seq<char>,
}

impl View for Failure {
    type V = FailureView;

    open spec fn view(&self) -> FailureView {
        FailureView {
            status: self.status,
            message: self.message@,
            error_type: self.error_type@,
        }
    }
}

/// A failure of the given kind.
pub(crate) fn failure(status: u16, message: &str, error_type: &str) -> (r: Failure)
    ensures
        r@ == (FailureView { status, message: message@, error_type: error_type@ }),
{
    Failure { status, message: message.to_owned(), error_type: error_type.to_owned() }
}

/// Why a client whose request could not be read gets no answer.
pub fn request_unread(message: &str) -> (r: Failure)
    ensures
        r@ == (FailureView {
            status: 400,
            message: message@,
            error_type: "invalid_request_error"@,
        }),
{
    failure(400, message, "invalid_request_error")
}

/// Why a client gets no answer where the provider could not be asked or its answer not be read.
pub fn upstream_unread(message: &str) -> (r: Failure)
    ensures
        r@ == (FailureView { status: 502, message: message@, error_type: "api_error"@ }),
{
    failure(502, message, "api_error")
}

/// What a client is told of a provider's error whose body could not be read.
pub fn upstream_error_unread(status: u16, message: &str) -> (r: Failure)
    ensures
        r@ == (FailureView { status, message: message@, error_type: "api_error"@ }),
{
    failure(status, message, "api_error")
}

/// The value of an error in the format of the client.
pub open spec fn error_value(input: InputFormat, message: Seq<char>, error_type: Seq<char>)
    -> JsonView {
    match input {
        InputFormat::AnthropicMessages => object2(
            "type"@,
            jtext("error"@),
            "error"@,
            object2("type"@, jtext(error_type), "message"@, jtext(message)),
        ),
        _ => object1(
            "error"@,
            JsonView::Object(
                no_fields().insert("message"@, jtext(message)).insert(
                    "type"@,
                    jtext(error_type),
                ).insert("param"@, JsonView::Null).insert("code"@, JsonView::Null),
            ),
        ),
    }
}

/// The value of an error in the format of the client.
pub fn protocol_error(input: InputFormat, message: &str, error_type: &str) -> (r: Json)
    ensures
        r@ == error_value(input, message@, error_type@),
{
    match input {
        InputFormat::AnthropicMessages => json2(
            "type",
            Json::text("error"),
            "error",
            json2("type", Json::text(error_type), "message", Json::text(message)),
        ),
        _ => {
            let mut error = JsonMap::new();
            error.put_text("message", message);
            error.put_text("type", error_type);
            error.put("param", Json::null());
            error.put("code", Json::null());
            json1("error", Json::object(error))
        },
    }
}

/// The body of an error in the format of the client.
pub fn protocol_error_body(input: InputFormat, failure: &Failure) -> (r: Vec<u8>)
    ensures
        r@ == encode_utf8(value_text(error_value(input, failure@.message, failure@.error_type))),
{
    render_bytes(
        &protocol_error(input, failure.message.as_str(), failure.error_type.as_str()),
    )
}

/// The text of bytes, where they are UTF-8.
pub open spec fn bytes_text(bytes: Seq<u8>) -> Option<Seq<char>> {
    if valid_utf8(bytes) {
        Some(decode_utf8(bytes))
    } else {
        None
    }
}

/// What the body of a provider's error says: its message and its type.
pub open spec fn failure_of(
    status: u16,
    parsed: Result<JsonView, Seq<char>>,
    body: Seq<u8>,
) -> FailureView {
    let value = match parsed {
        Ok(value) => value,
        Err(_) => JsonView::Null,
    };
    let error = value.at("error"@);
    FailureView {
        status,
        message: match error.at("message"@).text() {
            Some(message) => message,
            None => match value.at("message"@).text() {
                Some(message) => message,
                None => or_text(bytes_text(body), "upstream request failed"@),
            },
        },
        error_type: or_text(error.at("type"@).text(), "api_error"@),
    }
}

/// What the body of a provider's error says.
pub open spec fn upstream_failure(status: u16, body: Seq<u8>) -> FailureView {
    failure_of(status, bytes_value(body), body)
}

fn body_text(body: &[u8]) -> (r: String)
    ensures
        r@ == or_text(bytes_text(body@), "upstream request failed"@),
{
    let mut bytes: Vec<u8> = Vec::new();
    bytes.extend_from_slice(body);
    assert(bytes@ =~= body@);
    match utf8_text(bytes) {
        Some(text) => {
            proof {
                encode_utf8_decode_utf8(text@);
            }
            text
        },
        None => "upstream request failed".to_owned(),
    }
}

/// What the body of a provider's error says, by the value that it is, where it is one.
pub fn failure_told(status: u16, value: Result<Json, String>, body: &[u8]) -> (r: Failure)
    ensures
        r@ == failure_of(status, parsed(value), body@),
{
    let value = match value {
        Ok(value) => value,
        Err(_) => Json::null(),
    };
    let error = value.at("error");
    let message = match error.text_at("message") {
        Some(message) => message.to_owned(),
        None => match value.text_at("message") {
            Some(message) => message.to_owned(),
            None => body_text(body),
        },
    };
    let error_type = error.text_at("type").unwrap_or("api_error").to_owned();
    Failure { status, message, error_type }
}

/// What the body of a provider's error says.
pub fn read_upstream_error(status: u16, body: &[u8]) -> (r: Failure)
    ensures
        r@ == upstream_failure(status, body@),
{
    failure_told(status, parse_bytes(body), body)
}

/// The words for a body that is too large.
pub open spec fn too_large(limit: usize) -> Seq<char> {
    "upstream response body exceeds "@ + decimal_text(limit as nat) + " bytes"@
}

fn too_large_text(limit: usize) -> (r: String)
    ensures
        r@ == too_large(limit),
{
    cat3("upstream response body exceeds ", decimal(limit as u64).as_str(), " bytes")
}

/// Whether a body of an announced length may be read.
pub fn check_announced_length(length: Option<u64>, limit: usize) -> (r: Result<(), String>)
    ensures
        match r {
            Ok(_) => length matches Some(n) ==> n <= limit,
            Err(e) => (length matches Some(n) && n > limit) && e@ == too_large(limit),
        },
{
    if let Some(n) = length {
        if n > limit as u64 {
            return Err(too_large_text(limit));
        }
    }
    Ok(())
}

/// Adds a piece to a body that is read, unless it would be too large.
pub fn extend_body(body: &mut Vec<u8>, chunk: &[u8], limit: usize) -> (r: Result<(), String>)
    ensures
        match r {
            Ok(_) => final(body)@ == old(body)@ + chunk@ && final(body)@.len() <= limit,
            Err(e) => old(body)@.len() + chunk@.len() > limit && final(body)@ == old(body)@ && e@
                == too_large(limit),
        },
{
    if body.len() > limit || chunk.len() > limit - body.len() {
        return Err(too_large_text(limit));
    }
    body.extend_from_slice(chunk);
    Ok(())
}

/// What a client is answered that asks for models.
#[derive(Debug, PartialEq)]
pub enum ModelsAnswer {
    /// The list is sent on as it is.
    Native,
    /// The list has another form.
    Converted(Vec<u8>),
    /// The client is told why there is no list.
    Fail(Failure),
}

/// What an answer stands for.
#[verifier::ext_equal]
pub enum ModelsAnswerView {
    Native,
    Converted(Seq<u8>),
    Fail(FailureView),
}

impl View for ModelsAnswer {
    type V = ModelsAnswerView;

    open spec fn view(&self) -> ModelsAnswerView {
        match self {
            ModelsAnswer::Native => ModelsAnswerView::Native,
            ModelsAnswer::Converted(body) => ModelsAnswerView::Converted(body@),
            ModelsAnswer::Fail(f) => ModelsAnswerView::Fail(f@),
        }
    }
}

/// Whether a list of models has the form of the client and no other.
pub open spec fn native_models(value: JsonView, codex: bool) -> bool {
    if codex {
        value.at("models"@).items() is Some && value.field("data"@) is None
    } else {
        value.at("data"@).items() is Some && value.field("models"@) is None
    }
}

/// What a client is answered that asks for models, by what the provider's answer reads as.
pub open spec fn models_told(value: Result<JsonView, Seq<char>>, codex: bool) -> ModelsAnswerView {
    match value {
        Err(message) => ModelsAnswerView::Fail(
            FailureView { status: 502, message, error_type: "api_error"@ },
        ),
        Ok(value) => if native_models(value, codex) {
            ModelsAnswerView::Native
        } else {
            match client_models(value, codex) {
                Err(message) => ModelsAnswerView::Fail(
                    FailureView { status: 502, message, error_type: "api_error"@ },
                ),
                Ok(list) => ModelsAnswerView::Converted(encode_utf8(value_text(list))),
            }
        },
    }
}

/// What a client is answered that asks for models, by the body of the provider's answer.
pub open spec fn models_answered(body: Seq<u8>, codex: bool) -> ModelsAnswerView {
    models_told(bytes_value(body), codex)
}

/// What a client is answered that asks for models, by what the provider's answer reads as.
pub fn tell_models(value: Result<Json, String>, codex: bool) -> (r: ModelsAnswer)
    ensures
        r@ == models_told(parsed(value), codex),
{
    let value = match value {
        Ok(value) => value,
        Err(message) => {
            return ModelsAnswer::Fail(failure(502, message.as_str(), "api_error"));
        },
    };
    let (wanted, other) = if codex {
        ("models", "data")
    } else {
        ("data", "models")
    };
    if value.array_at(wanted).is_some() && value.get(other).is_none() {
        return ModelsAnswer::Native;
    }
    match for_client(value, codex) {
        Ok(list) => ModelsAnswer::Converted(render_bytes(&list)),
        Err(message) => ModelsAnswer::Fail(failure(502, message, "api_error")),
    }
}

/// What a client is answered that asks for models.
pub fn models_answer(body: &[u8], codex: bool) -> (r: ModelsAnswer)
    ensures
        r@ == models_answered(body@, codex),
{
    tell_models(parse_bytes(body), codex)
}

/// A list that is sent on as it is has the form that a conversion would give it.
pub proof fn native_models_unchanged(value: JsonView, codex: bool)
    requires
        native_models(value, codex),
    ensures
        client_models(value, codex) == Ok::<JsonView, Seq<char>>(value),
{
    let other = if codex {
        "data"@
    } else {
        "models"@
    };
    assert(value is Object);
    assert(value->Object_0.remove(other) =~= value->Object_0);
}

} // verus!
