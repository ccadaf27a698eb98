//! Why a conversion fails.

use crate::text::cat;
use vstd::prelude::*;

verus! {

/// The largest number of bytes that an unfinished event of a stream may hold.
pub const MAX_SSE_EVENT_BYTES: usize = 8_388_608;

/// Why a conversion fails.
#[derive(Debug, PartialEq)]
pub enum AdapterError {
    /// A field that has to be there is not, or is of another type.
    MissingField(&'static str),
    /// A field holds what it may not hold.
    InvalidField(&'static str),
    /// The target format has no form for what is there.
    Unsupported(String),
    /// An event of a stream is no UTF-8.
    InvalidStreamUtf8,
    /// An unfinished event of a stream is too large.
    StreamEventTooLarge,
    /// A field would have to be set on a value that is neither an object nor null.
    NotAnObject,
}

/// What an error stands for.
#[verifier::ext_equal]
pub enum ErrorView {
    MissingField(Seq<char>),
    InvalidField(Seq<char>),
    Unsupported(Seq<char>),
    InvalidStreamUtf8,
    StreamEventTooLarge,
    NotAnObject,
}

impl View for AdapterError {
    type V = ErrorView;

    open spec fn view(&self) -> ErrorView {
        match self {
            AdapterError::MissingField(name) => ErrorView::MissingField(name@),
            AdapterError::InvalidField(name) => ErrorView::InvalidField(name@),
            AdapterError::Unsupported(what) => ErrorView::Unsupported(what@),
            AdapterError::InvalidStreamUtf8 => ErrorView::InvalidStreamUtf8,
            AdapterError::StreamEventTooLarge => ErrorView::StreamEventTooLarge,
            AdapterError::NotAnObject => ErrorView::NotAnObject,
        }
    }
}

/// The message of an error.
pub open spec fn error_message(e: ErrorView) -> Seq<char> {
    match e {
        ErrorView::MissingField(name) => "missing field: "@ + name,
        ErrorView::InvalidField(name) => "invalid field: "@ + name,
        ErrorView::Unsupported(what) => "unsupported protocol feature: "@ + what,
        ErrorView::InvalidStreamUtf8 => "invalid stream utf-8"@,
        ErrorView::StreamEventTooLarge => "stream event exceeds 8388608 bytes"@,
        ErrorView::NotAnObject => "cannot set a field of a value that is no object"@,
    }
}

impl AdapterError {
    /// The message of the error.
    pub fn message(&self) -> (r: String)
        ensures
            r@ == error_message(self@),
    {
        match self {
            AdapterError::MissingField(name) => cat("missing field: ", name),
            AdapterError::InvalidField(name) => cat("invalid field: ", name),
            AdapterError::Unsupported(what) => cat("unsupported protocol feature: ", what.as_str()),
            AdapterError::InvalidStreamUtf8 => "invalid stream utf-8".to_owned(),
            AdapterError::StreamEventTooLarge => "stream event exceeds 8388608 bytes".to_owned(),
            AdapterError::NotAnObject => {
                "cannot set a field of a value that is no object".to_owned()
            },
        }
    }
}

} // verus!
