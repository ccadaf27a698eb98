//! Adapters between the wire formats and the neutral form.

pub mod acceptance_laws;
pub mod annotations;
pub mod answer_laws;
pub mod anthropic;
pub mod anthropic_stream;
pub mod block_laws;
pub mod chat_read_laws;
pub mod chat_stream;
pub mod citation_laws;
pub mod common;
pub mod detail_laws;
pub mod error;
pub mod event_laws;
pub mod extension_laws;
pub mod fresh;
pub mod laws;
pub mod message_laws;
pub mod names;
pub mod openai_chat;
pub mod openai_responses;
pub mod order_laws;
pub mod part_laws;
pub mod reason_laws;
pub mod request_laws;
pub mod responses_event_laws;
pub mod responses_stream;
pub mod sse;
pub mod sse_laws;
pub mod sse_round_trip;
pub mod state;
pub mod state_laws;
pub mod stream;
pub mod stream_laws;
pub mod tool_laws;
pub mod tools;
pub mod traits;
pub mod whole_laws;

pub use self::error::AdapterError;
pub use self::sse::{SseDecoder, SseEvent};
pub use self::state::StreamState;
pub use self::traits::{RequestAdapter, ResponseAdapter, StreamAdapter};
