//! What the proxy does with a request and with what the provider answers.

pub mod address;
pub mod convert;
pub mod decide;
pub mod exchange_laws;
pub mod forward;
pub mod laws;
pub mod reply;
pub mod stream;
