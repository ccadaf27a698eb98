//! A verified library for a proxy between the wire formats of language-model APIs.

pub mod adapters;
pub mod auth;
pub mod cmd;
pub mod config;
pub mod config_laws;
pub mod daemon;
pub mod headers;
pub mod json;
pub mod model;
pub mod models;
pub mod named;
pub mod program_laws;
pub mod protocol;
pub mod proxy;
pub mod query;
pub mod redact;
pub mod seqs;
pub mod server;
pub mod text;
pub mod text_laws;
pub mod wire;
