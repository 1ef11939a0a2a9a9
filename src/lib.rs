//! Typed request and response values for a generative-AI HTTP API: chat
//! messages with text and image content, response envelopes, and the table of
//! endpoint paths.

pub mod json;
pub mod content;
pub mod wire;
pub mod message;
pub mod envelope;
pub mod chat;
pub mod endpoint;
