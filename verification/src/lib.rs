//! A provider-neutral client for large language model endpoints.
//!
//! The library holds the decisions: how a neutral request maps onto each wire
//! dialect, how a dialect's answer maps back, how server-sent events are
//! framed and assembled, and how failures are classified.

pub mod anthropic;
pub mod config;
pub mod error;
pub mod events;
pub mod gemini;
pub mod json;
pub mod model;
pub mod openai;
pub mod openai_chat;
pub mod openai_responses;
pub mod presets;
pub mod provider;
pub mod refusal;
pub mod sse;
pub mod stream;
pub mod summarize;
pub mod text;
pub mod transcript;
pub mod transport;
