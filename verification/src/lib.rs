//! A gateway from the Anthropic Messages API to OpenAI-compatible backends:
//! request and response conversion, the streaming state machine, header
//! forwarding and model routing, with their contracts proved by Verus.
pub mod anthropic;
pub mod api;
pub mod config;
pub mod error;
pub mod handler;
pub mod openai;
pub mod text;
pub mod transform;
