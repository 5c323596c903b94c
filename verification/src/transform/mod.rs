//! Protocol conversions between the Anthropic and OpenAI formats.
pub mod headers;
pub mod request;
pub mod response;
pub mod sse;
pub mod stream;
