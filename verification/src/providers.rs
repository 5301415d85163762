//! The back-ends, each with its wire protocol.
pub mod anthropic;
pub mod ollama;
pub mod openai;
