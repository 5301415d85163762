//! Streaming-response normalisation for chat back-ends.
//!
//! Raw byte chunks, cut at arbitrary points by the network, are decoded into
//! logical frames, interpreted as response increments and merged into one
//! ordered sequence of [`ChatStreamItem`] values, whatever wire protocol the
//! back-end speaks.
//!
//! - [`framing`] cuts bytes into frames and carries the incomplete rest
//!   over; [`events`] reads the payloads of an event.
//! - [`providers`] holds one interpreter for each protocol, which reads
//!   frames as deltas, and what each back-end is sent.
//! - [`items`] applies deltas: text becomes an item, fragments of tool
//!   calls go to the [`accumulator`], which merges them.
//! - [`filter`] and [`fallback`] are the textual tool protocol for models
//!   without native tool calls.
//! - [`stream`] puts decoder and interpreter together, and states what
//!   holds of every stream: chunk boundaries do not matter, items keep
//!   the order of their frames, and the terminal item is the last one.
//!
//! The library performs no input or output. The caller sends the requests
//! and hands the bytes of the response over.
pub mod accumulator;
pub mod collect;
pub mod events;
pub mod fallback;
pub mod filter;
pub mod framing;
pub mod images;
pub mod items;
pub mod json;
pub mod naori;
pub mod pattern;
pub mod providers;
pub mod schema;
pub mod stream;
pub mod text;
pub mod tools;
pub mod types;
pub mod usage;

pub use fallback::FallbackToolHandler;
pub use json::Json;
pub use naori::NaoriAI;
pub use providers::anthropic::{AnthropicClient, AnthropicStreamProcessor};
pub use providers::ollama::{ListModelsResponse, Model, OllamaClient, OllamaStreamProcessor};
pub use providers::openai::{OpenAIClient, OpenAIStreamProcessor};
pub use types::{
    ChatStreamItem, Function, Message, ModelInfo, MonoModel, ProviderCapabilities, PullProgress,
    Tool, ToolCall,
};
pub use usage::TokenUsage;
