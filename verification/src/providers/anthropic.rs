pub mod client;
pub mod stream;
pub mod types;

pub use client::AnthropicClient;
pub use stream::AnthropicStreamProcessor;
pub use types::{
    AnthropicMessage, AnthropicModel, AnthropicRequest, AnthropicTool, ContentBlock, ImageSource,
};
