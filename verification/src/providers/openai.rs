pub mod client;
pub mod stream;
pub mod types;

pub use client::OpenAIClient;
pub use stream::OpenAIStreamProcessor;
pub use types::{
    OpenAIFunction, OpenAIMessage, OpenAIModel, OpenAIRequest, OpenAIStreamOptions, OpenAITool,
    OpenAIToolCall, OpenAIToolFunction,
};
