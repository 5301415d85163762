pub mod channels;
pub mod client;
pub mod stream;
pub mod types;

pub use channels::{GenerateReader, PullProgressReader};
pub use client::OllamaClient;
pub use stream::OllamaStreamProcessor;
pub use types::{ListModelsResponse, Model};
