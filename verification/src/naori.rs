//! One interface for all back-ends.
pub mod client;

pub use client::{NaoriAI, Provider, ProviderStream};
