//! The data that callers see: messages, tool calls and stream items.
use crate::json::{Json, JsonView};
use crate::usage::TokenUsage;
use vstd::prelude::*;

verus! {

/// The function that a tool call names, with its arguments.
#[derive(Debug, Clone, PartialEq, Eq)]
pub struct Function {
    pub name: String,
    pub arguments: Json,
}

/// A [`Function`], as contracts see it.
pub struct FunctionView {
    pub name: Seq<char>,
    pub arguments: JsonView,
}

impl View for Function {
    type V = FunctionView;

    open spec fn view(&self) -> FunctionView {
        FunctionView { name: self.name@, arguments: self.arguments@ }
    }
}

impl DeepView for Function {
    type V = FunctionView;

    open spec fn deep_view(&self) -> FunctionView {
        self@
    }
}

/// A completed tool invocation. Some back-ends issue an id for it.
#[derive(Debug, Clone, PartialEq, Eq)]
pub struct ToolCall {
    pub id: Option<String>,
    pub function: Function,
}

/// A [`ToolCall`], as contracts see it.
pub struct ToolCallView {
    pub id: Option<Seq<char>>,
    pub function: FunctionView,
}

impl View for ToolCall {
    type V = ToolCallView;

    open spec fn view(&self) -> ToolCallView {
        ToolCallView { id: self.id.deep_view(), function: self.function@ }
    }
}

impl DeepView for ToolCall {
    type V = ToolCallView;

    open spec fn deep_view(&self) -> ToolCallView {
        self@
    }
}

/// One message of a conversation.
#[derive(Debug, Clone, PartialEq, Eq)]
pub struct Message {
    pub role: String,
    pub content: String,
    /// Images, each encoded as base64 text.
    pub images: Option<Vec<String>>,
    pub tool_calls: Option<Vec<ToolCall>>,
}

/// A [`Message`], as contracts see it.
pub struct MessageView {
    pub role: Seq<char>,
    pub content: Seq<char>,
    pub images: Option<Seq<Seq<char>>>,
    pub tool_calls: Option<Seq<ToolCallView>>,
}

impl View for Message {
    type V = MessageView;

    open spec fn view(&self) -> MessageView {
        MessageView {
            role: self.role@,
            content: self.content@,
            images: self.images.deep_view(),
            tool_calls: self.tool_calls.deep_view(),
        }
    }
}

impl DeepView for Message {
    type V = MessageView;

    open spec fn deep_view(&self) -> MessageView {
        self@
    }
}

/// One increment of a streamed response.
#[derive(Debug, Clone, PartialEq, Eq)]
pub struct ChatStreamItem {
    /// The text increment; it may be empty.
    pub content: String,
    /// The completed tool calls, if this item carries any.
    pub tool_calls: Option<Vec<ToolCall>>,
    /// Whether this is the terminal item of the stream.
    pub done: bool,
    pub usage: Option<TokenUsage>,
}

/// A [`ChatStreamItem`], as contracts see it.
pub struct ChatStreamItemView {
    pub content: Seq<char>,
    pub tool_calls: Option<Seq<ToolCallView>>,
    pub done: bool,
    pub usage: Option<TokenUsage>,
}

impl View for ChatStreamItem {
    type V = ChatStreamItemView;

    open spec fn view(&self) -> ChatStreamItemView {
        ChatStreamItemView {
            content: self.content@,
            tool_calls: self.tool_calls.deep_view(),
            done: self.done,
            usage: self.usage,
        }
    }
}

impl DeepView for ChatStreamItem {
    type V = ChatStreamItemView;

    open spec fn deep_view(&self) -> ChatStreamItemView {
        self@
    }
}

/// A model that some back-end offers.
#[derive(Debug, Clone, PartialEq, Eq)]
pub struct MonoModel {
    pub id: String,
    pub name: String,
    pub provider: String,
    /// The size in bytes, for a local model.
    pub size: Option<u64>,
    /// When the model was created, for a hosted one.
    pub created: Option<u64>,
}

/// One report on the progress of a model download.
#[derive(Debug, Clone, PartialEq, Eq)]
pub struct PullProgress {
    pub status: String,
    pub digest: Option<String>,
    pub total: Option<u64>,
    pub completed: Option<u64>,
}

/// What a back-end tells about one model.
#[derive(Debug, Clone, PartialEq, Eq)]
pub struct ModelInfo {
    pub license: String,
    pub modelfile: String,
    pub parameters: String,
    /// The prompt template of the model.
    pub template: String,
}

/// What a model can do.
#[derive(Debug, Clone, Copy, PartialEq, Eq)]
pub struct ProviderCapabilities {
    pub supports_tools: bool,
    pub supports_vision: bool,
}

/// A tool that the model may call: its name, what it does, and the JSON
/// schema of its parameters.
#[derive(Debug, Clone, PartialEq, Eq)]
pub struct Tool {
    pub name: String,
    pub description: String,
    pub parameters: Json,
}

/// A [`Tool`], as contracts see it.
pub struct ToolView {
    pub name: Seq<char>,
    pub description: Seq<char>,
    pub parameters: JsonView,
}

impl View for Tool {
    type V = ToolView;

    open spec fn view(&self) -> ToolView {
        ToolView { name: self.name@, description: self.description@, parameters: self.parameters@ }
    }
}

impl DeepView for Tool {
    type V = ToolView;

    open spec fn deep_view(&self) -> ToolView {
        self@
    }
}

} // verus!
