//! The request data of the protocol with choices and deltas.
use crate::json::{Json, JsonView};
use vstd::prelude::*;

verus! {

/// The function of a tool call, with its arguments as JSON text.
#[derive(Debug, Clone, PartialEq, Eq)]
pub struct OpenAIFunction {
    pub name: Option<String>,
    pub arguments: Option<String>,
}

/// An [`OpenAIFunction`], as contracts see it.
pub struct OpenAIFunctionView {
    pub name: Option<Seq<char>>,
    pub arguments: Option<Seq<char>>,
}

impl View for OpenAIFunction {
    type V = OpenAIFunctionView;

    open spec fn view(&self) -> OpenAIFunctionView {
        OpenAIFunctionView { name: self.name.deep_view(), arguments: self.arguments.deep_view() }
    }
}

/// A tool call, as this back-end takes it.
#[derive(Debug, Clone, PartialEq, Eq)]
pub struct OpenAIToolCall {
    pub id: Option<String>,
    pub call_type: Option<String>,
    pub function: OpenAIFunction,
}

/// An [`OpenAIToolCall`], as contracts see it.
pub struct OpenAIToolCallView {
    pub id: Option<Seq<char>>,
    pub call_type: Option<Seq<char>>,
    pub function: OpenAIFunctionView,
}

impl View for OpenAIToolCall {
    type V = OpenAIToolCallView;

    open spec fn view(&self) -> OpenAIToolCallView {
        OpenAIToolCallView {
            id: self.id.deep_view(),
            call_type: self.call_type.deep_view(),
            function: self.function@,
        }
    }
}

impl DeepView for OpenAIToolCall {
    type V = OpenAIToolCallView;

    open spec fn deep_view(&self) -> OpenAIToolCallView {
        self@
    }
}

/// A message, as this back-end takes it. The content is a string, or a
/// list of parts for a message with images.
#[derive(Debug, Clone, PartialEq, Eq)]
pub struct OpenAIMessage {
    pub role: Option<String>,
    pub content: Option<Json>,
    pub tool_calls: Option<Vec<OpenAIToolCall>>,
    pub tool_call_id: Option<String>,
}

/// An [`OpenAIMessage`], as contracts see it.
pub struct OpenAIMessageView {
    pub role: Option<Seq<char>>,
    pub content: Option<JsonView>,
    pub tool_calls: Option<Seq<OpenAIToolCallView>>,
    pub tool_call_id: Option<Seq<char>>,
}

impl View for OpenAIMessage {
    type V = OpenAIMessageView;

    open spec fn view(&self) -> OpenAIMessageView {
        OpenAIMessageView {
            role: self.role.deep_view(),
            content: self.content.deep_view(),
            tool_calls: self.tool_calls.deep_view(),
            tool_call_id: self.tool_call_id.deep_view(),
        }
    }
}

impl DeepView for OpenAIMessage {
    type V = OpenAIMessageView;

    open spec fn deep_view(&self) -> OpenAIMessageView {
        self@
    }
}

/// What a tool is, as this back-end takes it.
#[derive(Debug, Clone, PartialEq, Eq)]
pub struct OpenAIToolFunction {
    pub name: String,
    pub description: String,
    pub parameters: Json,
}

/// A tool, as this back-end takes it.
#[derive(Debug, Clone, PartialEq, Eq)]
pub struct OpenAITool {
    pub tool_type: String,
    pub function: OpenAIToolFunction,
}

/// An [`OpenAITool`], as contracts see it.
pub struct OpenAIToolView {
    pub tool_type: Seq<char>,
    pub name: Seq<char>,
    pub description: Seq<char>,
    pub parameters: JsonView,
}

impl View for OpenAITool {
    type V = OpenAIToolView;

    open spec fn view(&self) -> OpenAIToolView {
        OpenAIToolView {
            tool_type: self.tool_type@,
            name: self.function.name@,
            description: self.function.description@,
            parameters: self.function.parameters@,
        }
    }
}

impl DeepView for OpenAITool {
    type V = OpenAIToolView;

    open spec fn deep_view(&self) -> OpenAIToolView {
        self@
    }
}

/// What the stream is asked to include.
#[derive(Debug, Clone, Copy, PartialEq, Eq)]
pub struct OpenAIStreamOptions {
    pub include_usage: bool,
}

/// A request for a streamed response.
#[derive(Debug, Clone, PartialEq, Eq)]
pub struct OpenAIRequest {
    pub model: String,
    pub messages: Vec<OpenAIMessage>,
    pub max_tokens: Option<u32>,
    pub max_completion_tokens: Option<u32>,
    pub tools: Option<Vec<OpenAITool>>,
    pub stream: Option<bool>,
    pub stream_options: Option<OpenAIStreamOptions>,
}

/// An [`OpenAIRequest`], as contracts see it.
pub struct OpenAIRequestView {
    pub model: Seq<char>,
    pub messages: Seq<OpenAIMessageView>,
    pub max_tokens: Option<u32>,
    pub max_completion_tokens: Option<u32>,
    pub tools: Option<Seq<OpenAIToolView>>,
    pub stream: Option<bool>,
    pub stream_options: Option<OpenAIStreamOptions>,
}

impl View for OpenAIRequest {
    type V = OpenAIRequestView;

    open spec fn view(&self) -> OpenAIRequestView {
        OpenAIRequestView {
            model: self.model@,
            messages: self.messages.deep_view(),
            max_tokens: self.max_tokens,
            max_completion_tokens: self.max_completion_tokens,
            tools: self.tools.deep_view(),
            stream: self.stream,
            stream_options: self.stream_options,
        }
    }
}

/// A model, as this back-end lists it.
#[derive(Debug, Clone, PartialEq, Eq)]
pub struct OpenAIModel {
    pub id: String,
    /// When the model was created.
    pub created: u64,
}

} // verus!
