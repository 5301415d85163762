//! The request data of the protocol with content blocks.
use crate::json::{Json, JsonView};
use vstd::prelude::*;

verus! {

/// Where the data of an image comes from.
#[derive(Debug, Clone, PartialEq, Eq)]
pub struct ImageSource {
    pub source_type: String,
    pub media_type: String,
    pub data: String,
}

/// An [`ImageSource`], as contracts see it.
pub struct ImageSourceView {
    pub source_type: Seq<char>,
    pub media_type: Seq<char>,
    pub data: Seq<char>,
}

impl View for ImageSource {
    type V = ImageSourceView;

    open spec fn view(&self) -> ImageSourceView {
        ImageSourceView {
            source_type: self.source_type@,
            media_type: self.media_type@,
            data: self.data@,
        }
    }
}

/// One block of the content of a message.
#[derive(Debug, Clone, PartialEq, Eq)]
pub enum ContentBlock {
    Text { text: String },
    Image { source: ImageSource },
    ToolUse { id: String, name: String, input: Json },
    ToolResult { tool_use_id: String, content: String },
}

/// A [`ContentBlock`], as contracts see it.
pub enum ContentBlockView {
    Text { text: Seq<char> },
    Image { source: ImageSourceView },
    ToolUse { id: Seq<char>, name: Seq<char>, input: JsonView },
    ToolResult { tool_use_id: Seq<char>, content: Seq<char> },
}

impl View for ContentBlock {
    type V = ContentBlockView;

    open spec fn view(&self) -> ContentBlockView {
        match self {
            ContentBlock::Text { text } => ContentBlockView::Text { text: text@ },
            ContentBlock::Image { source } => ContentBlockView::Image { source: source@ },
            ContentBlock::ToolUse { id, name, input } => ContentBlockView::ToolUse {
                id: id@,
                name: name@,
                input: input@,
            },
            ContentBlock::ToolResult { tool_use_id, content } => ContentBlockView::ToolResult {
                tool_use_id: tool_use_id@,
                content: content@,
            },
        }
    }
}

impl DeepView for ContentBlock {
    type V = ContentBlockView;

    open spec fn deep_view(&self) -> ContentBlockView {
        self@
    }
}

/// A message, as this back-end takes it.
#[derive(Debug, Clone, PartialEq, Eq)]
pub struct AnthropicMessage {
    pub role: String,
    pub content: Vec<ContentBlock>,
}

/// An [`AnthropicMessage`], as contracts see it.
pub struct AnthropicMessageView {
    pub role: Seq<char>,
    pub content: Seq<ContentBlockView>,
}

impl View for AnthropicMessage {
    type V = AnthropicMessageView;

    open spec fn view(&self) -> AnthropicMessageView {
        AnthropicMessageView { role: self.role@, content: self.content.deep_view() }
    }
}

impl DeepView for AnthropicMessage {
    type V = AnthropicMessageView;

    open spec fn deep_view(&self) -> AnthropicMessageView {
        self@
    }
}

/// A tool, as this back-end takes it.
#[derive(Debug, Clone, PartialEq, Eq)]
pub struct AnthropicTool {
    pub name: String,
    pub description: String,
    pub input_schema: Json,
}

/// An [`AnthropicTool`], as contracts see it.
pub struct AnthropicToolView {
    pub name: Seq<char>,
    pub description: Seq<char>,
    pub input_schema: JsonView,
}

impl View for AnthropicTool {
    type V = AnthropicToolView;

    open spec fn view(&self) -> AnthropicToolView {
        AnthropicToolView {
            name: self.name@,
            description: self.description@,
            input_schema: self.input_schema@,
        }
    }
}

impl DeepView for AnthropicTool {
    type V = AnthropicToolView;

    open spec fn deep_view(&self) -> AnthropicToolView {
        self@
    }
}

/// A request for a streamed response.
#[derive(Debug, Clone, PartialEq, Eq)]
pub struct AnthropicRequest {
    pub model: String,
    pub max_tokens: u32,
    pub messages: Vec<AnthropicMessage>,
    pub system: Option<String>,
    pub tools: Option<Vec<AnthropicTool>>,
    pub stream: Option<bool>,
}

/// An [`AnthropicRequest`], as contracts see it.
pub struct AnthropicRequestView {
    pub model: Seq<char>,
    pub max_tokens: u32,
    pub messages: Seq<AnthropicMessageView>,
    pub system: Option<Seq<char>>,
    pub tools: Option<Seq<AnthropicToolView>>,
    pub stream: Option<bool>,
}

impl View for AnthropicRequest {
    type V = AnthropicRequestView;

    open spec fn view(&self) -> AnthropicRequestView {
        AnthropicRequestView {
            model: self.model@,
            max_tokens: self.max_tokens,
            messages: self.messages.deep_view(),
            system: self.system.deep_view(),
            tools: self.tools.deep_view(),
            stream: self.stream,
        }
    }
}

/// A model, as this back-end lists it.
#[derive(Debug, Clone, PartialEq, Eq)]
pub struct AnthropicModel {
    pub id: String,
    pub display_name: String,
    /// When the model was created, as the back-end writes it.
    pub created_at: String,
}

} // verus!
