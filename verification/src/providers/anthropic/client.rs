//! The client side of the protocol with content blocks: what is sent.
use super::types::{
    AnthropicMessage, AnthropicMessageView, AnthropicModel, AnthropicRequest,
    AnthropicRequestView, AnthropicTool, AnthropicToolView, ContentBlock, ContentBlockView,
    ImageSource, ImageSourceView,
};
use crate::text::str_eq;
use crate::tools::{
    answer_tool_calls, decode_tool_result, decoded_result, responses_upto, tool_from, tool_names,
    ResponseStyle, ToolRunner,
};
use crate::types::{
    Message, MessageView, MonoModel, ProviderCapabilities, Tool, ToolCall, ToolCallView, ToolView,
};
use vstd::prelude::*;

verus! {

/// The id that a call without id is sent with.
pub const GENERATED_CALL_ID: &'static str = "call_generated_id";

/// The number of tokens that a response may have.
pub const MAX_TOKENS: u32 = 4096;

/// The block of an image, given as base64 text.
pub open spec fn image_block(data: Seq<char>) -> ContentBlockView {
    ContentBlockView::Image {
        source: ImageSourceView {
            source_type: "base64"@,
            media_type: "image/jpeg"@,
            data,
        },
    }
}

/// The blocks of the images: the last image first.
pub open spec fn image_blocks(images: Option<Seq<Seq<char>>>) -> Seq<ContentBlockView> {
    match images {
        Some(list) => Seq::new(list.len(), |i: int| image_block(list[list.len() - 1 - i])),
        None => Seq::empty(),
    }
}

/// The block of a tool call that the model made.
pub open spec fn tool_use_block(call: ToolCallView) -> ContentBlockView {
    ContentBlockView::ToolUse {
        id: match call.id {
            Some(id) => id,
            None => GENERATED_CALL_ID@,
        },
        name: call.function.name,
        input: call.function.arguments,
    }
}

/// The blocks of the tool calls, in order.
pub open spec fn tool_use_blocks(calls: Option<Seq<ToolCallView>>) -> Seq<ContentBlockView> {
    match calls {
        Some(list) => Seq::new(list.len(), |i: int| tool_use_block(list[i])),
        None => Seq::empty(),
    }
}

/// A message as this back-end takes it. A user message that carries a tool
/// result becomes one tool-result block. Any other message becomes its
/// images, its text and its tool calls, in this order.
pub open spec fn converted_message(message: MessageView) -> AnthropicMessageView {
    if message.role == "user"@ && decoded_result(message.content) is Some {
        let parts = decoded_result(message.content).unwrap();
        AnthropicMessageView {
            role: message.role,
            content: seq![
                ContentBlockView::ToolResult { tool_use_id: parts.0, content: parts.1 },
            ],
        }
    } else {
        AnthropicMessageView {
            role: message.role,
            content: image_blocks(message.images) + seq![
                ContentBlockView::Text { text: message.content },
            ] + tool_use_blocks(message.tool_calls),
        }
    }
}

/// A tool as this back-end takes it.
pub open spec fn converted_tool(tool: ToolView) -> AnthropicToolView {
    AnthropicToolView {
        name: tool.name,
        description: tool.description,
        input_schema: tool.parameters,
    }
}

/// The request for a streamed response to the messages.
pub open spec fn request_for(model: Seq<char>, tools: Seq<ToolView>, messages: Seq<MessageView>)
    -> AnthropicRequestView {
    AnthropicRequestView {
        model,
        max_tokens: MAX_TOKENS,
        messages: Seq::new(messages.len(), |i: int| converted_message(messages[i])),
        system: None,
        tools: if tools.len() == 0 {
            None
        } else {
            Some(Seq::new(tools.len(), |i: int| converted_tool(tools[i])))
        },
        stream: Some(true),
    }
}

/// The number that a text of digits stands for, or 0 for any other text.
pub open spec fn created_of(text: Seq<char>) -> u64 {
    match crate::json::JsonView::Number(text).as_u64() {
        Some(n) => n,
        None => 0,
    }
}

/// The client of this back-end, as contracts see it.
pub struct AnthropicClientView {
    pub api_key: Seq<char>,
    pub model: Seq<char>,
    pub tools: Seq<ToolView>,
}

/// What a conversation with this back-end needs: the key, the model and
/// the tools.
pub struct AnthropicClient {
    api_key: String,
    pub model: String,
    tools: Vec<Tool>,
}

impl View for AnthropicClient {
    type V = AnthropicClientView;

    closed spec fn view(&self) -> AnthropicClientView {
        AnthropicClientView {
            api_key: self.api_key@,
            model: self.model@,
            tools: self.tools.deep_view(),
        }
    }
}

impl AnthropicClient {
    /// A client without tools.
    pub fn new(api_key: String, model: String) -> (client: Self)
        ensures
            client@.api_key == api_key@,
            client@.model == model@,
            client@.tools == Seq::<ToolView>::empty(),
    {
        let client = Self { api_key, model, tools: Vec::new() };
        assert(client@.tools =~= Seq::<ToolView>::empty());
        client
    }

    /// The key that requests are sent with.
    pub fn api_key(&self) -> (key: &String)
        ensures
            key@ == self@.api_key,
    {
        &self.api_key
    }

    /// The name of the model.
    pub fn model_name(&self) -> (model: &String)
        ensures
            model@ == self@.model,
    {
        &self.model
    }

    /// The tools, in the order in which they were added.
    pub fn tools(&self) -> (tools: &Vec<Tool>)
        ensures
            tools.deep_view() == self@.tools,
    {
        &self.tools
    }

    /// Adds a tool behind the others.
    pub fn add_tool(&mut self, tool: Tool)
        ensures
            final(self)@.tools == old(self)@.tools.push(tool@),
            final(self)@.api_key == old(self)@.api_key,
            final(self)@.model == old(self)@.model,
    {
        self.tools.push(tool);
        assert(self@.tools =~= old(self)@.tools.push(tool@));
    }

    /// This back-end calls tools natively: the fallback protocol is never in
    /// use.
    pub fn is_fallback_mode(&self) -> (fallback: bool)
        ensures
            !fallback,
    {
        false
    }

    /// This back-end has no debug mode: nothing changes.
    pub fn set_debug_mode(&mut self, _debug: bool)
        ensures
            final(self)@ == old(self)@,
    {
    }

    /// This back-end has no debug mode.
    pub fn debug_mode(&self) -> (debug: bool)
        ensures
            !debug,
    {
        false
    }

    /// The models of this back-end call tools natively.
    pub fn supports_tool_calls(&self) -> (supported: bool)
        ensures
            supported,
    {
        true
    }

    /// The models of this back-end call tools and take images.
    pub fn capabilities(&self) -> (capabilities: ProviderCapabilities)
        ensures
            capabilities.supports_tools,
            capabilities.supports_vision,
    {
        ProviderCapabilities { supports_tools: true, supports_vision: true }
    }

    /// A message as this back-end takes it.
    pub fn convert_to_anthropic_message(&self, message: &Message) -> (converted: AnthropicMessage)
        ensures
            converted@ == converted_message(message@),
    {
        if str_eq(message.role.as_str(), "user") {
            match decode_tool_result(message.content.as_str()) {
                Some((id, result)) => {
                    let mut content: Vec<ContentBlock> = Vec::new();
                    content.push(ContentBlock::ToolResult { tool_use_id: id, content: result });
                    let converted = AnthropicMessage { role: message.role.clone(), content };
                    assert(converted@.content =~= converted_message(message@).content);
                    return converted;
                },
                None => {},
            }
        }
        let mut content: Vec<ContentBlock> = Vec::new();
        match &message.images {
            Some(images) => {
                let mut left: usize = images.len();
                while left > 0
                    invariant
                        left <= images.len(),
                        content@.len() == images.len() - left,
                        forall|k: int|
                            0 <= k < content@.len() ==> (#[trigger] content@[k])@ == image_block(
                                images@[images.len() - 1 - k]@,
                            ),
                    decreases left,
                {
                    left -= 1;
                    content.push(
                        ContentBlock::Image {
                            source: ImageSource {
                                source_type: "base64".to_owned(),
                                media_type: "image/jpeg".to_owned(),
                                data: images[left].clone(),
                            },
                        },
                    );
                }
            },
            None => {},
        }
        let ghost first = content.deep_view();
        assert(first =~= image_blocks(message@.images));
        content.push(ContentBlock::Text { text: message.content.clone() });
        let ghost second = content.deep_view();
        assert(second =~= first + seq![ContentBlockView::Text { text: message@.content }]);
        match &message.tool_calls {
            Some(calls) => {
                let mut i: usize = 0;
                while i < calls.len()
                    invariant
                        i <= calls.len(),
                        content@.len() == second.len() + i,
                        forall|k: int| 0 <= k < second.len() ==> (#[trigger] content@[k])@ == second[k],
                        forall|k: int|
                            second.len() <= k < second.len() + i ==> (#[trigger] content@[k])@
                                == tool_use_block(calls@[k - second.len()]@),
                    decreases calls.len() - i,
                {
                    let call = &calls[i];
                    content.push(
                        ContentBlock::ToolUse {
                            id: match &call.id {
                                Some(id) => id.clone(),
                                None => GENERATED_CALL_ID.to_owned(),
                            },
                            name: call.function.name.clone(),
                            input: call.function.arguments.duplicate(),
                        },
                    );
                    i += 1;
                }
                assert(message@.tool_calls == Some(calls.deep_view()));
                assert forall|k: int| 0 <= k < calls.len() implies (#[trigger] calls.deep_view()[k])
                    == calls@[k]@ by {}
                assert(content.deep_view() =~= second + tool_use_blocks(message@.tool_calls));
            },
            None => {
                assert(content.deep_view() =~= second + tool_use_blocks(message@.tool_calls));
            },
        }
        AnthropicMessage { role: message.role.clone(), content }
    }

    /// The tools as this back-end takes them.
    pub fn convert_tools_to_anthropic(&self) -> (converted: Vec<AnthropicTool>)
        ensures
            converted.deep_view() == Seq::new(
                self@.tools.len(),
                |i: int| converted_tool(self@.tools[i]),
            ),
    {
        let mut converted: Vec<AnthropicTool> = Vec::new();
        let mut i: usize = 0;
        while i < self.tools.len()
            invariant
                i <= self.tools.len(),
                converted@.len() == i,
                forall|k: int|
                    0 <= k < i ==> (#[trigger] converted@[k])@ == converted_tool(self.tools@[k]@),
            decreases self.tools.len() - i,
        {
            let tool = &self.tools[i];
            converted.push(
                AnthropicTool {
                    name: tool.name.clone(),
                    description: tool.description.clone(),
                    input_schema: tool.parameters.duplicate(),
                },
            );
            i += 1;
        }
        assert(converted.deep_view() =~= Seq::new(
            self@.tools.len(),
            |i: int| converted_tool(self@.tools[i]),
        ));
        converted
    }

    /// The request for a streamed response to the messages.
    pub fn build_request(&self, messages: &[Message]) -> (request: AnthropicRequest)
        ensures
            request@ == request_for(self@.model, self@.tools, messages.deep_view()),
    {
        let mut converted: Vec<AnthropicMessage> = Vec::new();
        let mut i: usize = 0;
        while i < messages.len()
            invariant
                i <= messages.len(),
                converted@.len() == i,
                forall|k: int|
                    0 <= k < i ==> (#[trigger] converted@[k])@ == converted_message(messages@[k]@),
            decreases messages.len() - i,
        {
            converted.push(self.convert_to_anthropic_message(&messages[i]));
            i += 1;
        }
        let tools = if self.tools.len() == 0 {
            None
        } else {
            Some(self.convert_tools_to_anthropic())
        };
        let request = AnthropicRequest {
            model: self.model.clone(),
            max_tokens: MAX_TOKENS,
            messages: converted,
            system: None,
            tools,
            stream: Some(true),
        };
        assert(request@.messages =~= request_for(
            self@.model,
            self@.tools,
            messages.deep_view(),
        ).messages);
        request
    }

    /// Answers tool calls: the result of each call of a registered tool goes
    /// back as a user message that carries the id of the call.
    pub fn handle_tool_calls<R: ToolRunner>(&self, tool_calls: Vec<ToolCall>, runner: &R) -> (messages:
        Vec<Message>)
        ensures
            exists|results: Seq<Option<Seq<char>>>|
                {
                    &&& results.len() == tool_calls.len()
                    &&& forall|i: int|
                        0 <= i < tool_calls.len() ==> ((#[trigger] results[i]) is Some) == (
                        tool_from(tool_names(self@.tools), tool_calls@[i].function.name@, 0)
                            is Some)
                    &&& messages.deep_view() == responses_upto(
                        ResponseStyle::EncodedForUser,
                        tool_calls.deep_view(),
                        results,
                        tool_calls.len() as int,
                    )
                },
    {
        answer_tool_calls(
            ResponseStyle::EncodedForUser,
            self.tools.as_slice(),
            tool_calls.as_slice(),
            runner,
        )
    }

    /// This back-end needs no fallback: the content is returned as it is,
    /// without tool calls.
    pub fn process_fallback_response(&self, content: &str) -> (parts: (String, Option<Vec<ToolCall>>))
        ensures
            parts.0@ == content@,
            parts.1 is None,
    {
        (content.to_owned(), None)
    }

    /// A model of this back-end as one of any back-end. A creation time
    /// that is not a number counts as 0.
    pub fn mono_model(model: AnthropicModel) -> (mono: MonoModel)
        ensures
            mono.id@ == model.id@,
            mono.name@ == model.display_name@,
            mono.provider@ == "Anthropic"@,
            mono.size is None,
            mono.created == Some(created_of(model.created_at@)),
    {
        let created = match crate::json::Json::Number(model.created_at).as_u64() {
            Some(n) => n,
            None => 0,
        };
        MonoModel {
            id: model.id,
            name: model.display_name,
            provider: "Anthropic".to_owned(),
            size: None,
            created: Some(created),
        }
    }
}

} // verus!
