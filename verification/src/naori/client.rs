//! The client that stands for any of the back-ends.
//!
//! It holds what a conversation needs and decides what is sent and how a
//! response is read. Sending and receiving are the caller's business.
use crate::fallback::{fallback_calls, template_names_tools};
use crate::filter::{visible, TOOL_CALL_CLOSE, TOOL_CALL_OPEN};
use crate::tools::{responses_upto, tool_from, tool_names, ResponseStyle, ToolRunner};
use crate::images::{base64_text, encode_image_data};
use crate::providers::anthropic::client::{AnthropicClient, AnthropicClientView};
use crate::providers::anthropic::stream::AnthropicStreamProcessor;
use crate::providers::anthropic::types::AnthropicModel;
use crate::providers::ollama::client::{OllamaClient, OllamaClientView};
use crate::providers::ollama::stream::OllamaStreamProcessor;
use crate::providers::ollama::types::Model;
use crate::providers::openai::client::{OpenAIClient, OpenAIClientView, DEFAULT_BASE_URL};
use crate::providers::openai::stream::OpenAIStreamProcessor;
use crate::providers::openai::types::OpenAIModel;
use crate::types::{
    ChatStreamItem, Message, MessageView, ModelInfo, MonoModel, ProviderCapabilities, Tool,
    ToolCall, ToolView,
};
use vstd::prelude::*;
use vstd::string::StringExecFns;

verus! {

/// Where requests go for the back-end that relays to many models.
pub const OPENROUTER_BASE_URL: &'static str = "https://openrouter.ai/api/v1";

/// The client of one back-end.
pub enum Provider {
    Ollama(OllamaClient),
    Anthropic(AnthropicClient),
    OpenAI(OpenAIClient),
}

/// A [`Provider`], as contracts see it.
pub enum ProviderView {
    Ollama(OllamaClientView),
    Anthropic(AnthropicClientView),
    OpenAI(OpenAIClientView),
}

impl View for Provider {
    type V = ProviderView;

    open spec fn view(&self) -> ProviderView {
        match self {
            Provider::Ollama(client) => ProviderView::Ollama(client@),
            Provider::Anthropic(client) => ProviderView::Anthropic(client@),
            Provider::OpenAI(client) => ProviderView::OpenAI(client@),
        }
    }
}

impl ProviderView {
    /// The tools of the client.
    pub open spec fn tools(self) -> Seq<ToolView> {
        match self {
            ProviderView::Ollama(client) => client.tools,
            ProviderView::Anthropic(client) => client.tools,
            ProviderView::OpenAI(client) => client.tools,
        }
    }

    /// The model of the client.
    pub open spec fn model(self) -> Seq<char> {
        match self {
            ProviderView::Ollama(client) => client.model,
            ProviderView::Anthropic(client) => client.model,
            ProviderView::OpenAI(client) => client.model,
        }
    }

    /// The client with one more tool.
    pub open spec fn with_tool(self, tool: ToolView) -> ProviderView {
        match self {
            ProviderView::Ollama(client) => ProviderView::Ollama(
                OllamaClientView { tools: client.tools.push(tool), ..client },
            ),
            ProviderView::Anthropic(client) => ProviderView::Anthropic(
                AnthropicClientView { tools: client.tools.push(tool), ..client },
            ),
            ProviderView::OpenAI(client) => ProviderView::OpenAI(
                OpenAIClientView { tools: client.tools.push(tool), ..client },
            ),
        }
    }

    /// Whether the model calls tools natively. Only the back-end with local
    /// models has models that do not: there the prompt template decides, and
    /// a model of which nothing is known counts as one that does not.
    pub open spec fn supports_tools(self, template: Option<Seq<char>>) -> bool {
        match self {
            ProviderView::Ollama(_) => match template {
                Some(text) => template_names_tools(text),
                None => false,
            },
            _ => true,
        }
    }

    /// Whether the fallback protocol is in use.
    pub open spec fn fallback(self, template: Option<Seq<char>>) -> bool {
        self.tools().len() > 0 && !self.supports_tools(template)
    }

    /// Whether the debug mode is on. Only the back-end with local models
    /// has one.
    pub open spec fn debug_mode(self) -> bool {
        match self {
            ProviderView::Ollama(client) => client.debug_mode,
            _ => false,
        }
    }
}

/// How the back-end wants the result of a tool in the conversation.
pub open spec fn response_style(provider: ProviderView, template: Option<Seq<char>>)
    -> ResponseStyle {
    match provider {
        ProviderView::Ollama(_) => if provider.fallback(template) {
            ResponseStyle::Narrated
        } else {
            ResponseStyle::Plain
        },
        ProviderView::Anthropic(_) => ResponseStyle::EncodedForUser,
        ProviderView::OpenAI(_) => ResponseStyle::EncodedForTool,
    }
}

/// The prompt template of a model, if anything is known of the model.
pub open spec fn template_of(model_info: Option<&ModelInfo>) -> Option<Seq<char>> {
    match model_info {
        Some(info) => Some(info.template@),
        None => None,
    }
}

/// The conversation that asks for the completion of a prompt: one user
/// message.
pub open spec fn prompt_conversation(prompt: Seq<char>) -> Seq<MessageView> {
    seq![MessageView { role: "user"@, content: prompt, images: None, tool_calls: None }]
}

/// The models of one back-end.
pub enum ModelListing {
    Ollama(Vec<Model>),
    Anthropic(Vec<AnthropicModel>),
    OpenAI(Vec<OpenAIModel>),
}

/// The processor of the response of one back-end.
pub enum ProviderStream {
    Ollama(OllamaStreamProcessor),
    Anthropic(AnthropicStreamProcessor),
    OpenAI(OpenAIStreamProcessor),
}

impl ProviderStream {
    /// Takes the next chunk of the response and returns the items that it
    /// completes: see the processor of the back-end.
    pub fn push_chunk(&mut self, chunk: &[u8]) -> (items: Vec<ChatStreamItem>)
        ensures
            match (*old(self), *final(self)) {
                (ProviderStream::Ollama(before), ProviderStream::Ollama(after)) => {
                    &&& after@ == crate::stream::after_chunk::<
                        crate::providers::ollama::stream::OllamaInterpreter,
                    >(before@, chunk@).0
                    &&& items.deep_view() == crate::stream::after_chunk::<
                        crate::providers::ollama::stream::OllamaInterpreter,
                    >(before@, chunk@).1
                },
                (ProviderStream::Anthropic(before), ProviderStream::Anthropic(after)) => {
                    &&& after@ == crate::stream::after_chunk::<
                        crate::providers::anthropic::stream::AnthropicEvents,
                    >(before@, chunk@).0
                    &&& items.deep_view() == crate::stream::after_chunk::<
                        crate::providers::anthropic::stream::AnthropicEvents,
                    >(before@, chunk@).1
                },
                (ProviderStream::OpenAI(before), ProviderStream::OpenAI(after)) => {
                    &&& after@ == crate::stream::after_chunk::<
                        crate::providers::openai::stream::OpenAIEvents,
                    >(before@, chunk@).0
                    &&& items.deep_view() == crate::stream::after_chunk::<
                        crate::providers::openai::stream::OpenAIEvents,
                    >(before@, chunk@).1
                },
                _ => false,
            },
    {
        match self {
            ProviderStream::Ollama(processor) => processor.push_chunk(chunk),
            ProviderStream::Anthropic(processor) => processor.push_chunk(chunk),
            ProviderStream::OpenAI(processor) => processor.push_chunk(chunk),
        }
    }

    /// Takes note that the transport has failed: the sequence of items ends
    /// here.
    pub fn fail(&mut self)
        ensures
            match (*old(self), *final(self)) {
                (ProviderStream::Ollama(before), ProviderStream::Ollama(after)) => after@
                    == crate::stream::after_failure::<
                    crate::providers::ollama::stream::OllamaInterpreter,
                >(before@),
                (ProviderStream::Anthropic(before), ProviderStream::Anthropic(after)) => after@
                    == crate::stream::after_failure::<
                    crate::providers::anthropic::stream::AnthropicEvents,
                >(before@),
                (ProviderStream::OpenAI(before), ProviderStream::OpenAI(after)) => after@
                    == crate::stream::after_failure::<
                    crate::providers::openai::stream::OpenAIEvents,
                >(before@),
                _ => false,
            },
    {
        match self {
            ProviderStream::Ollama(processor) => processor.fail(),
            ProviderStream::Anthropic(processor) => processor.fail(),
            ProviderStream::OpenAI(processor) => processor.fail(),
        }
    }

    /// Ends the response: see the processor of the back-end.
    pub fn finish(&mut self) -> (items: Vec<ChatStreamItem>)
        ensures
            match (*old(self), *final(self)) {
                (ProviderStream::Ollama(before), ProviderStream::Ollama(after)) => {
                    &&& after@ == crate::stream::after_end::<
                        crate::providers::ollama::stream::OllamaInterpreter,
                    >(before@).0
                    &&& items.deep_view() == crate::stream::after_end::<
                        crate::providers::ollama::stream::OllamaInterpreter,
                    >(before@).1
                },
                (ProviderStream::Anthropic(before), ProviderStream::Anthropic(after)) => {
                    &&& after@ == crate::stream::after_end::<
                        crate::providers::anthropic::stream::AnthropicEvents,
                    >(before@).0
                    &&& items.deep_view() == crate::stream::after_end::<
                        crate::providers::anthropic::stream::AnthropicEvents,
                    >(before@).1
                },
                (ProviderStream::OpenAI(before), ProviderStream::OpenAI(after)) => {
                    &&& after@ == crate::stream::after_end::<
                        crate::providers::openai::stream::OpenAIEvents,
                    >(before@).0
                    &&& items.deep_view() == crate::stream::after_end::<
                        crate::providers::openai::stream::OpenAIEvents,
                    >(before@).1
                },
                _ => false,
            },
    {
        match self {
            ProviderStream::Ollama(processor) => processor.finish(),
            ProviderStream::Anthropic(processor) => processor.finish(),
            ProviderStream::OpenAI(processor) => processor.finish(),
        }
    }
}

/// What the back-end with local models offers besides conversations.
#[derive(Debug, Clone, Copy, PartialEq, Eq)]
pub enum ManagementOperation {
    ListLocalModels,
    ShowModelInfo,
    PullModel,
    PullModelStream,
}

/// The name of an operation, as messages write it.
pub open spec fn operation_name(operation: ManagementOperation) -> Seq<char> {
    match operation {
        ManagementOperation::ListLocalModels => "list_local_models"@,
        ManagementOperation::ShowModelInfo => "show_model_info"@,
        ManagementOperation::PullModel => "pull_model"@,
        ManagementOperation::PullModelStream => "pull_model_stream"@,
    }
}

/// Why a back-end refuses an operation, if it does. The back-end with
/// local models refuses none.
pub open spec fn refusal(provider: ProviderView, operation: ManagementOperation) -> Option<
    Seq<char>,
> {
    match provider {
        ProviderView::Ollama(_) => None,
        _ => if operation == ManagementOperation::ListLocalModels {
            Some(operation_name(operation) + " is only supported for Ollama provider"@)
        } else {
            Some(
                operation_name(operation) + " is not supported for "@ + (if provider
                    is Anthropic {
                    "Anthropic"@
                } else {
                    "OpenAI"@
                }) + " provider"@,
            )
        },
    }
}

/// One client for all back-ends.
pub struct NaoriAI {
    provider: Provider,
}

impl View for NaoriAI {
    type V = ProviderView;

    closed spec fn view(&self) -> ProviderView {
        self.provider@
    }
}

impl NaoriAI {
    /// A client of the back-end with local models, at the given address.
    pub fn ollama(endpoint: String, model: String) -> (client: Self)
        ensures
            client@ == ProviderView::Ollama(
                OllamaClientView {
                    endpoint: endpoint@,
                    model: model@,
                    tools: Seq::empty(),
                    debug_mode: false,
                },
            ),
    {
        Self { provider: Provider::Ollama(OllamaClient::new(endpoint, model)) }
    }

    /// A client of the back-end with content blocks.
    pub fn anthropic(api_key: String, model: String) -> (client: Self)
        ensures
            client@ == ProviderView::Anthropic(
                AnthropicClientView { api_key: api_key@, model: model@, tools: Seq::empty() },
            ),
    {
        Self { provider: Provider::Anthropic(AnthropicClient::new(api_key, model)) }
    }

    /// A client of the back-end with choices and deltas, at its default
    /// address.
    pub fn openai(api_key: String, model: String) -> (client: Self)
        ensures
            client@ == ProviderView::OpenAI(
                OpenAIClientView {
                    api_key: api_key@,
                    model: model@,
                    tools: Seq::empty(),
                    base_url: DEFAULT_BASE_URL@,
                },
            ),
    {
        Self { provider: Provider::OpenAI(OpenAIClient::new(api_key, model)) }
    }

    /// A client of the relay that speaks the protocol with choices and
    /// deltas.
    pub fn openrouter(api_key: String, model: String) -> (client: Self)
        ensures
            client@ == ProviderView::OpenAI(
                OpenAIClientView {
                    api_key: api_key@,
                    model: model@,
                    tools: Seq::empty(),
                    base_url: OPENROUTER_BASE_URL@,
                },
            ),
    {
        Self::openai_custom(api_key, model, OPENROUTER_BASE_URL.to_owned())
    }

    /// A client of any back-end that speaks the protocol with choices and
    /// deltas, at the given address.
    pub fn openai_custom(api_key: String, model: String, base_url: String) -> (client: Self)
        ensures
            client@ == ProviderView::OpenAI(
                OpenAIClientView {
                    api_key: api_key@,
                    model: model@,
                    tools: Seq::empty(),
                    base_url: base_url@,
                },
            ),
    {
        Self { provider: Provider::OpenAI(OpenAIClient::with_base_url(api_key, model, base_url)) }
    }

    /// The client of the back-end.
    pub fn provider(&self) -> (provider: &Provider)
        ensures
            provider@ == self@,
    {
        &self.provider
    }

    /// Adds a tool behind the others.
    pub fn add_tool(&mut self, tool: Tool)
        ensures
            final(self)@ == old(self)@.with_tool(tool@),
    {
        match &mut self.provider {
            Provider::Ollama(client) => client.add_tool(tool),
            Provider::Anthropic(client) => {
                client.add_tool(tool);
            },
            Provider::OpenAI(client) => client.add_tool(tool),
        }
    }

    /// Whether the model calls tools natively.
    pub fn supports_tool_calls(&self, model_info: Option<&ModelInfo>) -> (supported: bool)
        ensures
            supported == self@.supports_tools(template_of(model_info)),
    {
        match &self.provider {
            Provider::Ollama(client) => match model_info {
                Some(info) => client.supports_tool_calls(info),
                None => false,
            },
            Provider::Anthropic(client) => client.supports_tool_calls(),
            Provider::OpenAI(client) => client.supports_tool_calls(),
        }
    }

    /// Whether the fallback protocol is in use: there are tools, and the
    /// model does not call tools natively.
    pub fn is_fallback_mode(&self, model_info: Option<&ModelInfo>) -> (fallback: bool)
        ensures
            fallback == self@.fallback(template_of(model_info)),
    {
        match &self.provider {
            Provider::Ollama(client) => client.is_fallback_mode(model_info),
            Provider::Anthropic(client) => client.is_fallback_mode(),
            Provider::OpenAI(client) => client.is_fallback_mode(),
        }
    }

    /// What the model can do. Every back-end takes images.
    pub fn capabilities(&self, model_info: Option<&ModelInfo>) -> (capabilities:
        ProviderCapabilities)
        ensures
            capabilities.supports_vision,
            capabilities.supports_tools == self@.supports_tools(template_of(model_info)),
    {
        match &self.provider {
            Provider::Ollama(client) => client.capabilities(model_info),
            Provider::Anthropic(client) => client.capabilities(),
            Provider::OpenAI(client) => client.capabilities(),
        }
    }

    /// Turns the debug mode on or off, for the back-end that has one.
    pub fn set_debug_mode(&mut self, debug: bool)
        ensures
            final(self)@ == match old(self)@ {
                ProviderView::Ollama(client) => ProviderView::Ollama(
                    OllamaClientView { debug_mode: debug, ..client },
                ),
                other => other,
            },
    {
        match &mut self.provider {
            Provider::Ollama(client) => client.set_debug_mode(debug),
            Provider::Anthropic(client) => client.set_debug_mode(debug),
            Provider::OpenAI(client) => client.set_debug_mode(debug),
        }
    }

    /// Whether the debug mode is on.
    pub fn debug_mode(&self) -> (debug: bool)
        ensures
            debug == self@.debug_mode(),
    {
        match &self.provider {
            Provider::Ollama(client) => client.debug_mode(),
            Provider::Anthropic(client) => client.debug_mode(),
            Provider::OpenAI(client) => client.debug_mode(),
        }
    }

    /// The name of the model.
    pub fn model(&self) -> (model: &str)
        ensures
            model@ == self@.model(),
    {
        match &self.provider {
            Provider::Ollama(client) => client.model_name().as_str(),
            Provider::Anthropic(client) => client.model_name().as_str(),
            Provider::OpenAI(client) => client.model_name().as_str(),
        }
    }

    /// The client of the back-end with local models, if this is one.
    pub fn as_ollama(&self) -> (client: Option<&OllamaClient>)
        ensures
            match client {
                Some(inner) => self@ == ProviderView::Ollama(inner@),
                None => !(self@ is Ollama),
            },
    {
        match &self.provider {
            Provider::Ollama(client) => Some(client),
            Provider::Anthropic(_) => None,
            Provider::OpenAI(_) => None,
        }
    }

    /// The client of the back-end with content blocks, if this is one.
    pub fn as_anthropic(&self) -> (client: Option<&AnthropicClient>)
        ensures
            match client {
                Some(inner) => self@ == ProviderView::Anthropic(inner@),
                None => !(self@ is Anthropic),
            },
    {
        match &self.provider {
            Provider::Ollama(_) => None,
            Provider::Anthropic(client) => Some(client),
            Provider::OpenAI(_) => None,
        }
    }

    /// The client of the back-end with local models, if this is one, for
    /// changing it.
    pub fn as_ollama_mut(&mut self) -> (client: Option<&mut OllamaClient>)
        ensures
            match client {
                Some(inner) => old(self)@ == ProviderView::Ollama(inner@) && final(self)@
                    == ProviderView::Ollama(final(inner)@),
                None => !(old(self)@ is Ollama) && final(self)@ == old(self)@,
            },
    {
        match &mut self.provider {
            Provider::Ollama(client) => Some(client),
            Provider::Anthropic(_) => None,
            Provider::OpenAI(_) => None,
        }
    }

    /// The client of the back-end with content blocks, if this is one, for
    /// changing it.
    pub fn as_anthropic_mut(&mut self) -> (client: Option<&mut AnthropicClient>)
        ensures
            match client {
                Some(inner) => old(self)@ == ProviderView::Anthropic(inner@) && final(self)@
                    == ProviderView::Anthropic(final(inner)@),
                None => !(old(self)@ is Anthropic) && final(self)@ == old(self)@,
            },
    {
        match &mut self.provider {
            Provider::Ollama(_) => None,
            Provider::Anthropic(client) => Some(client),
            Provider::OpenAI(_) => None,
        }
    }

    /// Answers tool calls: the result of each call of a registered tool goes
    /// back as a message, in the way of the back-end.
    pub fn handle_tool_calls<R: ToolRunner>(
        &self,
        tool_calls: Vec<ToolCall>,
        runner: &R,
        model_info: Option<&ModelInfo>,
    ) -> (messages: Vec<Message>)
        ensures
            exists|results: Seq<Option<Seq<char>>>|
                {
                    &&& results.len() == tool_calls.len()
                    &&& forall|i: int|
                        0 <= i < tool_calls.len() ==> ((#[trigger] results[i]) is Some) == (
                        tool_from(tool_names(self@.tools()), tool_calls@[i].function.name@, 0)
                            is Some)
                    &&& messages.deep_view() == responses_upto(
                        response_style(self@, template_of(model_info)),
                        tool_calls.deep_view(),
                        results,
                        tool_calls.len() as int,
                    )
                },
    {
        match &self.provider {
            Provider::Ollama(client) => client.handle_tool_calls(
                tool_calls,
                runner,
                client.is_fallback_mode(model_info),
            ),
            Provider::Anthropic(client) => client.handle_tool_calls(tool_calls, runner),
            Provider::OpenAI(client) => client.handle_tool_calls(tool_calls, runner),
        }
    }

    /// Takes a complete response apart. In the fallback protocol the spans
    /// are removed from what is shown and read as tool calls; else the content
    /// is returned as it is, without tool calls.
    pub fn process_fallback_response(&self, content: &str, model_info: Option<&ModelInfo>) -> (parts:
        (String, Option<Vec<ToolCall>>))
        ensures
            self@.fallback(template_of(model_info)) ==> parts.0@ == visible(
                TOOL_CALL_OPEN@,
                TOOL_CALL_CLOSE@,
                content@,
            ) && parts.1.deep_view() == fallback_calls(content@),
            !self@.fallback(template_of(model_info)) ==> parts.0@ == content@ && parts.1 is None,
    {
        match &self.provider {
            Provider::Ollama(client) => client.process_fallback_response(
                content,
                client.is_fallback_mode(model_info),
            ),
            Provider::Anthropic(client) => client.process_fallback_response(content),
            Provider::OpenAI(client) => client.process_fallback_response(content),
        }
    }

    /// The processor for the response to a chat request.
    pub fn stream_processor(&self, model_info: Option<&ModelInfo>) -> (stream: ProviderStream)
        ensures
            match stream {
                ProviderStream::Ollama(processor) => self@ is Ollama && processor@.valid()
                    && processor@.carry == Seq::<u8>::empty() && processor@.handler
                    == crate::providers::ollama::stream::initial_line_state(
                    self@.fallback(template_of(model_info)),
                    self@.debug_mode(),
                ),
                ProviderStream::Anthropic(processor) => self@ is Anthropic && processor@.valid()
                    && processor@.carry == Seq::<u8>::empty() && processor@.handler
                    == crate::items::initial_state(),
                ProviderStream::OpenAI(processor) => self@ is OpenAI && processor@.valid()
                    && processor@.carry == Seq::<u8>::empty() && processor@.handler
                    == crate::items::initial_state(),
            },
    {
        match &self.provider {
            Provider::Ollama(client) => ProviderStream::Ollama(
                client.stream_processor(client.is_fallback_mode(model_info)),
            ),
            Provider::Anthropic(_) => ProviderStream::Anthropic(AnthropicStreamProcessor::new()),
            Provider::OpenAI(_) => ProviderStream::OpenAI(OpenAIStreamProcessor::new()),
        }
    }

    /// The conversation that asks for the completion of a prompt.
    pub fn prompt_messages(prompt: &str) -> (messages: Vec<Message>)
        ensures
            messages.deep_view() == prompt_conversation(prompt@),
    {
        let mut messages: Vec<Message> = Vec::new();
        messages.push(
            Message {
                role: "user".to_owned(),
                content: prompt.to_owned(),
                images: None,
                tool_calls: None,
            },
        );
        assert(messages.deep_view() =~= prompt_conversation(prompt@));
        messages
    }

    /// The models of a back-end as models of any back-end, in order.
    pub fn get_available_models(listing: ModelListing) -> (models: Vec<MonoModel>)
        ensures
            models.len() == match listing {
                ModelListing::Ollama(list) => list.len(),
                ModelListing::Anthropic(list) => list.len(),
                ModelListing::OpenAI(list) => list.len(),
            },
            forall|i: int|
                0 <= i < models.len() ==> (#[trigger] models@[i]).provider@ == match listing {
                    ModelListing::Ollama(_) => "Ollama"@,
                    ModelListing::Anthropic(_) => "Anthropic"@,
                    ModelListing::OpenAI(_) => "OpenAI"@,
                },
            forall|i: int|
                0 <= i < models.len() ==> (#[trigger] models@[i]).id@ == match listing {
                    ModelListing::Ollama(list) => list@[i].name@,
                    ModelListing::Anthropic(list) => list@[i].id@,
                    ModelListing::OpenAI(list) => list@[i].id@,
                },
            forall|i: int|
                0 <= i < models.len() ==> (#[trigger] models@[i]).name@ == match listing {
                    ModelListing::Ollama(list) => list@[i].name@,
                    ModelListing::Anthropic(list) => list@[i].display_name@,
                    ModelListing::OpenAI(list) => list@[i].id@,
                },
            forall|i: int|
                0 <= i < models.len() ==> (#[trigger] models@[i]).size == match listing {
                    ModelListing::Ollama(list) => Some(list@[i].size),
                    _ => None,
                },
            forall|i: int|
                0 <= i < models.len() ==> (#[trigger] models@[i]).created == match listing {
                    ModelListing::Ollama(_) => None,
                    ModelListing::Anthropic(list) => Some(
                        crate::providers::anthropic::client::created_of(list@[i].created_at@),
                    ),
                    ModelListing::OpenAI(list) => Some(list@[i].created),
                },
    {
        let mut models: Vec<MonoModel> = Vec::new();
        match listing {
            ModelListing::Ollama(mut list) => {
                let ghost all = list@;
                while list.len() > 0
                    invariant
                        models@.len() + list@.len() == all.len(),
                        list@ == all.skip(models@.len() as int),
                        forall|i: int|
                            0 <= i < models@.len() ==> {
                                &&& (#[trigger] models@[i]).provider@ == "Ollama"@
                                &&& models@[i].id@ == all[i].name@
                                &&& models@[i].name@ == all[i].name@
                                &&& models@[i].size == Some(all[i].size)
                                &&& models@[i].created is None
                            },
                    decreases list.len(),
                {
                    let model = list.remove(0);
                    assert(model == all[models@.len() as int]);
                    assert(list@ =~= all.skip(models@.len() as int + 1));
                    models.push(OllamaClient::mono_model(model));
                }
            },
            ModelListing::Anthropic(mut list) => {
                let ghost all = list@;
                while list.len() > 0
                    invariant
                        models@.len() + list@.len() == all.len(),
                        list@ == all.skip(models@.len() as int),
                        forall|i: int|
                            0 <= i < models@.len() ==> {
                                &&& (#[trigger] models@[i]).provider@ == "Anthropic"@
                                &&& models@[i].id@ == all[i].id@
                                &&& models@[i].name@ == all[i].display_name@
                                &&& models@[i].size is None
                                &&& models@[i].created == Some(
                                    crate::providers::anthropic::client::created_of(
                                        all[i].created_at@,
                                    ),
                                )
                            },
                    decreases list.len(),
                {
                    let model = list.remove(0);
                    assert(model == all[models@.len() as int]);
                    assert(list@ =~= all.skip(models@.len() as int + 1));
                    models.push(AnthropicClient::mono_model(model));
                }
            },
            ModelListing::OpenAI(mut list) => {
                let ghost all = list@;
                while list.len() > 0
                    invariant
                        models@.len() + list@.len() == all.len(),
                        list@ == all.skip(models@.len() as int),
                        forall|i: int|
                            0 <= i < models@.len() ==> {
                                &&& (#[trigger] models@[i]).provider@ == "OpenAI"@
                                &&& models@[i].id@ == all[i].id@
                                &&& models@[i].name@ == all[i].id@
                                &&& models@[i].size is None
                                &&& models@[i].created == Some(all[i].created)
                            },
                    decreases list.len(),
                {
                    let model = list.remove(0);
                    assert(model == all[models@.len() as int]);
                    assert(list@ =~= all.skip(models@.len() as int + 1));
                    models.push(OpenAIClient::mono_model(model));
                }
            },
        }
        models
    }

    /// Why the back-end refuses an operation, if it does.
    pub fn management_refusal(&self, operation: ManagementOperation) -> (message: Option<String>)
        ensures
            message.deep_view() == refusal(self@, operation),
    {
        let provider = match &self.provider {
            Provider::Ollama(_) => {
                return None;
            },
            Provider::Anthropic(_) => "Anthropic",
            Provider::OpenAI(_) => "OpenAI",
        };
        let mut message = String::from_str(
            match operation {
                ManagementOperation::ListLocalModels => "list_local_models",
                ManagementOperation::ShowModelInfo => "show_model_info",
                ManagementOperation::PullModel => "pull_model",
                ManagementOperation::PullModelStream => "pull_model_stream",
            },
        );
        match operation {
            ManagementOperation::ListLocalModels => {
                message.append(" is only supported for Ollama provider");
            },
            _ => {
                message.append(" is not supported for ");
                message.append(provider);
                message.append(" provider");
            },
        }
        Some(message)
    }

    /// The base64 text of the bytes of an image. Returns `None` for more
    /// bytes than half of what `usize` can count, and for those alone.
    pub fn encode_image_data(&self, bytes: &[u8]) -> (text: Option<String>)
        ensures
            text.deep_view() == if bytes@.len() <= usize::MAX / 2 {
                Some(base64_text(bytes@))
            } else {
                None
            },
    {
        encode_image_data(bytes)
    }
}

} // verus!
