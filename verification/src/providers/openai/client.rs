//! The client side of the protocol with choices and deltas: what is sent.
use super::types::{
    OpenAIFunction, OpenAIFunctionView, OpenAIMessage, OpenAIMessageView, OpenAIModel,
    OpenAIRequest, OpenAIRequestView, OpenAIStreamOptions, OpenAITool, OpenAIToolCall,
    OpenAIToolCallView, OpenAIToolFunction, OpenAIToolView,
};
use crate::fallback::contains_text;
use crate::json::{json_text, Json, JsonView};
use crate::pattern::first_from;
use crate::text::str_eq;
use crate::tools::{
    answer_tool_calls, decode_tool_result, decoded_result, responses_upto, tool_from, tool_names,
    ResponseStyle, ToolRunner,
};
use crate::types::{
    Message, MessageView, MonoModel, ProviderCapabilities, Tool, ToolCall, ToolCallView, ToolView,
};
use vstd::prelude::*;
use vstd::string::StringExecFns;

verus! {

/// The id that a call without id is sent with.
pub const GENERATED_CALL_ID: &'static str = "call_generated_id";

/// The number of tokens that a response may have.
pub const MAX_TOKENS: u32 = 4096;

/// Where requests go unless another base address is given.
pub const DEFAULT_BASE_URL: &'static str = "https://api.openai.com/v1";

/// What begins the address of an image given as base64 text.
pub const IMAGE_URL_PREFIX: &'static str = "data:image/jpeg;base64,";

/// A tool call as this back-end takes it: its arguments are JSON text.
pub open spec fn converted_call(call: ToolCallView) -> OpenAIToolCallView {
    OpenAIToolCallView {
        id: Some(
            match call.id {
                Some(id) => id,
                None => GENERATED_CALL_ID@,
            },
        ),
        call_type: Some("function"@),
        function: OpenAIFunctionView {
            name: Some(call.function.name),
            arguments: Some(json_text(call.function.arguments)),
        },
    }
}

/// The part of a content that holds text.
pub open spec fn text_part(text: Seq<char>) -> JsonView {
    JsonView::Object(seq![("type"@, JsonView::Str("text"@)), ("text"@, JsonView::Str(text))])
}

/// The part of a content that holds an image, given as base64 text.
pub open spec fn image_part(image: Seq<char>) -> JsonView {
    JsonView::Object(
        seq![
            ("type"@, JsonView::Str("image_url"@)),
            (
                "image_url"@,
                JsonView::Object(seq![("url"@, JsonView::Str(IMAGE_URL_PREFIX@ + image))]),
            ),
        ],
    )
}

/// The content of a message: a list of parts, the text first if there is
/// any and then the images, for a message with images; else the text.
pub open spec fn converted_content(message: MessageView) -> JsonView {
    match message.images {
        Some(images) => if images.len() > 0 {
            JsonView::Array(
                (if message.content.len() > 0 {
                    seq![text_part(message.content)]
                } else {
                    Seq::empty()
                }) + Seq::new(images.len(), |i: int| image_part(images[i])),
            )
        } else {
            JsonView::Str(message.content)
        },
        None => JsonView::Str(message.content),
    }
}

/// A message as this back-end takes it. A tool message gives its result
/// and, if its content carries one, the id of the call. Any other message
/// gives its content and its tool calls.
pub open spec fn converted_message(message: MessageView) -> OpenAIMessageView {
    if message.role == "tool"@ {
        match decoded_result(message.content) {
            Some(parts) => OpenAIMessageView {
                role: Some(message.role),
                content: Some(JsonView::Str(parts.1)),
                tool_calls: None,
                tool_call_id: Some(parts.0),
            },
            None => OpenAIMessageView {
                role: Some(message.role),
                content: Some(JsonView::Str(message.content)),
                tool_calls: None,
                tool_call_id: None,
            },
        }
    } else {
        OpenAIMessageView {
            role: Some(message.role),
            content: Some(converted_content(message)),
            tool_calls: match message.tool_calls {
                Some(calls) => Some(Seq::new(calls.len(), |i: int| converted_call(calls[i]))),
                None => None,
            },
            tool_call_id: None,
        }
    }
}

/// A tool as this back-end takes it: the schema of its parameters, if it
/// is an object, says that no other parameter is allowed.
pub open spec fn converted_tool(tool: ToolView) -> OpenAIToolView {
    OpenAIToolView {
        tool_type: "function"@,
        name: tool.name,
        description: tool.description,
        parameters: tool.parameters.with_member("additionalProperties"@, JsonView::Bool(false)),
    }
}

/// Whether a model takes the limit of the response as
/// `max_completion_tokens`: its name holds `o1` or `gpt-5`.
pub open spec fn limits_completion(model: Seq<char>) -> bool {
    first_from("o1"@, model, 0) is Some || first_from("gpt-5"@, model, 0) is Some
}

/// The request for a streamed response to the messages.
pub open spec fn request_for(model: Seq<char>, tools: Seq<ToolView>, messages: Seq<MessageView>)
    -> OpenAIRequestView {
    OpenAIRequestView {
        model,
        messages: Seq::new(messages.len(), |i: int| converted_message(messages[i])),
        max_tokens: if limits_completion(model) {
            None
        } else {
            Some(MAX_TOKENS)
        },
        max_completion_tokens: if limits_completion(model) {
            Some(MAX_TOKENS)
        } else {
            None
        },
        tools: if tools.len() == 0 {
            None
        } else {
            Some(Seq::new(tools.len(), |i: int| converted_tool(tools[i])))
        },
        stream: Some(true),
        stream_options: Some(OpenAIStreamOptions { include_usage: true }),
    }
}

/// The client of this back-end, as contracts see it.
pub struct OpenAIClientView {
    pub api_key: Seq<char>,
    pub model: Seq<char>,
    pub tools: Seq<ToolView>,
    pub base_url: Seq<char>,
}

/// What a conversation with this back-end needs: the key, the model, the
/// tools and the base address.
pub struct OpenAIClient {
    api_key: String,
    pub model: String,
    tools: Vec<Tool>,
    base_url: String,
}

impl View for OpenAIClient {
    type V = OpenAIClientView;

    closed spec fn view(&self) -> OpenAIClientView {
        OpenAIClientView {
            api_key: self.api_key@,
            model: self.model@,
            tools: self.tools.deep_view(),
            base_url: self.base_url@,
        }
    }
}

fn member(key: &str, value: Json) -> (pair: (String, Json))
    ensures
        pair.deep_view() == (key@, value@),
{
    (key.to_owned(), value)
}

fn make_text_part(text: &str) -> (part: Json)
    ensures
        part@ == text_part(text@),
{
    let mut members: Vec<(String, Json)> = Vec::new();
    members.push(member("type", Json::string("text")));
    members.push(member("text", Json::string(text)));
    assert(members.deep_view() =~= seq![
        ("type"@, JsonView::Str("text"@)),
        ("text"@, JsonView::Str(text@)),
    ]);
    Json::object(members)
}

fn make_image_part(image: &str) -> (part: Json)
    ensures
        part@ == image_part(image@),
{
    let mut url = String::from_str(IMAGE_URL_PREFIX);
    url.append(image);
    let mut inner: Vec<(String, Json)> = Vec::new();
    inner.push(member("url", Json::string(url.as_str())));
    assert(inner.deep_view() =~= seq![("url"@, JsonView::Str(IMAGE_URL_PREFIX@ + image@))]);
    let mut members: Vec<(String, Json)> = Vec::new();
    members.push(member("type", Json::string("image_url")));
    members.push(member("image_url", Json::object(inner)));
    assert(members.deep_view() =~= seq![
        ("type"@, JsonView::Str("image_url"@)),
        ("image_url"@, JsonView::Object(seq![("url"@, JsonView::Str(IMAGE_URL_PREFIX@ + image@))])),
    ]);
    Json::object(members)
}

fn make_content(message: &Message) -> (content: Json)
    ensures
        content@ == converted_content(message@),
{
    match &message.images {
        Some(images) => {
            if images.len() > 0 {
                let mut parts: Vec<Json> = Vec::new();
                if message.content.as_str().unicode_len() > 0 {
                    parts.push(make_text_part(message.content.as_str()));
                }
                let ghost first = parts.deep_view();
                assert(first =~= if message@.content.len() > 0 {
                    seq![text_part(message@.content)]
                } else {
                    Seq::empty()
                });
                let mut i: usize = 0;
                while i < images.len()
                    invariant
                        i <= images.len(),
                        parts@.len() == first.len() + i,
                        forall|k: int| 0 <= k < first.len() ==> (#[trigger] parts@[k])@ == first[k],
                        forall|k: int|
                            first.len() <= k < first.len() + i ==> (#[trigger] parts@[k])@
                                == image_part(images@[k - first.len()]@),
                    decreases images.len() - i,
                {
                    parts.push(make_image_part(images[i].as_str()));
                    i += 1;
                }
                assert(message@.images == Some(images.deep_view()));
                assert forall|k: int| 0 <= k < images.len() implies (
                #[trigger] images.deep_view()[k]) == images@[k]@ by {}
                assert(parts.deep_view() =~= first + Seq::new(
                    images.len() as nat,
                    |i: int| image_part(images.deep_view()[i]),
                ));
                assert(images.deep_view().len() > 0);
                Json::array(parts)
            } else {
                assert(message@.images == Some(images.deep_view()));
                assert(images.deep_view().len() == 0);
                Json::string(message.content.as_str())
            }
        },
        None => Json::string(message.content.as_str()),
    }
}

impl OpenAIClient {
    /// A client without tools, for the default base address.
    pub fn new(api_key: String, model: String) -> (client: Self)
        ensures
            client@.api_key == api_key@,
            client@.model == model@,
            client@.tools == Seq::<ToolView>::empty(),
            client@.base_url == DEFAULT_BASE_URL@,
    {
        Self::with_base_url(api_key, model, DEFAULT_BASE_URL.to_owned())
    }

    /// A client without tools, for the given base address.
    pub fn with_base_url(api_key: String, model: String, base_url: String) -> (client: Self)
        ensures
            client@.api_key == api_key@,
            client@.model == model@,
            client@.tools == Seq::<ToolView>::empty(),
            client@.base_url == base_url@,
    {
        let client = Self { api_key, model, tools: Vec::new(), base_url };
        assert(client@.tools =~= Seq::<ToolView>::empty());
        client
    }

    /// Changes the base address.
    pub fn set_base_url(&mut self, base_url: String)
        ensures
            final(self)@ == (OpenAIClientView { base_url: base_url@, ..old(self)@ }),
    {
        self.base_url = base_url;
    }

    /// The base address.
    pub fn base_url(&self) -> (url: &String)
        ensures
            url@ == self@.base_url,
    {
        &self.base_url
    }

    /// The key that requests are sent with.
    pub fn api_key(&self) -> (key: &String)
        ensures
            key@ == self@.api_key,
    {
        &self.api_key
    }

    /// The name of the model.
    pub fn model_name(&self) -> (model: &String)
        ensures
            model@ == self@.model,
    {
        &self.model
    }

    /// The tools, in the order in which they were added.
    pub fn tools(&self) -> (tools: &Vec<Tool>)
        ensures
            tools.deep_view() == self@.tools,
    {
        &self.tools
    }

    /// Adds a tool behind the others.
    pub fn add_tool(&mut self, tool: Tool)
        ensures
            final(self)@ == (OpenAIClientView {
                tools: old(self)@.tools.push(tool@),
                ..old(self)@
            }),
    {
        self.tools.push(tool);
        assert(self@.tools =~= old(self)@.tools.push(tool@));
    }

    /// This back-end calls tools natively: the fallback protocol is never in
    /// use.
    pub fn is_fallback_mode(&self) -> (fallback: bool)
        ensures
            !fallback,
    {
        false
    }

    /// This back-end has no debug mode: nothing changes.
    pub fn set_debug_mode(&mut self, _debug: bool)
        ensures
            final(self)@ == old(self)@,
    {
    }

    /// This back-end has no debug mode.
    pub fn debug_mode(&self) -> (debug: bool)
        ensures
            !debug,
    {
        false
    }

    /// The models of this back-end call tools natively.
    pub fn supports_tool_calls(&self) -> (supported: bool)
        ensures
            supported,
    {
        true
    }

    /// The models of this back-end call tools and take images.
    pub fn capabilities(&self) -> (capabilities: ProviderCapabilities)
        ensures
            capabilities.supports_tools,
            capabilities.supports_vision,
    {
        ProviderCapabilities { supports_tools: true, supports_vision: true }
    }

    fn convert_call(call: &ToolCall) -> (converted: OpenAIToolCall)
        ensures
            converted@ == converted_call(call@),
    {
        OpenAIToolCall {
            id: Some(
                match &call.id {
                    Some(id) => id.clone(),
                    None => GENERATED_CALL_ID.to_owned(),
                },
            ),
            call_type: Some("function".to_owned()),
            function: OpenAIFunction {
                name: Some(call.function.name.clone()),
                arguments: Some(call.function.arguments.to_text()),
            },
        }
    }

    /// A message as this back-end takes it.
    pub fn convert_to_openai_message(&self, message: &Message) -> (converted: OpenAIMessage)
        ensures
            converted@ == converted_message(message@),
    {
        if str_eq(message.role.as_str(), "tool") {
            return match decode_tool_result(message.content.as_str()) {
                Some((id, result)) => OpenAIMessage {
                    role: Some(message.role.clone()),
                    content: Some(Json::Str(result)),
                    tool_calls: None,
                    tool_call_id: Some(id),
                },
                None => OpenAIMessage {
                    role: Some(message.role.clone()),
                    content: Some(Json::Str(message.content.clone())),
                    tool_calls: None,
                    tool_call_id: None,
                },
            };
        }
        let tool_calls = match &message.tool_calls {
            Some(calls) => {
                let mut converted: Vec<OpenAIToolCall> = Vec::new();
                let mut i: usize = 0;
                while i < calls.len()
                    invariant
                        i <= calls.len(),
                        converted@.len() == i,
                        forall|k: int|
                            0 <= k < i ==> (#[trigger] converted@[k])@ == converted_call(calls@[k]@),
                    decreases calls.len() - i,
                {
                    converted.push(Self::convert_call(&calls[i]));
                    i += 1;
                }
                assert(message@.tool_calls == Some(calls.deep_view()));
                assert forall|k: int| 0 <= k < calls.len() implies (#[trigger] calls.deep_view()[k])
                    == calls@[k]@ by {}
                assert(converted.deep_view() =~= Seq::new(
                    calls.len() as nat,
                    |i: int| converted_call(calls.deep_view()[i]),
                ));
                Some(converted)
            },
            None => None,
        };
        OpenAIMessage {
            role: Some(message.role.clone()),
            content: Some(make_content(message)),
            tool_calls,
            tool_call_id: None,
        }
    }

    /// The tools as this back-end takes them.
    pub fn convert_tools_to_openai(&self) -> (converted: Vec<OpenAITool>)
        ensures
            converted.deep_view() == Seq::new(
                self@.tools.len(),
                |i: int| converted_tool(self@.tools[i]),
            ),
    {
        let mut converted: Vec<OpenAITool> = Vec::new();
        let mut i: usize = 0;
        while i < self.tools.len()
            invariant
                i <= self.tools.len(),
                converted@.len() == i,
                forall|k: int|
                    0 <= k < i ==> (#[trigger] converted@[k])@ == converted_tool(self.tools@[k]@),
            decreases self.tools.len() - i,
        {
            let tool = &self.tools[i];
            converted.push(
                OpenAITool {
                    tool_type: "function".to_owned(),
                    function: OpenAIToolFunction {
                        name: tool.name.clone(),
                        description: tool.description.clone(),
                        parameters: tool.parameters.duplicate().with_member(
                            "additionalProperties",
                            Json::Bool(false),
                        ),
                    },
                },
            );
            i += 1;
        }
        assert(converted.deep_view() =~= Seq::new(
            self@.tools.len(),
            |i: int| converted_tool(self@.tools[i]),
        ));
        converted
    }

    /// The request for a streamed response to the messages.
    pub fn build_request(&self, messages: &[Message]) -> (request: OpenAIRequest)
        ensures
            request@ == request_for(self@.model, self@.tools, messages.deep_view()),
    {
        let mut converted: Vec<OpenAIMessage> = Vec::new();
        let mut i: usize = 0;
        while i < messages.len()
            invariant
                i <= messages.len(),
                converted@.len() == i,
                forall|k: int|
                    0 <= k < i ==> (#[trigger] converted@[k])@ == converted_message(messages@[k]@),
            decreases messages.len() - i,
        {
            converted.push(self.convert_to_openai_message(&messages[i]));
            i += 1;
        }
        let tools = if self.tools.len() == 0 {
            None
        } else {
            Some(self.convert_tools_to_openai())
        };
        let limited = contains_text(self.model.as_str(), "o1") || contains_text(
            self.model.as_str(),
            "gpt-5",
        );
        let request = OpenAIRequest {
            model: self.model.clone(),
            messages: converted,
            max_tokens: if limited {
                None
            } else {
                Some(MAX_TOKENS)
            },
            max_completion_tokens: if limited {
                Some(MAX_TOKENS)
            } else {
                None
            },
            tools,
            stream: Some(true),
            stream_options: Some(OpenAIStreamOptions { include_usage: true }),
        };
        assert(request@.messages =~= request_for(
            self@.model,
            self@.tools,
            messages.deep_view(),
        ).messages);
        request
    }

    /// Answers tool calls: the result of each call of a registered tool goes
    /// back as a tool message that carries the id of the call.
    pub fn handle_tool_calls<R: ToolRunner>(&self, tool_calls: Vec<ToolCall>, runner: &R) -> (messages:
        Vec<Message>)
        ensures
            exists|results: Seq<Option<Seq<char>>>|
                {
                    &&& results.len() == tool_calls.len()
                    &&& forall|i: int|
                        0 <= i < tool_calls.len() ==> ((#[trigger] results[i]) is Some) == (
                        tool_from(tool_names(self@.tools), tool_calls@[i].function.name@, 0)
                            is Some)
                    &&& messages.deep_view() == responses_upto(
                        ResponseStyle::EncodedForTool,
                        tool_calls.deep_view(),
                        results,
                        tool_calls.len() as int,
                    )
                },
    {
        answer_tool_calls(
            ResponseStyle::EncodedForTool,
            self.tools.as_slice(),
            tool_calls.as_slice(),
            runner,
        )
    }

    /// This back-end needs no fallback: the content is returned as it is,
    /// without tool calls.
    pub fn process_fallback_response(&self, content: &str) -> (parts: (String, Option<Vec<ToolCall>>))
        ensures
            parts.0@ == content@,
            parts.1 is None,
    {
        (content.to_owned(), None)
    }

    /// A model of this back-end as one of any back-end.
    pub fn mono_model(model: OpenAIModel) -> (mono: MonoModel)
        ensures
            mono.id@ == model.id@,
            mono.name@ == model.id@,
            mono.provider@ == "OpenAI"@,
            mono.size is None,
            mono.created == Some(model.created),
    {
        MonoModel {
            id: model.id.clone(),
            name: model.id,
            provider: "OpenAI".to_owned(),
            size: None,
            created: Some(model.created),
        }
    }
}

} // verus!
