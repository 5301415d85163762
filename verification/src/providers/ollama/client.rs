//! The client side of the line protocol: what is sent, and what the side
//! channels of the back-end answer.
use super::stream::OllamaStreamProcessor;
use super::types::Model;
use crate::fallback::{
    fallback_calls, fallback_in_use, template_names_tools, tool_context, with_tool_context,
    FallbackToolHandler,
};
use crate::filter::{visible, TOOL_CALL_CLOSE, TOOL_CALL_OPEN};
use crate::json::{json_error_of_bytes, json_of_bytes, parse_json, Json, JsonView};
use crate::providers::ollama::stream::initial_line_state;
use crate::framing::line_separator;
use crate::stream::StreamView;
use crate::text::{string_of_bytes, text_of_bytes};
use crate::tools::{
    answer_tool_calls, responses_upto, tool_from, tool_names, ResponseStyle, ToolRunner,
};
use crate::types::{
    Message, MessageView, ModelInfo, MonoModel, ProviderCapabilities, PullProgress, Tool, ToolCall,
    ToolCallView, ToolView,
};
use vstd::prelude::*;
use vstd::string::StringExecFns;

verus! {

/// A tool as this back-end takes it.
pub open spec fn tool_json(tool: ToolView) -> JsonView {
    JsonView::Object(
        seq![
            ("type"@, JsonView::Str("function"@)),
            (
                "function"@,
                JsonView::Object(
                    seq![
                        ("name"@, JsonView::Str(tool.name)),
                        ("description"@, JsonView::Str(tool.description)),
                        ("parameters"@, tool.parameters),
                    ],
                ),
            ),
        ],
    )
}

/// A tool call as this back-end takes it: the id if there is one, then the
/// function with its name and its arguments.
pub open spec fn call_json(call: ToolCallView) -> JsonView {
    let function = (
        "function"@,
        JsonView::Object(
            seq![
                ("name"@, JsonView::Str(call.function.name)),
                ("arguments"@, call.function.arguments),
            ],
        ),
    );
    match call.id {
        Some(id) => JsonView::Object(seq![("id"@, JsonView::Str(id)), function]),
        None => JsonView::Object(seq![function]),
    }
}

/// The members that a message has besides its role and content: the
/// images and the tool calls, each only if the message has them.
pub open spec fn optional_members(message: MessageView) -> Seq<(Seq<char>, JsonView)> {
    (match message.images {
        Some(images) => seq![
            (
                "images"@,
                JsonView::Array(Seq::new(images.len(), |i: int| JsonView::Str(images[i]))),
            ),
        ],
        None => Seq::empty(),
    }) + (match message.tool_calls {
        Some(calls) => seq![
            ("tool_calls"@, JsonView::Array(Seq::new(calls.len(), |i: int| call_json(calls[i])))),
        ],
        None => Seq::empty(),
    })
}

/// A message as this back-end takes it.
pub open spec fn message_json(message: MessageView) -> JsonView {
    JsonView::Object(
        seq![("role"@, JsonView::Str(message.role)), ("content"@, JsonView::Str(message.content))]
            + optional_members(message),
    )
}

/// The body of a request for a streamed chat response: the model, the
/// messages, the tools unless there are none or the fallback protocol is in
/// use, and the options if there are any.
pub open spec fn chat_body(
    model: Seq<char>,
    tools: Seq<ToolView>,
    messages: Seq<MessageView>,
    fallback: bool,
    options: Option<JsonView>,
) -> JsonView {
    JsonView::Object(
        seq![
            ("model"@, JsonView::Str(model)),
            (
                "messages"@,
                JsonView::Array(Seq::new(messages.len(), |i: int| message_json(messages[i]))),
            ),
            ("stream"@, JsonView::Bool(true)),
        ] + (if !fallback && tools.len() > 0 {
            seq![("tools"@, JsonView::Array(Seq::new(tools.len(), |i: int| tool_json(tools[i]))))]
        } else {
            Seq::empty()
        }) + (match options {
            Some(options) => seq![("options"@, options)],
            None => Seq::empty(),
        }),
    )
}

/// The body of a request for a completion of a prompt.
pub open spec fn generate_body(
    model: Seq<char>,
    prompt: Seq<char>,
    stream: bool,
    options: Option<JsonView>,
) -> JsonView {
    JsonView::Object(
        seq![
            ("model"@, JsonView::Str(model)),
            ("prompt"@, JsonView::Str(prompt)),
            ("stream"@, JsonView::Bool(stream)),
        ] + (match options {
            Some(options) => seq![("options"@, options)],
            None => Seq::empty(),
        }),
    )
}

/// The messages that are sent: with the catalog of tools in them if the
/// fallback protocol is in use and there are tools.
pub open spec fn prepared_messages(
    tools: Seq<ToolView>,
    messages: Seq<MessageView>,
    fallback: bool,
) -> Seq<MessageView> {
    if fallback && tools.len() > 0 {
        with_tool_context(messages, tool_context(tools))
    } else {
        messages
    }
}

/// The progress that a line of the download channel reports. A line that
/// is JSON reports its members; any other line is itself the status.
pub open spec fn progress_of_line(line: Seq<u8>) -> PullProgressView {
    match json_of_bytes(line) {
        Some(report) => PullProgressView {
            status: match report.get_str("status"@) {
                Some(status) => status,
                None => Seq::empty(),
            },
            digest: report.get_str("digest"@),
            total: match report.get("total"@) {
                Some(total) => total.as_u64(),
                None => None,
            },
            completed: match report.get("completed"@) {
                Some(completed) => completed.as_u64(),
                None => None,
            },
        },
        None => PullProgressView {
            status: text_of_bytes(line),
            digest: None,
            total: None,
            completed: None,
        },
    }
}

/// A [`PullProgress`], as contracts see it.
pub struct PullProgressView {
    pub status: Seq<char>,
    pub digest: Option<Seq<char>>,
    pub total: Option<u64>,
    pub completed: Option<u64>,
}

impl View for PullProgress {
    type V = PullProgressView;

    open spec fn view(&self) -> PullProgressView {
        PullProgressView {
            status: self.status@,
            digest: self.digest.deep_view(),
            total: self.total,
            completed: self.completed,
        }
    }
}

impl DeepView for PullProgress {
    type V = PullProgressView;

    open spec fn deep_view(&self) -> PullProgressView {
        self@
    }
}

/// What a line of the completion channel gives: the text of its member
/// `response`, nothing if it has none, or an error for a line that is not
/// JSON.
pub open spec fn generated_of_line(line: Seq<u8>) -> Option<Result<Seq<char>, Seq<char>>> {
    match json_of_bytes(line) {
        Some(report) => match report.get_str("response"@) {
            Some(text) => Some(Ok(text)),
            None => None,
        },
        None => Some(Err("Parse error: "@ + json_error_of_bytes(line))),
    }
}

/// The text that the answer to a request for a completion holds: that of
/// its member `response`, or none.
pub open spec fn generated_text(answer: JsonView) -> Seq<char> {
    match answer.get_str("response"@) {
        Some(text) => text,
        None => Seq::empty(),
    }
}

fn member(key: &str, value: Json) -> (pair: (String, Json))
    ensures
        pair.deep_view() == (key@, value@),
{
    (key.to_owned(), value)
}

fn make_call_json(call: &ToolCall) -> (json: Json)
    ensures
        json@ == call_json(call@),
{
    let mut inner: Vec<(String, Json)> = Vec::new();
    inner.push(member("name", Json::string(call.function.name.as_str())));
    inner.push(member("arguments", call.function.arguments.duplicate()));
    assert(inner.deep_view() =~= seq![
        ("name"@, JsonView::Str(call@.function.name)),
        ("arguments"@, call@.function.arguments),
    ]);
    let mut members: Vec<(String, Json)> = Vec::new();
    match &call.id {
        Some(id) => {
            members.push(member("id", Json::string(id.as_str())));
        },
        None => {},
    }
    let ghost first = members.deep_view();
    let function = member("function", Json::object(inner));
    let ghost shown = function.deep_view();
    members.push(function);
    assert(members.deep_view() =~= first.push(shown));
    assert(first =~= match call@.id {
        Some(id) => seq![("id"@, JsonView::Str(id))],
        None => Seq::empty(),
    });
    let json = Json::object(members);
    assert(json@->Object_0 =~= call_json(call@)->Object_0);
    json
}

fn make_message_json(message: &Message) -> (json: Json)
    ensures
        json@ == message_json(message@),
{
    let mut members: Vec<(String, Json)> = Vec::new();
    members.push(member("role", Json::string(message.role.as_str())));
    members.push(member("content", Json::string(message.content.as_str())));
    let ghost head = members.deep_view();
    assert(head =~= seq![
        ("role"@, JsonView::Str(message@.role)),
        ("content"@, JsonView::Str(message@.content)),
    ]);
    match &message.images {
        Some(images) => {
            let mut list: Vec<Json> = Vec::new();
            let mut i: usize = 0;
            while i < images.len()
                invariant
                    i <= images.len(),
                    list@.len() == i,
                    forall|k: int| 0 <= k < i ==> (#[trigger] list@[k])@ == JsonView::Str(images@[k]@),
                decreases images.len() - i,
            {
                list.push(Json::string(images[i].as_str()));
                i += 1;
            }
            assert(message@.images == Some(images.deep_view()));
            assert forall|k: int| 0 <= k < images.len() implies (#[trigger] images.deep_view()[k])
                == images@[k]@ by {}
            assert(list.deep_view() =~= Seq::new(
                images.len() as nat,
                |i: int| JsonView::Str(images.deep_view()[i]),
            ));
            let pair = member("images", Json::array(list));
            let ghost shown = pair.deep_view();
            members.push(pair);
            assert(members.deep_view() =~= head.push(shown));
        },
        None => {},
    }
    let ghost middle = members.deep_view();
    match &message.tool_calls {
        Some(calls) => {
            let mut list: Vec<Json> = Vec::new();
            let mut i: usize = 0;
            while i < calls.len()
                invariant
                    i <= calls.len(),
                    list@.len() == i,
                    forall|k: int| 0 <= k < i ==> (#[trigger] list@[k])@ == call_json(calls@[k]@),
                decreases calls.len() - i,
            {
                list.push(make_call_json(&calls[i]));
                i += 1;
            }
            assert(message@.tool_calls == Some(calls.deep_view()));
            assert forall|k: int| 0 <= k < calls.len() implies (#[trigger] calls.deep_view()[k])
                == calls@[k]@ by {}
            assert(list.deep_view() =~= Seq::new(
                calls.len() as nat,
                |i: int| call_json(calls.deep_view()[i]),
            ));
            let pair = member("tool_calls", Json::array(list));
            let ghost shown = pair.deep_view();
            members.push(pair);
            assert(members.deep_view() =~= middle.push(shown));
        },
        None => {},
    }
    assert(members.deep_view() =~= head + optional_members(message@));
    Json::object(members)
}

fn make_tool_json(tool: &Tool) -> (json: Json)
    ensures
        json@ == tool_json(tool@),
{
    let mut inner: Vec<(String, Json)> = Vec::new();
    inner.push(member("name", Json::string(tool.name.as_str())));
    inner.push(member("description", Json::string(tool.description.as_str())));
    inner.push(member("parameters", tool.parameters.duplicate()));
    assert(inner.deep_view() =~= seq![
        ("name"@, JsonView::Str(tool@.name)),
        ("description"@, JsonView::Str(tool@.description)),
        ("parameters"@, tool@.parameters),
    ]);
    let mut members: Vec<(String, Json)> = Vec::new();
    members.push(member("type", Json::string("function")));
    members.push(member("function", Json::object(inner)));
    assert(members.deep_view() =~= tool_json(tool@)->Object_0);
    Json::object(members)
}

/// The client of this back-end, as contracts see it.
pub struct OllamaClientView {
    pub endpoint: Seq<char>,
    pub model: Seq<char>,
    pub tools: Seq<ToolView>,
    pub debug_mode: bool,
}

/// What a conversation with this back-end needs: the address, the model,
/// the tools and the debug mode.
pub struct OllamaClient {
    pub endpoint: String,
    pub model: String,
    tools: Vec<Tool>,
    debug_mode: bool,
}

impl View for OllamaClient {
    type V = OllamaClientView;

    closed spec fn view(&self) -> OllamaClientView {
        OllamaClientView {
            endpoint: self.endpoint@,
            model: self.model@,
            tools: self.tools.deep_view(),
            debug_mode: self.debug_mode,
        }
    }
}

impl OllamaClient {
    /// A client without tools, not in debug mode.
    pub fn new(endpoint: String, model: String) -> (client: Self)
        ensures
            client@ == (OllamaClientView {
                endpoint: endpoint@,
                model: model@,
                tools: Seq::empty(),
                debug_mode: false,
            }),
    {
        let client = Self { endpoint, model, tools: Vec::new(), debug_mode: false };
        assert(client@.tools =~= Seq::<ToolView>::empty());
        client
    }

    /// Turns the debug mode on or off. In debug mode the text of a response
    /// is shown unfiltered.
    pub fn set_debug_mode(&mut self, debug: bool)
        ensures
            final(self)@ == (OllamaClientView { debug_mode: debug, ..old(self)@ }),
    {
        self.debug_mode = debug;
    }

    /// Whether the debug mode is on.
    pub fn debug_mode(&self) -> (debug: bool)
        ensures
            debug == self@.debug_mode,
    {
        self.debug_mode
    }

    /// The name of the model.
    pub fn model_name(&self) -> (model: &String)
        ensures
            model@ == self@.model,
    {
        &self.model
    }

    /// The tools, in the order in which they were added.
    pub fn tools(&self) -> (tools: &Vec<Tool>)
        ensures
            tools.deep_view() == self@.tools,
    {
        &self.tools
    }

    /// Adds a tool behind the others.
    pub fn add_tool(&mut self, tool: Tool)
        ensures
            final(self)@ == (OllamaClientView {
                tools: old(self)@.tools.push(tool@),
                ..old(self)@
            }),
    {
        self.tools.push(tool);
        assert(self@.tools =~= old(self)@.tools.push(tool@));
    }

    /// Whether the model calls tools natively, judged by its prompt
    /// template.
    pub fn supports_tool_calls(&self, model_info: &ModelInfo) -> (supported: bool)
        ensures
            supported == template_names_tools(model_info.template@),
    {
        FallbackToolHandler::template_supports_tools(model_info.template.as_str())
    }

    /// Whether the fallback protocol is in use: there are tools, and the
    /// model does not call tools natively. A model of which nothing is
    /// known counts as one that does not.
    pub fn is_fallback_mode(&self, model_info: Option<&ModelInfo>) -> (fallback: bool)
        ensures
            fallback == fallback_in_use(
                self@.tools.len() > 0,
                match model_info {
                    Some(info) => template_names_tools(info.template@),
                    None => false,
                },
            ),
    {
        if self.tools.len() == 0 {
            false
        } else {
            match model_info {
                Some(info) => !self.supports_tool_calls(info),
                None => true,
            }
        }
    }

    /// What the model can do. A model of which nothing is known counts as
    /// one without native tool calls.
    pub fn capabilities(&self, model_info: Option<&ModelInfo>) -> (capabilities:
        ProviderCapabilities)
        ensures
            capabilities.supports_vision,
            capabilities.supports_tools == match model_info {
                Some(info) => template_names_tools(info.template@),
                None => false,
            },
    {
        ProviderCapabilities {
            supports_tools: match model_info {
                Some(info) => self.supports_tool_calls(info),
                None => false,
            },
            supports_vision: true,
        }
    }

    /// The messages that are sent: with the catalog of tools in them if the
    /// fallback protocol is in use.
    pub fn prepare_messages(&self, messages: &[Message], is_fallback: bool) -> (prepared: Vec<
        Message,
    >)
        ensures
            prepared.deep_view() == prepared_messages(
                self@.tools,
                messages.deep_view(),
                is_fallback,
            ),
    {
        let mut prepared: Vec<Message> = Vec::new();
        let mut i: usize = 0;
        while i < messages.len()
            invariant
                i <= messages.len(),
                prepared@.len() == i,
                forall|k: int| 0 <= k < i ==> (#[trigger] prepared@[k])@ == messages@[k]@,
            decreases messages.len() - i,
        {
            prepared.push(copy_message(&messages[i]));
            i += 1;
        }
        assert(prepared.deep_view() =~= messages.deep_view());
        if is_fallback && self.tools.len() > 0 {
            let context = FallbackToolHandler::generate_tool_context(self.tools.as_slice());
            FallbackToolHandler::inject_tool_context(&mut prepared, context.as_str());
        }
        prepared
    }

    /// The body of the request for a streamed chat response.
    pub fn chat_request_body(
        &self,
        messages: &[Message],
        is_fallback: bool,
        options: Option<Json>,
    ) -> (body: Json)
        ensures
            body@ == chat_body(
                self@.model,
                self@.tools,
                prepared_messages(self@.tools, messages.deep_view(), is_fallback),
                is_fallback,
                options.deep_view(),
            ),
    {
        let prepared = self.prepare_messages(messages, is_fallback);
        let mut list: Vec<Json> = Vec::new();
        let mut i: usize = 0;
        while i < prepared.len()
            invariant
                i <= prepared.len(),
                list@.len() == i,
                forall|k: int| 0 <= k < i ==> (#[trigger] list@[k])@ == message_json(prepared@[k]@),
            decreases prepared.len() - i,
        {
            list.push(make_message_json(&prepared[i]));
            i += 1;
        }
        assert forall|k: int| 0 <= k < prepared.len() implies (#[trigger] prepared.deep_view()[k])
            == prepared@[k]@ by {}
        assert(list.deep_view() =~= Seq::new(
            prepared.len() as nat,
            |i: int| message_json(prepared.deep_view()[i]),
        ));
        let mut members: Vec<(String, Json)> = Vec::new();
        members.push(member("model", Json::string(self.model.as_str())));
        members.push(member("messages", Json::array(list)));
        members.push(member("stream", Json::Bool(true)));
        let ghost head = members.deep_view();
        if !is_fallback && self.tools.len() > 0 {
            let mut tools: Vec<Json> = Vec::new();
            let mut j: usize = 0;
            while j < self.tools.len()
                invariant
                    j <= self.tools.len(),
                    tools@.len() == j,
                    forall|k: int| 0 <= k < j ==> (#[trigger] tools@[k])@ == tool_json(self.tools@[k]@),
                decreases self.tools.len() - j,
            {
                tools.push(make_tool_json(&self.tools[j]));
                j += 1;
            }
            assert(tools.deep_view() =~= Seq::new(
                self@.tools.len(),
                |i: int| tool_json(self@.tools[i]),
            ));
            let pair = member("tools", Json::array(tools));
            let ghost shown = pair.deep_view();
            members.push(pair);
            assert(members.deep_view() =~= head.push(shown));
        }
        let ghost middle = members.deep_view();
        match options {
            Some(options) => {
                let pair = member("options", options);
                let ghost shown = pair.deep_view();
                members.push(pair);
                assert(members.deep_view() =~= middle.push(shown));
            },
            None => {},
        }
        let body = Json::object(members);
        assert(body@->Object_0 =~= chat_body(
            self@.model,
            self@.tools,
            prepared.deep_view(),
            is_fallback,
            options.deep_view(),
        )->Object_0);
        body
    }

    /// The body of the request for a completion of a prompt.
    pub fn generate_request_body(&self, prompt: &str, stream: bool, options: Option<Json>) -> (body:
        Json)
        ensures
            body@ == generate_body(self@.model, prompt@, stream, options.deep_view()),
    {
        let mut members: Vec<(String, Json)> = Vec::new();
        members.push(member("model", Json::string(self.model.as_str())));
        members.push(member("prompt", Json::string(prompt)));
        members.push(member("stream", Json::Bool(stream)));
        let ghost head = members.deep_view();
        match options {
            Some(options) => {
                let pair = member("options", options);
                let ghost shown = pair.deep_view();
                members.push(pair);
                assert(members.deep_view() =~= head.push(shown));
            },
            None => {},
        }
        let body = Json::object(members);
        assert(body@->Object_0 =~= generate_body(
            self@.model,
            prompt@,
            stream,
            options.deep_view(),
        )->Object_0);
        body
    }

    /// The processor for the response to a chat request.
    pub fn stream_processor(&self, is_fallback: bool) -> (processor: OllamaStreamProcessor)
        ensures
            processor@ == (StreamView {
                separator: line_separator(),
                carry: Seq::<u8>::empty(),
                handler: initial_line_state(is_fallback, self@.debug_mode),
            }),
            processor@.valid(),
    {
        OllamaStreamProcessor::new(is_fallback, self.debug_mode)
    }

    /// The progress that a line of the download channel reports.
    pub fn parse_pull_progress(line: &[u8]) -> (progress: PullProgress)
        ensures
            progress@ == progress_of_line(line@),
    {
        match parse_json(line) {
            Ok(report) => PullProgress {
                status: match report.get_str("status") {
                    Some(status) => status.clone(),
                    None => String::new(),
                },
                digest: match report.get_str("digest") {
                    Some(digest) => Some(digest.clone()),
                    None => None,
                },
                total: match report.get("total") {
                    Some(total) => total.as_u64(),
                    None => None,
                },
                completed: match report.get("completed") {
                    Some(completed) => completed.as_u64(),
                    None => None,
                },
            },
            Err(_) => PullProgress {
                status: string_of_bytes(line),
                digest: None,
                total: None,
                completed: None,
            },
        }
    }

    /// What a line of the completion channel gives.
    pub fn parse_generate_line(line: &[u8]) -> (generated: Option<Result<String, String>>)
        ensures
            match generated {
                Some(Ok(text)) => generated_of_line(line@) == Some(
                    Ok::<Seq<char>, Seq<char>>(text@),
                ),
                Some(Err(message)) => generated_of_line(line@) == Some(
                    Err::<Seq<char>, Seq<char>>(message@),
                ),
                None => generated_of_line(line@) is None,
            },
    {
        match parse_json(line) {
            Ok(report) => match report.get_str("response") {
                Some(text) => Some(Ok(text.clone())),
                None => None,
            },
            Err(error) => {
                let mut message = String::from_str("Parse error: ");
                message.append(error.as_str());
                Some(Err(message))
            },
        }
    }

    /// The text that the answer to a request for a completion holds.
    pub fn generated_response(answer: &Json) -> (text: String)
        ensures
            text@ == generated_text(answer@),
    {
        match answer.get_str("response") {
            Some(text) => text.clone(),
            None => String::new(),
        }
    }

    /// Answers tool calls: the result of each call of a registered tool goes
    /// back as a tool message or, in the fallback protocol, as a user message
    /// that names the tool.
    pub fn handle_tool_calls<R: ToolRunner>(
        &self,
        tool_calls: Vec<ToolCall>,
        runner: &R,
        is_fallback: bool,
    ) -> (messages: Vec<Message>)
        ensures
            exists|results: Seq<Option<Seq<char>>>|
                {
                    &&& results.len() == tool_calls.len()
                    &&& forall|i: int|
                        0 <= i < tool_calls.len() ==> ((#[trigger] results[i]) is Some) == (
                        tool_from(tool_names(self@.tools), tool_calls@[i].function.name@, 0)
                            is Some)
                    &&& messages.deep_view() == responses_upto(
                        if is_fallback {
                            ResponseStyle::Narrated
                        } else {
                            ResponseStyle::Plain
                        },
                        tool_calls.deep_view(),
                        results,
                        tool_calls.len() as int,
                    )
                },
    {
        answer_tool_calls(
            if is_fallback {
                ResponseStyle::Narrated
            } else {
                ResponseStyle::Plain
            },
            self.tools.as_slice(),
            tool_calls.as_slice(),
            runner,
        )
    }

    /// Takes a complete response apart. In the fallback protocol the spans
    /// are removed from what is shown and read as tool calls; else the content
    /// is returned as it is, without tool calls.
    pub fn process_fallback_response(&self, content: &str, is_fallback: bool) -> (parts: (
        String,
        Option<Vec<ToolCall>>,
    ))
        ensures
            is_fallback ==> parts.0@ == visible(TOOL_CALL_OPEN@, TOOL_CALL_CLOSE@, content@)
                && parts.1.deep_view() == fallback_calls(content@),
            !is_fallback ==> parts.0@ == content@ && parts.1 is None,
    {
        if !is_fallback {
            (content.to_owned(), None)
        } else {
            FallbackToolHandler::process_fallback_response(content)
        }
    }

    /// A model of this back-end as one of any back-end.
    pub fn mono_model(model: Model) -> (mono: MonoModel)
        ensures
            mono.id@ == model.name@,
            mono.name@ == model.name@,
            mono.provider@ == "Ollama"@,
            mono.size == Some(model.size),
            mono.created is None,
    {
        MonoModel {
            id: model.name.clone(),
            name: model.name,
            provider: "Ollama".to_owned(),
            size: Some(model.size),
            created: None,
        }
    }
}

/// A copy of a message.
pub fn copy_message(message: &Message) -> (copy: Message)
    ensures
        copy@ == message@,
{
    let images = match &message.images {
        Some(images) => {
            let mut list: Vec<String> = Vec::new();
            let mut i: usize = 0;
            while i < images.len()
                invariant
                    i <= images.len(),
                    list@.len() == i,
                    forall|k: int| 0 <= k < i ==> (#[trigger] list@[k])@ == images@[k]@,
                decreases images.len() - i,
            {
                list.push(images[i].clone());
                i += 1;
            }
            assert(list.deep_view() =~= images.deep_view());
            Some(list)
        },
        None => None,
    };
    let tool_calls = match &message.tool_calls {
        Some(calls) => {
            let mut list: Vec<ToolCall> = Vec::new();
            let mut i: usize = 0;
            while i < calls.len()
                invariant
                    i <= calls.len(),
                    list@.len() == i,
                    forall|k: int| 0 <= k < i ==> (#[trigger] list@[k])@ == calls@[k]@,
                decreases calls.len() - i,
            {
                let call = &calls[i];
                list.push(
                    ToolCall {
                        id: call.id.clone(),
                        function: crate::types::Function {
                            name: call.function.name.clone(),
                            arguments: call.function.arguments.duplicate(),
                        },
                    },
                );
                i += 1;
            }
            assert(list.deep_view() =~= calls.deep_view());
            Some(list)
        },
        None => None,
    };
    Message { role: message.role.clone(), content: message.content.clone(), images, tool_calls }
}

} // verus!
