//! The line protocol: newline-separated JSON objects, each with optional
//! text, an optional list of complete tool calls, a completion flag and, on
//! the last object, the token counts.
//!
//! In the fallback protocol the text may embed tool calls between markers.
//! The markers and what stands between them are filtered out of what is
//! shown, and the raw text is read for tool calls when the response is
//! complete.
use crate::fallback::{fallback_calls, FallbackToolHandler};
use crate::filter::{FilterView, StreamingXmlFilter};
use crate::framing::{line_separator, FrameDecoder};
use crate::items::{calls_if_any, no_items, one_item};
use crate::json::{json_of_bytes, parse_json, Json, JsonView};
use crate::stream::{
    after_chunk, after_end, after_failure, FrameHandler, NormalizedStream, StreamView,
};
use crate::types::{
    ChatStreamItem, ChatStreamItemView, Function, FunctionView, ToolCall, ToolCallView,
};
use crate::usage::{usage_of_counts, TokenUsage};
use vstd::prelude::*;
use vstd::string::StringExecFns;

verus! {

/// The state of the interpreter, as contracts see it.
pub struct LineState {
    /// The state of the tag filter.
    pub filter: FilterView,
    /// The text received so far, unfiltered.
    pub raw: Seq<char>,
    /// Whether the text is shown as it comes, unfiltered.
    pub debug: bool,
    /// Whether the raw text is read for embedded tool calls at the end.
    pub fallback: bool,
    /// Whether the terminal item has been given.
    pub done: bool,
}

/// The text of a frame: that of the member `content` of its member
/// `message` or, where that is missing, that of its own member `content`. A
/// frame without either has no text.
pub open spec fn line_content(frame: JsonView) -> Seq<char> {
    let own = match frame.get_str("content"@) {
        Some(text) => text,
        None => Seq::empty(),
    };
    match frame.get("message"@) {
        Some(message) => match message.get_str("content"@) {
            Some(text) => text,
            None => own,
        },
        None => own,
    }
}

/// The tool call that one element of the list of tool calls denotes: its
/// member `function` gives the name and the arguments. Without arguments
/// they are `null`; without a name the element denotes no call.
pub open spec fn native_call(element: JsonView) -> Option<ToolCallView> {
    match element.get("function"@) {
        Some(function) => match function.get_str("name"@) {
            Some(name) => Some(
                ToolCallView {
                    id: element.get_str("id"@),
                    function: FunctionView {
                        name,
                        arguments: match function.get("arguments"@) {
                            Some(arguments) => arguments,
                            None => JsonView::Null,
                        },
                    },
                },
            ),
            None => None,
        },
        None => None,
    }
}

/// The tool calls that the first `upto` elements denote, in order.
pub open spec fn native_upto(elements: Seq<JsonView>, upto: int) -> Seq<ToolCallView>
    decreases upto,
{
    if upto <= 0 || upto > elements.len() {
        Seq::empty()
    } else {
        match native_call(elements[upto - 1]) {
            Some(call) => native_upto(elements, upto - 1).push(call),
            None => native_upto(elements, upto - 1),
        }
    }
}

/// The elements of the list of tool calls of a frame: the member
/// `tool_calls` of its member `message`.
pub open spec fn call_elements(frame: JsonView) -> Option<Seq<JsonView>> {
    match frame.get("message"@) {
        Some(message) => match message.get("tool_calls"@) {
            Some(list) => list.as_array(),
            None => None,
        },
        None => None,
    }
}

/// The complete tool calls that a frame carries, if there are any.
pub open spec fn native_calls(frame: JsonView) -> Option<Seq<ToolCallView>> {
    match call_elements(frame) {
        Some(elements) => if native_upto(elements, elements.len() as int).len() > 0 {
            Some(native_upto(elements, elements.len() as int))
        } else {
            None
        },
        None => None,
    }
}

/// The usage that a frame reports: its two counts `prompt_eval_count` and
/// `eval_count`, and their sum.
pub open spec fn line_usage(frame: JsonView) -> Option<TokenUsage> {
    match (frame.get_u32("prompt_eval_count"@), frame.get_u32("eval_count"@)) {
        (Some(prompt), Some(completion)) => Some(usage_of_counts(prompt, completion)),
        _ => None,
    }
}

/// Whether a frame is the last one: its member `done` is `true`.
pub open spec fn line_done(frame: JsonView) -> bool {
    frame.get_bool("done"@) == Some(true)
}

/// The filter after some text, and what is shown of the text. With
/// `debug`, the text is shown as it is and the filter is left alone.
pub open spec fn shown_of(filter: FilterView, debug: bool, text: Seq<char>) -> (
    FilterView,
    Seq<char>,
) {
    if debug {
        (filter, text)
    } else {
        filter.after(text)
    }
}

/// The filter after the end of the text, and what is shown of the text
/// that it held back.
pub open spec fn shown_at_end(filter: FilterView, debug: bool) -> (FilterView, Seq<char>) {
    if debug {
        (filter, Seq::empty())
    } else {
        filter.at_end()
    }
}

/// The tool calls that the raw text embeds, if the fallback protocol is in
/// use.
pub open spec fn calls_at_end(fallback: bool, raw: Seq<char>) -> Option<Seq<ToolCallView>> {
    if fallback {
        fallback_calls(raw)
    } else {
        None
    }
}

/// What a frame says: its text, its complete tool calls, whether it is the
/// last frame, and its usage. A frame of this protocol may say all of it at
/// once.
#[derive(Debug, Clone, PartialEq, Eq)]
pub struct LineDelta {
    pub content: String,
    pub tool_calls: Option<Vec<ToolCall>>,
    pub done: bool,
    pub usage: Option<TokenUsage>,
}

/// A [`LineDelta`], as contracts see it.
pub struct LineDeltaView {
    pub content: Seq<char>,
    pub tool_calls: Option<Seq<ToolCallView>>,
    pub done: bool,
    pub usage: Option<TokenUsage>,
}

impl View for LineDelta {
    type V = LineDeltaView;

    open spec fn view(&self) -> LineDeltaView {
        LineDeltaView {
            content: self.content@,
            tool_calls: self.tool_calls.deep_view(),
            done: self.done,
            usage: self.usage,
        }
    }
}

/// What a frame says.
pub open spec fn delta_of_line(frame: JsonView) -> LineDeltaView {
    LineDeltaView {
        content: line_content(frame),
        tool_calls: native_calls(frame),
        done: line_done(frame),
        usage: line_usage(frame),
    }
}

/// What a delta does. It gives exactly one item, with what is shown of its
/// text and with its tool calls. The last delta gives the terminal item:
/// that also shows what the filter held back, carries the usage and, where
/// the delta itself has no tool call, the calls that the raw text embeds.
pub open spec fn applied_line(state: LineState, delta: LineDeltaView) -> (
    LineState,
    Seq<ChatStreamItemView>,
) {
    let raw = state.raw + delta.content;
    let now = shown_of(state.filter, state.debug, delta.content);
    if !delta.done {
        (
            LineState { filter: now.0, raw, ..state },
            seq![
                ChatStreamItemView {
                    content: now.1,
                    tool_calls: delta.tool_calls,
                    done: false,
                    usage: None,
                },
            ],
        )
    } else {
        let end = shown_at_end(now.0, state.debug);
        (
            LineState { filter: end.0, raw, done: true, ..state },
            seq![
                ChatStreamItemView {
                    content: now.1 + end.1,
                    tool_calls: match delta.tool_calls {
                        Some(calls) => Some(calls),
                        None => calls_at_end(state.fallback, raw),
                    },
                    done: true,
                    usage: delta.usage,
                },
            ],
        )
    }
}

/// What a frame does: what its delta does.
pub open spec fn on_response(state: LineState, frame: JsonView) -> (
    LineState,
    Seq<ChatStreamItemView>,
) {
    applied_line(state, delta_of_line(frame))
}

/// What a line does. After the terminal item, nothing. A line that is not
/// JSON is skipped.
pub open spec fn on_line(state: LineState, line: Seq<u8>) -> (LineState, Seq<ChatStreamItemView>) {
    if state.done {
        (state, Seq::empty())
    } else {
        match json_of_bytes(line) {
            Some(frame) => on_response(state, frame),
            None => (state, Seq::empty()),
        }
    }
}

/// What the end of the input does, if no frame was the last one: it gives
/// the terminal item, which shows what the filter held back and carries
/// the calls that the raw text embeds.
pub open spec fn on_input_end(state: LineState) -> (LineState, Seq<ChatStreamItemView>) {
    if state.done {
        (state, Seq::empty())
    } else {
        let end = shown_at_end(state.filter, state.debug);
        (
            LineState { filter: end.0, done: true, ..state },
            seq![
                ChatStreamItemView {
                    content: end.1,
                    tool_calls: calls_at_end(state.fallback, state.raw),
                    done: true,
                    usage: None,
                },
            ],
        )
    }
}

/// Reads the frames of the line protocol.
pub struct OllamaInterpreter {
    filter: StreamingXmlFilter,
    raw: String,
    debug: bool,
    fallback: bool,
    done: bool,
}

impl OllamaInterpreter {
    /// An interpreter at the start of a response. With `fallback_mode`, the
    /// raw text is read for embedded tool calls at the end; with
    /// `debug_mode`, the text is shown unfiltered.
    pub fn new(fallback_mode: bool, debug_mode: bool) -> (interpreter: Self)
        ensures
            interpreter.state() == initial_line_state(fallback_mode, debug_mode),
    {
        Self {
            filter: StreamingXmlFilter::new(),
            raw: String::new(),
            debug: debug_mode,
            fallback: fallback_mode,
            done: false,
        }
    }

    fn read_content(frame: &Json) -> (content: String)
        ensures
            content@ == line_content(frame@),
    {
        let own = match frame.get_str("content") {
            Some(text) => text.clone(),
            None => String::new(),
        };
        match frame.get("message") {
            Some(message) => match message.get_str("content") {
                Some(text) => text.clone(),
                None => own,
            },
            None => own,
        }
    }

    fn read_call(element: &Json) -> (call: Option<ToolCall>)
        ensures
            call.deep_view() == native_call(element@),
    {
        match element.get("function") {
            Some(function) => match function.get_str("name") {
                Some(name) => Some(
                    ToolCall {
                        id: match element.get_str("id") {
                            Some(id) => Some(id.clone()),
                            None => None,
                        },
                        function: Function {
                            name: name.clone(),
                            arguments: match function.get("arguments") {
                                Some(arguments) => arguments.duplicate(),
                                None => Json::Null,
                            },
                        },
                    },
                ),
                None => None,
            },
            None => None,
        }
    }

    fn read_calls(frame: &Json) -> (calls: Option<Vec<ToolCall>>)
        ensures
            calls.deep_view() == native_calls(frame@),
    {
        let elements = match frame.get("message") {
            Some(message) => match message.get("tool_calls") {
                Some(list) => list.as_array(),
                None => None,
            },
            None => None,
        };
        match elements {
            Some(elements) => {
                let mut calls: Vec<ToolCall> = Vec::new();
                let mut i: usize = 0;
                assert(calls.deep_view() =~= Seq::<ToolCallView>::empty());
                while i < elements.len()
                    invariant
                        i <= elements.len(),
                        calls.deep_view() == native_upto(elements.deep_view(), i as int),
                    decreases elements.len() - i,
                {
                    assert(elements.deep_view()[i as int] == elements@[i as int]@);
                    let ghost so_far = calls.deep_view();
                    match Self::read_call(&elements[i]) {
                        Some(call) => {
                            calls.push(call);
                            assert(calls.deep_view() =~= so_far.push(call@));
                        },
                        None => {},
                    }
                    i += 1;
                }
                calls_if_any(calls)
            },
            None => None,
        }
    }

    fn read_usage(frame: &Json) -> (usage: Option<TokenUsage>)
        ensures
            usage == line_usage(frame@),
    {
        match (frame.get_u32("prompt_eval_count"), frame.get_u32("eval_count")) {
            (Some(prompt), Some(completion)) => Some(TokenUsage::with_tokens(prompt, completion)),
            _ => None,
        }
    }

    fn show(&mut self, content: &str) -> (shown: String)
        ensures
            final(self).state() == (LineState {
                filter: shown_of(old(self).state().filter, old(self).state().debug, content@).0,
                ..old(self).state()
            }),
            shown@ == shown_of(old(self).state().filter, old(self).state().debug, content@).1,
    {
        if self.debug {
            String::from_str(content)
        } else {
            self.filter.process_chunk(content)
        }
    }

    fn show_end(&mut self) -> (shown: String)
        ensures
            final(self).state() == (LineState {
                filter: shown_at_end(old(self).state().filter, old(self).state().debug).0,
                ..old(self).state()
            }),
            shown@ == shown_at_end(old(self).state().filter, old(self).state().debug).1,
    {
        if self.debug {
            String::new()
        } else {
            self.filter.finish()
        }
    }

    fn read_calls_at_end(&self) -> (calls: Option<Vec<ToolCall>>)
        ensures
            calls.deep_view() == calls_at_end(self.state().fallback, self.state().raw),
    {
        if self.fallback {
            FallbackToolHandler::parse_fallback_tool_calls(self.raw.as_str())
        } else {
            None
        }
    }

    /// Reads what a frame says.
    pub fn interpret_response(frame: &Json) -> (delta: LineDelta)
        ensures
            delta@ == delta_of_line(frame@),
    {
        LineDelta {
            content: Self::read_content(frame),
            tool_calls: Self::read_calls(frame),
            done: match frame.get_bool("done") {
                Some(flag) => flag,
                None => false,
            },
            usage: Self::read_usage(frame),
        }
    }

    /// Takes a delta: see [`applied_line`].
    pub fn apply(&mut self, delta: LineDelta) -> (items: Vec<ChatStreamItem>)
        ensures
            final(self).state() == applied_line(old(self).state(), delta@).0,
            items.deep_view() == applied_line(old(self).state(), delta@).1,
    {
        self.raw.append(delta.content.as_str());
        let shown = self.show(delta.content.as_str());
        if !delta.done {
            one_item(
                ChatStreamItem {
                    content: shown,
                    tool_calls: delta.tool_calls,
                    done: false,
                    usage: None,
                },
            )
        } else {
            let tail = self.show_end();
            let calls = match delta.tool_calls {
                Some(calls) => Some(calls),
                None => self.read_calls_at_end(),
            };
            self.done = true;
            one_item(
                ChatStreamItem {
                    content: shown.concat(tail.as_str()),
                    tool_calls: calls,
                    done: true,
                    usage: delta.usage,
                },
            )
        }
    }

    /// Reads one frame, given as JSON.
    pub fn handle_response(&mut self, frame: &Json) -> (items: Vec<ChatStreamItem>)
        ensures
            final(self).state() == on_response(old(self).state(), frame@).0,
            items.deep_view() == on_response(old(self).state(), frame@).1,
    {
        let delta = Self::interpret_response(frame);
        self.apply(delta)
    }
}

/// The state at the start of a response.
pub open spec fn initial_line_state(fallback: bool, debug: bool) -> LineState {
    LineState {
        filter: FilterView {
            open: crate::filter::TOOL_CALL_OPEN@,
            close: crate::filter::TOOL_CALL_CLOSE@,
            in_body: false,
            held: Seq::empty(),
        },
        raw: Seq::empty(),
        debug,
        fallback,
        done: false,
    }
}

impl FrameHandler for OllamaInterpreter {
    type State = LineState;

    closed spec fn state(&self) -> LineState {
        LineState {
            filter: self.filter@,
            raw: self.raw@,
            debug: self.debug,
            fallback: self.fallback,
            done: self.done,
        }
    }

    open spec fn is_done(state: LineState) -> bool {
        state.done
    }

    open spec fn holds_consistent_usage(state: LineState) -> bool {
        true
    }

    open spec fn on_frame(state: LineState, frame: Seq<u8>) -> (LineState, Seq<ChatStreamItemView>) {
        on_line(state, frame)
    }

    open spec fn on_end(state: LineState) -> (LineState, Seq<ChatStreamItemView>) {
        on_input_end(state)
    }

    open spec fn on_failure(state: LineState) -> LineState {
        LineState { done: true, ..state }
    }

    proof fn lemma_on_frame(state: LineState, frame: Seq<u8>) {
    }

    proof fn lemma_on_failure(state: LineState) {
    }

    proof fn lemma_on_end(state: LineState) {
    }

    fn handle_frame(&mut self, frame: &[u8]) -> (items: Vec<ChatStreamItem>) {
        if self.done {
            no_items()
        } else {
            match parse_json(frame) {
                Ok(response) => self.handle_response(&response),
                Err(_) => no_items(),
            }
        }
    }

    fn handle_end(&mut self) -> (items: Vec<ChatStreamItem>) {
        if self.done {
            no_items()
        } else {
            let tail = self.show_end();
            let calls = self.read_calls_at_end();
            self.done = true;
            one_item(ChatStreamItem { content: tail, tool_calls: calls, done: true, usage: None })
        }
    }

    fn handle_failure(&mut self) {
        self.done = true;
    }
}

/// The state of a stream of this protocol, as contracts see it.
pub type OllamaStreamView = StreamView<LineState>;

/// Turns the byte chunks of a response in this protocol into response
/// items.
pub struct OllamaStreamProcessor {
    stream: NormalizedStream<OllamaInterpreter>,
}

impl View for OllamaStreamProcessor {
    type V = OllamaStreamView;

    closed spec fn view(&self) -> OllamaStreamView {
        self.stream.view()
    }
}

impl OllamaStreamProcessor {
    /// A processor at the start of a response.
    pub fn new(fallback_mode: bool, debug_mode: bool) -> (processor: Self)
        ensures
            processor@ == (StreamView {
                separator: line_separator(),
                carry: Seq::<u8>::empty(),
                handler: initial_line_state(fallback_mode, debug_mode),
            }),
            processor@.valid(),
    {
        Self {
            stream: NormalizedStream::from_parts(
                FrameDecoder::line_delimited(),
                OllamaInterpreter::new(fallback_mode, debug_mode),
            ),
        }
    }

    /// Takes the next chunk of the response and returns the items of the
    /// lines that it completes, in the order of the lines.
    pub fn push_chunk(&mut self, chunk: &[u8]) -> (items: Vec<ChatStreamItem>)
        ensures
            final(self)@ == after_chunk::<OllamaInterpreter>(old(self)@, chunk@).0,
            items.deep_view() == after_chunk::<OllamaInterpreter>(old(self)@, chunk@).1,
            final(self)@.valid(),
    {
        self.stream.push_chunk(chunk)
    }

    /// Takes note that the transport has failed: the sequence of items ends
    /// here.
    pub fn fail(&mut self)
        ensures
            final(self)@ == after_failure::<OllamaInterpreter>(old(self)@),
    {
        self.stream.fail()
    }

    /// Ends the response. What was carried over is read as the last line,
    /// and the terminal item is given if it has not been given before.
    pub fn finish(&mut self) -> (items: Vec<ChatStreamItem>)
        ensures
            final(self)@ == after_end::<OllamaInterpreter>(old(self)@).0,
            items.deep_view() == after_end::<OllamaInterpreter>(old(self)@).1,
    {
        self.stream.finish()
    }
}

} // verus!
