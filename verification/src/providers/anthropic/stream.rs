//! The event protocol with named event kinds: text deltas, tool-use blocks
//! that start and stop, message-level usage, and the end of the message.
//!
//! A tool-use block is announced with its id and name. The fragments of its
//! argument text follow without naming the block: they go to the block that
//! was opened last and is still open. The calls are completed when the
//! message ends, and travel on the terminal item.
use crate::events::{done_sentinel, is_done_sentinel, EventFields};
use crate::framing::{event_separator, FrameDecoder};
use crate::items::{
    applied, completion, initial_state, no_items, CallCore, CallState, Delta, DeltaView,
    ToolCallDelta, ToolCallDeltaView,
};
use crate::json::{json_of_bytes, parse_json, Json, JsonView};
use crate::stream::{
    after_chunk, after_end, after_failure, FrameHandler, NormalizedStream, StreamView,
};
use crate::text::str_eq;
use crate::types::{ChatStreamItem, ChatStreamItemView};
use crate::usage::{usage_of_counts, TokenUsage};
use vstd::prelude::*;

verus! {

/// The usage that an object with the two counts `input_tokens` and
/// `output_tokens` reports.
pub open spec fn usage_in(object: JsonView) -> Option<TokenUsage> {
    match (object.get_u32("input_tokens"@), object.get_u32("output_tokens"@)) {
        (Some(input), Some(output)) => Some(usage_of_counts(input, output)),
        _ => None,
    }
}

/// The usage that a `message_delta` event reports: that of its member
/// `usage` or, without such a member, that of the member `usage` of its
/// member `delta`.
pub open spec fn reported_usage(event: JsonView) -> Option<TokenUsage> {
    match event.get("usage"@) {
        Some(object) => usage_in(object),
        None => match event.get("delta"@) {
            Some(delta) => match delta.get("usage"@) {
                Some(object) => usage_in(object),
                None => None,
            },
            None => None,
        },
    }
}

/// The delta of a `content_block_delta` event: a text delta gives text, a
/// delta of input JSON gives a piece of argument text that names no call.
pub open spec fn delta_of_block_delta(event: JsonView) -> Option<DeltaView> {
    match event.get("delta"@) {
        Some(delta) => match delta.get_str("type"@) {
            Some(kind) => if kind == "text_delta"@ {
                match delta.get_str("text"@) {
                    Some(text) => Some(DeltaView::Text(text)),
                    None => None,
                }
            } else if kind == "input_json_delta"@ {
                match delta.get_str("partial_json"@) {
                    Some(fragment) => Some(
                        DeltaView::ToolCall(ToolCallDeltaView::Unnamed { arguments: fragment }),
                    ),
                    None => None,
                }
            } else {
                None
            },
            None => None,
        },
        None => None,
    }
}

/// The delta of a `content_block_start` event: a tool-use block with an id
/// and a name announces a call.
pub open spec fn delta_of_block_start(event: JsonView) -> Option<DeltaView> {
    match event.get("content_block"@) {
        Some(block) => match (block.get_str("type"@), block.get_str("id"@), block.get_str("name"@)) {
            (Some(kind), Some(id), Some(name)) => if kind == "tool_use"@ {
                Some(DeltaView::ToolCall(ToolCallDeltaView::Opened { id, name }))
            } else {
                None
            },
            _ => None,
        },
        None => None,
    }
}

/// The delta of an event, by its kind. An event of a kind not named here,
/// or without what its kind needs, has none.
pub open spec fn delta_of_event(event: JsonView) -> Option<DeltaView> {
    match event.get_str("type"@) {
        Some(kind) => if kind == "content_block_delta"@ {
            delta_of_block_delta(event)
        } else if kind == "content_block_start"@ {
            delta_of_block_start(event)
        } else if kind == "content_block_stop"@ {
            Some(DeltaView::ToolCall(ToolCallDeltaView::Closed))
        } else if kind == "message_delta"@ {
            match reported_usage(event) {
                Some(usage) => Some(DeltaView::Usage(usage)),
                None => None,
            }
        } else if kind == "message_stop"@ {
            Some(DeltaView::Completion)
        } else {
            None
        },
        None => None,
    }
}

/// What an event does: what its delta does. An event without a delta is
/// ignored.
pub open spec fn on_event(state: CallState, event: JsonView) -> (
    CallState,
    Seq<ChatStreamItemView>,
) {
    match delta_of_event(event) {
        Some(delta) => applied(state, delta),
        None => (state, Seq::empty()),
    }
}

/// What a payload does. After the terminal item, nothing. The sentinel
/// ends the message. Any other payload is an event in JSON; one that is not
/// JSON is skipped.
pub open spec fn on_payload(state: CallState, payload: Seq<u8>) -> (
    CallState,
    Seq<ChatStreamItemView>,
) {
    if state.done {
        (state, Seq::empty())
    } else if payload == done_sentinel() {
        applied(state, DeltaView::Completion)
    } else {
        match json_of_bytes(payload) {
            Some(event) => on_event(state, event),
            None => (state, Seq::empty()),
        }
    }
}

/// A tool call in the making is never shown: an item that is not terminal
/// carries no tool call.
pub proof fn lemma_unfinished_calls_are_not_shown(state: CallState, payload: Seq<u8>)
    ensures
        forall|i: int|
            0 <= i < on_payload(state, payload).1.len() && !(#[trigger] on_payload(
                state,
                payload,
            ).1[i]).done ==> on_payload(state, payload).1[i].tool_calls is None,
{
}

/// Reads the payloads of the event protocol with named event kinds.
pub struct AnthropicInterpreter {
    core: CallCore,
}

impl AnthropicInterpreter {
    /// An interpreter at the start of a message.
    pub fn new() -> (interpreter: Self)
        ensures
            interpreter.state() == initial_state(),
    {
        Self { core: CallCore::new() }
    }

    fn read_usage(object: &Json) -> (usage: Option<TokenUsage>)
        ensures
            usage == usage_in(object@),
    {
        match (object.get_u32("input_tokens"), object.get_u32("output_tokens")) {
            (Some(input), Some(output)) => Some(TokenUsage::with_tokens(input, output)),
            _ => None,
        }
    }

    fn read_reported_usage(event: &Json) -> (usage: Option<TokenUsage>)
        ensures
            usage == reported_usage(event@),
    {
        match event.get("usage") {
            Some(object) => Self::read_usage(object),
            None => match event.get("delta") {
                Some(delta) => match delta.get("usage") {
                    Some(object) => Self::read_usage(object),
                    None => None,
                },
                None => None,
            },
        }
    }

    fn interpret_block_delta(event: &Json) -> (delta: Option<Delta>)
        ensures
            delta.deep_view() == delta_of_block_delta(event@),
    {
        match event.get("delta") {
            Some(delta) => match delta.get_str("type") {
                Some(kind) => {
                    if str_eq(kind.as_str(), "text_delta") {
                        match delta.get_str("text") {
                            Some(text) => Some(Delta::Text(text.clone())),
                            None => None,
                        }
                    } else if str_eq(kind.as_str(), "input_json_delta") {
                        match delta.get_str("partial_json") {
                            Some(fragment) => Some(
                                Delta::ToolCall(
                                    ToolCallDelta::Unnamed { arguments: fragment.clone() },
                                ),
                            ),
                            None => None,
                        }
                    } else {
                        None
                    }
                },
                None => None,
            },
            None => None,
        }
    }

    fn interpret_block_start(event: &Json) -> (delta: Option<Delta>)
        ensures
            delta.deep_view() == delta_of_block_start(event@),
    {
        match event.get("content_block") {
            Some(block) => match (block.get_str("type"), block.get_str("id"), block.get_str("name")) {
                (Some(kind), Some(id), Some(name)) => {
                    if str_eq(kind.as_str(), "tool_use") {
                        Some(
                            Delta::ToolCall(
                                ToolCallDelta::Opened { id: id.clone(), name: name.clone() },
                            ),
                        )
                    } else {
                        None
                    }
                },
                _ => None,
            },
            None => None,
        }
    }

    /// Reads the delta of an event, given as JSON.
    pub fn interpret_event(event: &Json) -> (delta: Option<Delta>)
        ensures
            delta.deep_view() == delta_of_event(event@),
    {
        match event.get_str("type") {
            Some(kind) => {
                if str_eq(kind.as_str(), "content_block_delta") {
                    Self::interpret_block_delta(event)
                } else if str_eq(kind.as_str(), "content_block_start") {
                    Self::interpret_block_start(event)
                } else if str_eq(kind.as_str(), "content_block_stop") {
                    Some(Delta::ToolCall(ToolCallDelta::Closed))
                } else if str_eq(kind.as_str(), "message_delta") {
                    match Self::read_reported_usage(event) {
                        Some(usage) => Some(Delta::Usage(usage)),
                        None => None,
                    }
                } else if str_eq(kind.as_str(), "message_stop") {
                    Some(Delta::Completion)
                } else {
                    None
                }
            },
            None => None,
        }
    }

    /// Reads one event, given as JSON.
    pub fn handle_event(&mut self, event: &Json) -> (items: Vec<ChatStreamItem>)
        ensures
            final(self).state() == on_event(old(self).state(), event@).0,
            items.deep_view() == on_event(old(self).state(), event@).1,
    {
        match Self::interpret_event(event) {
            Some(delta) => self.core.apply(delta),
            None => no_items(),
        }
    }
}

impl FrameHandler for AnthropicInterpreter {
    type State = CallState;

    closed spec fn state(&self) -> CallState {
        self.core@
    }

    open spec fn is_done(state: CallState) -> bool {
        state.done
    }

    open spec fn holds_consistent_usage(state: CallState) -> bool {
        state.usage matches Some(usage) ==> usage.consistent()
    }

    open spec fn on_frame(state: CallState, frame: Seq<u8>) -> (
        CallState,
        Seq<ChatStreamItemView>,
    ) {
        on_payload(state, frame)
    }

    open spec fn on_end(state: CallState) -> (CallState, Seq<ChatStreamItemView>) {
        if state.done {
            (state, Seq::empty())
        } else {
            completion(state)
        }
    }

    open spec fn on_failure(state: CallState) -> CallState {
        CallState { done: true, ..state }
    }

    proof fn lemma_on_frame(state: CallState, frame: Seq<u8>) {
    }

    proof fn lemma_on_failure(state: CallState) {
    }

    proof fn lemma_on_end(state: CallState) {
    }

    fn handle_frame(&mut self, frame: &[u8]) -> (items: Vec<ChatStreamItem>) {
        if self.core.done {
            no_items()
        } else if is_done_sentinel(frame) {
            self.core.apply(Delta::Completion)
        } else {
            match parse_json(frame) {
                Ok(event) => self.handle_event(&event),
                Err(_) => no_items(),
            }
        }
    }

    fn handle_end(&mut self) -> (items: Vec<ChatStreamItem>) {
        if self.core.done {
            no_items()
        } else {
            self.core.complete()
        }
    }

    fn handle_failure(&mut self) {
        self.core.done = true;
    }
}

/// The state of a stream of this protocol, as contracts see it.
pub type AnthropicStreamView = StreamView<CallState>;

/// The handler of the events of this protocol.
pub type AnthropicEvents = EventFields<AnthropicInterpreter>;

/// Turns the byte chunks of a response in this protocol into response
/// items.
pub struct AnthropicStreamProcessor {
    stream: NormalizedStream<AnthropicEvents>,
}

impl View for AnthropicStreamProcessor {
    type V = AnthropicStreamView;

    closed spec fn view(&self) -> AnthropicStreamView {
        self.stream.view()
    }
}

impl AnthropicStreamProcessor {
    /// A processor at the start of a response.
    pub fn new() -> (processor: Self)
        ensures
            processor@ == (StreamView {
                separator: event_separator(),
                carry: Seq::<u8>::empty(),
                handler: initial_state(),
            }),
            processor@.valid(),
    {
        Self {
            stream: NormalizedStream::from_parts(
                FrameDecoder::event_delimited(),
                EventFields::around(AnthropicInterpreter::new()),
            ),
        }
    }

    /// Takes the next chunk of the response and returns the items of the
    /// events that it completes, in the order of the events.
    pub fn push_chunk(&mut self, chunk: &[u8]) -> (items: Vec<ChatStreamItem>)
        ensures
            final(self)@ == after_chunk::<AnthropicEvents>(old(self)@, chunk@).0,
            items.deep_view() == after_chunk::<AnthropicEvents>(old(self)@, chunk@).1,
            final(self)@.valid(),
    {
        self.stream.push_chunk(chunk)
    }

    /// Takes note that the transport has failed: the sequence of items ends
    /// here.
    pub fn fail(&mut self)
        ensures
            final(self)@ == after_failure::<AnthropicEvents>(old(self)@),
    {
        self.stream.fail()
    }

    /// Ends the response. What was carried over is read as the last event,
    /// and the terminal item is given if it has not been given before.
    pub fn finish(&mut self) -> (items: Vec<ChatStreamItem>)
        ensures
            final(self)@ == after_end::<AnthropicEvents>(old(self)@).0,
            items.deep_view() == after_end::<AnthropicEvents>(old(self)@).1,
    {
        self.stream.finish()
    }
}

} // verus!
