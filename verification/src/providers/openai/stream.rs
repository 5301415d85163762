//! The event protocol with choices and deltas: each event is one JSON object
//! that may carry a text fragment, indexed fragments of tool calls, and an
//! object with the token usage. A sentinel payload ends the stream.
//!
//! The fragments of a tool call name the call by its index. The calls are
//! completed when the stream ends, and travel on the terminal item.
use crate::events::{done_sentinel, is_done_sentinel, EventFields};
use crate::framing::{event_separator, FrameDecoder};
use crate::items::{
    applied, applied_all, completion, initial_state, lemma_deltas_without_completion, no_items,
    CallCore, CallState, Delta, DeltaView, ToolCallDelta, ToolCallDeltaView,
};
use crate::json::{json_of_bytes, parse_json, Json, JsonView};
use crate::stream::{
    after_chunk, after_end, after_failure, FrameHandler, NormalizedStream, StreamView,
};
use crate::types::{ChatStreamItem, ChatStreamItemView};
use crate::usage::{usage_of_counts, TokenUsage};
use vstd::prelude::*;

verus! {

/// The usage that a chunk reports: the two counts `prompt_tokens` and
/// `completion_tokens` of its member `usage`. The total is computed from
/// them.
pub open spec fn reported_usage(chunk: JsonView) -> Option<TokenUsage> {
    match chunk.get("usage"@) {
        Some(object) => match (
            object.get_u32("prompt_tokens"@),
            object.get_u32("completion_tokens"@),
        ) {
            (Some(prompt), Some(completion)) => Some(usage_of_counts(prompt, completion)),
            _ => None,
        },
        None => None,
    }
}

/// The delta of the first choice of a chunk.
pub open spec fn first_delta(chunk: JsonView) -> Option<JsonView> {
    match chunk.get("choices"@) {
        Some(choices) => match choices.as_array() {
            Some(list) => if list.len() > 0 {
                list[0].get("delta"@)
            } else {
                None
            },
            None => None,
        },
        None => None,
    }
}

/// The index of a tool-call fragment: its member `index` or, without one,
/// its position among the fragments of its chunk.
pub open spec fn fragment_index(fragment: JsonView, position: int) -> u64 {
    match fragment.get("index"@) {
        Some(index) => match index.as_u64() {
            Some(n) => n,
            None => position as u64,
        },
        None => position as u64,
    }
}

/// The text of a member of the member `function` of a fragment.
pub open spec fn function_text(fragment: JsonView, key: Seq<char>) -> Option<Seq<char>> {
    match fragment.get("function"@) {
        Some(function) => function.get_str(key),
        None => None,
    }
}

/// The delta of one tool-call fragment: the index of its call and what it
/// gives of the id, the name and the argument text.
pub open spec fn delta_of_fragment(fragment: JsonView, position: int) -> DeltaView {
    DeltaView::ToolCall(
        ToolCallDeltaView::Indexed {
            index: fragment_index(fragment, position),
            id: fragment.get_str("id"@),
            name: function_text(fragment, "name"@),
            arguments: function_text(fragment, "arguments"@),
        },
    )
}

/// The tool-call fragments of a delta.
pub open spec fn call_fragments(delta: JsonView) -> Option<Seq<JsonView>> {
    match delta.get("tool_calls"@) {
        Some(list) => list.as_array(),
        None => None,
    }
}

/// The text of a delta: that of its member `content`, or none.
pub open spec fn delta_text(delta: JsonView) -> Seq<char> {
    match delta.get_str("content"@) {
        Some(text) => text,
        None => Seq::empty(),
    }
}

/// The deltas of the delta of a choice. With tool-call fragments: its
/// text, even if there is none, and then the fragments in order. Without:
/// its text, if there is any.
pub open spec fn deltas_of_choice(delta: JsonView) -> Seq<DeltaView> {
    match call_fragments(delta) {
        Some(fragments) => seq![DeltaView::Text(delta_text(delta))] + Seq::new(
            fragments.len(),
            |i: int| delta_of_fragment(fragments[i], i),
        ),
        None => if delta_text(delta).len() > 0 {
            seq![DeltaView::Text(delta_text(delta))]
        } else {
            Seq::empty()
        },
    }
}

/// The deltas of a chunk: the usage that it reports, if any, and then the
/// deltas of its first choice.
pub open spec fn deltas_of_chunk(chunk: JsonView) -> Seq<DeltaView> {
    (match reported_usage(chunk) {
        Some(usage) => seq![DeltaView::Usage(usage)],
        None => Seq::empty(),
    }) + (match first_delta(chunk) {
        Some(delta) => deltas_of_choice(delta),
        None => Seq::empty(),
    })
}

/// What a chunk does: what its deltas do, one after the other.
pub open spec fn on_chunk(state: CallState, chunk: JsonView) -> (
    CallState,
    Seq<ChatStreamItemView>,
) {
    applied_all(state, deltas_of_chunk(chunk))
}

/// What a payload does. After the terminal item, nothing. The sentinel
/// ends the stream. Any other payload is a chunk in JSON; one that is not
/// JSON is skipped.
pub open spec fn on_payload(state: CallState, payload: Seq<u8>) -> (
    CallState,
    Seq<ChatStreamItemView>,
) {
    if state.done {
        (state, Seq::empty())
    } else if payload == done_sentinel() {
        applied(state, DeltaView::Completion)
    } else {
        match json_of_bytes(payload) {
            Some(chunk) => on_chunk(state, chunk),
            None => (state, Seq::empty()),
        }
    }
}

/// A tool call in the making is never shown: an item that is not terminal
/// carries no tool call.
pub proof fn lemma_unfinished_calls_are_not_shown(state: CallState, payload: Seq<u8>)
    ensures
        forall|i: int|
            0 <= i < on_payload(state, payload).1.len() && !(#[trigger] on_payload(
                state,
                payload,
            ).1[i]).done ==> on_payload(state, payload).1[i].tool_calls is None,
{
    if !state.done && payload != done_sentinel() {
        if let Some(chunk) = json_of_bytes(payload) {
            let deltas = deltas_of_chunk(chunk);
            lemma_deltas_of_chunk(chunk);
            lemma_deltas_without_completion(state, deltas, deltas.len() as int);
        }
    }
}

/// Reads the payloads of the event protocol with choices and deltas.
pub struct OpenAIInterpreter {
    core: CallCore,
}

impl OpenAIInterpreter {
    /// An interpreter at the start of a response.
    pub fn new() -> (interpreter: Self)
        ensures
            interpreter.state() == initial_state(),
    {
        Self { core: CallCore::new() }
    }

    fn read_usage(chunk: &Json) -> (usage: Option<TokenUsage>)
        ensures
            usage == reported_usage(chunk@),
    {
        match chunk.get("usage") {
            Some(object) => match (
                object.get_u32("prompt_tokens"),
                object.get_u32("completion_tokens"),
            ) {
                (Some(prompt), Some(completion)) => Some(
                    TokenUsage::with_tokens(prompt, completion),
                ),
                _ => None,
            },
            None => None,
        }
    }

    fn read_first_delta(chunk: &Json) -> (delta: Option<&Json>)
        ensures
            delta.deep_view() == first_delta(chunk@),
    {
        match chunk.get("choices") {
            Some(choices) => match choices.as_array() {
                Some(list) => {
                    if list.len() > 0 {
                        assert(list.deep_view()[0] == list@[0]@);
                        list[0].get("delta")
                    } else {
                        None
                    }
                },
                None => None,
            },
            None => None,
        }
    }

    fn read_function_text<'a>(fragment: &'a Json, key: &str) -> (text: Option<&'a String>)
        ensures
            text.deep_view() == function_text(fragment@, key@),
    {
        match fragment.get("function") {
            Some(function) => function.get_str(key),
            None => None,
        }
    }

    fn interpret_fragment(fragment: &Json, position: usize) -> (delta: Delta)
        ensures
            delta@ == delta_of_fragment(fragment@, position as int),
    {
        let index: u64 = match fragment.get("index") {
            Some(index) => match index.as_u64() {
                Some(n) => n,
                None => position as u64,
            },
            None => position as u64,
        };
        Delta::ToolCall(
            ToolCallDelta::Indexed {
                index,
                id: copy_text(fragment.get_str("id")),
                name: copy_text(Self::read_function_text(fragment, "name")),
                arguments: copy_text(Self::read_function_text(fragment, "arguments")),
            },
        )
    }

    fn interpret_choice(delta: &Json, deltas: &mut Vec<Delta>)
        ensures
            final(deltas).deep_view() == old(deltas).deep_view() + deltas_of_choice(delta@),
    {
        let ghost before = deltas.deep_view();
        let text = match delta.get_str("content") {
            Some(text) => text.clone(),
            None => String::new(),
        };
        let fragments = match delta.get("tool_calls") {
            Some(list) => list.as_array(),
            None => None,
        };
        match fragments {
            Some(fragments) => {
                deltas.push(Delta::Text(text));
                let ghost first = deltas.deep_view();
                assert(first =~= before + seq![DeltaView::Text(delta_text(delta@))]);
                let mut i: usize = 0;
                while i < fragments.len()
                    invariant
                        i <= fragments.len(),
                        deltas@.len() == first.len() + i,
                        forall|k: int| 0 <= k < first.len() ==> (#[trigger] deltas@[k])@ == first[k],
                        forall|k: int|
                            first.len() <= k < first.len() + i ==> (#[trigger] deltas@[k])@
                                == delta_of_fragment(
                                fragments@[k - first.len()]@,
                                k - first.len(),
                            ),
                    decreases fragments.len() - i,
                {
                    deltas.push(Self::interpret_fragment(&fragments[i], i));
                    i += 1;
                }
                assert forall|k: int| 0 <= k < fragments.len() implies (
                #[trigger] fragments.deep_view()[k]) == fragments@[k]@ by {}
                assert(deltas.deep_view() =~= before + deltas_of_choice(delta@));
            },
            None => {
                if text.as_str().unicode_len() > 0 {
                    deltas.push(Delta::Text(text));
                    assert(deltas.deep_view() =~= before + deltas_of_choice(delta@));
                } else {
                    assert(deltas.deep_view() =~= before + deltas_of_choice(delta@));
                }
            },
        }
    }

    /// Reads the deltas of a chunk, given as JSON.
    pub fn interpret_chunk(chunk: &Json) -> (deltas: Vec<Delta>)
        ensures
            deltas.deep_view() == deltas_of_chunk(chunk@),
    {
        let mut deltas: Vec<Delta> = Vec::new();
        match Self::read_usage(chunk) {
            Some(usage) => {
                deltas.push(Delta::Usage(usage));
            },
            None => {},
        }
        assert(deltas.deep_view() =~= match reported_usage(chunk@) {
            Some(usage) => seq![DeltaView::Usage(usage)],
            None => Seq::empty(),
        });
        match Self::read_first_delta(chunk) {
            Some(delta) => {
                Self::interpret_choice(delta, &mut deltas);
            },
            None => {
                assert(deltas.deep_view() + Seq::<DeltaView>::empty() =~= deltas.deep_view());
            },
        }
        deltas
    }

    /// Reads one chunk, given as JSON.
    pub fn handle_chunk(&mut self, chunk: &Json) -> (items: Vec<ChatStreamItem>)
        ensures
            final(self).state() == on_chunk(old(self).state(), chunk@).0,
            items.deep_view() == on_chunk(old(self).state(), chunk@).1,
    {
        let deltas = Self::interpret_chunk(chunk);
        self.core.apply_all(deltas)
    }
}

/// A copy of a text, if there is one.
fn copy_text(text: Option<&String>) -> (copy: Option<String>)
    ensures
        copy.deep_view() == text.deep_view(),
{
    match text {
        Some(text) => Some(text.clone()),
        None => None,
    }
}

/// The deltas of a chunk hold no completion, and the usage among them is
/// consistent.
proof fn lemma_deltas_of_chunk(chunk: JsonView)
    ensures
        forall|i: int|
            0 <= i < deltas_of_chunk(chunk).len() ==> !((#[trigger] deltas_of_chunk(chunk)[i])
                is Completion),
        forall|i: int|
            0 <= i < deltas_of_chunk(chunk).len() ==> ((#[trigger] deltas_of_chunk(
                chunk,
            )[i]) matches DeltaView::Usage(usage) ==> usage.consistent()),
{
}

impl FrameHandler for OpenAIInterpreter {
    type State = CallState;

    closed spec fn state(&self) -> CallState {
        self.core@
    }

    open spec fn is_done(state: CallState) -> bool {
        state.done
    }

    open spec fn holds_consistent_usage(state: CallState) -> bool {
        state.usage matches Some(usage) ==> usage.consistent()
    }

    open spec fn on_frame(state: CallState, frame: Seq<u8>) -> (CallState, Seq<ChatStreamItemView>) {
        on_payload(state, frame)
    }

    open spec fn on_end(state: CallState) -> (CallState, Seq<ChatStreamItemView>) {
        if state.done {
            (state, Seq::empty())
        } else {
            completion(state)
        }
    }

    open spec fn on_failure(state: CallState) -> CallState {
        CallState { done: true, ..state }
    }

    proof fn lemma_on_frame(state: CallState, frame: Seq<u8>) {
        if !state.done && frame != done_sentinel() {
            if let Some(chunk) = json_of_bytes(frame) {
                let deltas = deltas_of_chunk(chunk);
                lemma_deltas_of_chunk(chunk);
                lemma_deltas_without_completion(state, deltas, deltas.len() as int);
            }
        }
    }

    proof fn lemma_on_failure(state: CallState) {
    }

    proof fn lemma_on_end(state: CallState) {
    }

    fn handle_frame(&mut self, frame: &[u8]) -> (items: Vec<ChatStreamItem>) {
        if self.core.done {
            no_items()
        } else if is_done_sentinel(frame) {
            self.core.apply(Delta::Completion)
        } else {
            match parse_json(frame) {
                Ok(chunk) => self.handle_chunk(&chunk),
                Err(_) => no_items(),
            }
        }
    }

    fn handle_end(&mut self) -> (items: Vec<ChatStreamItem>) {
        if self.core.done {
            no_items()
        } else {
            self.core.complete()
        }
    }

    fn handle_failure(&mut self) {
        self.core.done = true;
    }
}

/// The state of a stream of this protocol, as contracts see it.
pub type OpenAIStreamView = StreamView<CallState>;

/// The handler of the events of this protocol.
pub type OpenAIEvents = EventFields<OpenAIInterpreter>;

/// Turns the byte chunks of a response in this protocol into response
/// items.
pub struct OpenAIStreamProcessor {
    stream: NormalizedStream<OpenAIEvents>,
}

impl View for OpenAIStreamProcessor {
    type V = OpenAIStreamView;

    closed spec fn view(&self) -> OpenAIStreamView {
        self.stream.view()
    }
}

impl OpenAIStreamProcessor {
    /// A processor at the start of a response.
    pub fn new() -> (processor: Self)
        ensures
            processor@ == (StreamView {
                separator: event_separator(),
                carry: Seq::<u8>::empty(),
                handler: initial_state(),
            }),
            processor@.valid(),
    {
        Self {
            stream: NormalizedStream::from_parts(
                FrameDecoder::event_delimited(),
                EventFields::around(OpenAIInterpreter::new()),
            ),
        }
    }

    /// Takes the next chunk of the response and returns the items of the
    /// events that it completes, in the order of the events.
    pub fn push_chunk(&mut self, chunk: &[u8]) -> (items: Vec<ChatStreamItem>)
        ensures
            final(self)@ == after_chunk::<OpenAIEvents>(old(self)@, chunk@).0,
            items.deep_view() == after_chunk::<OpenAIEvents>(old(self)@, chunk@).1,
            final(self)@.valid(),
    {
        self.stream.push_chunk(chunk)
    }

    /// Takes note that the transport has failed: the sequence of items ends
    /// here.
    pub fn fail(&mut self)
        ensures
            final(self)@ == after_failure::<OpenAIEvents>(old(self)@),
    {
        self.stream.fail()
    }

    /// Ends the response. What was carried over is read as the last event,
    /// and the terminal item is given if it has not been given before.
    pub fn finish(&mut self) -> (items: Vec<ChatStreamItem>)
        ensures
            final(self)@ == after_end::<OpenAIEvents>(old(self)@).0,
            items.deep_view() == after_end::<OpenAIEvents>(old(self)@).1,
    {
        self.stream.finish()
    }
}

} // verus!
