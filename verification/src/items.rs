//! Deltas, and what they do: the increments that an interpreter reads from
//! a frame, the state that they change, and the items that they give.
//!
//! The interpreters of the protocols with tool-call fragments share this
//! part.
use crate::accumulator::{
    all_closed, appended_to_latest, completed, merged, opened, SlotKeyView, SlotView,
    ToolCallAccumulator,
};
use crate::types::{ChatStreamItem, ChatStreamItemView, ToolCall};
use crate::usage::TokenUsage;
use vstd::prelude::*;

verus! {

/// The state of an interpreter, as contracts see it.
pub struct CallState {
    /// The tool calls in the making, in the order in which they were opened.
    pub slots: Seq<SlotView>,
    /// The token usage reported so far.
    pub usage: Option<TokenUsage>,
    /// Whether the terminal item has been given.
    pub done: bool,
}

/// The state at the start of a response.
pub open spec fn initial_state() -> CallState {
    CallState { slots: Seq::empty(), usage: None, done: false }
}

/// An item that carries text and nothing else.
pub open spec fn text_item(text: Seq<char>) -> ChatStreamItemView {
    ChatStreamItemView { content: text, tool_calls: None, done: false, usage: None }
}

/// The terminal item: the calls that the slots complete to, if there are
/// any, and the usage reported so far.
pub open spec fn terminal_item(slots: Seq<SlotView>, usage: Option<TokenUsage>)
    -> ChatStreamItemView {
    ChatStreamItemView {
        content: Seq::empty(),
        tool_calls: if completed(slots).len() > 0 {
            Some(completed(slots))
        } else {
            None
        },
        done: true,
        usage,
    }
}

/// The end of the response: the terminal item is given, and no slot is
/// left.
pub open spec fn completion(state: CallState) -> (CallState, Seq<ChatStreamItemView>) {
    (
        CallState { slots: Seq::empty(), usage: state.usage, done: true },
        seq![terminal_item(state.slots, state.usage)],
    )
}

/// What a frame says of a tool call.
#[derive(Debug, Clone, PartialEq, Eq)]
pub enum ToolCallDelta {
    /// A call is announced with its id and its name.
    Opened { id: String, name: String },
    /// A fragment of the call with the given index: any of its id, its
    /// name and a piece of its argument text.
    Indexed { index: u64, id: Option<String>, name: Option<String>, arguments: Option<String> },
    /// A piece of argument text that names no call.
    Unnamed { arguments: String },
    /// The calls announced so far take no more pieces that name no call.
    Closed,
}

/// One increment of a response, as an interpreter reads it from a frame.
#[derive(Debug, Clone, PartialEq, Eq)]
pub enum Delta {
    /// Text to show.
    Text(String),
    /// Something about a tool call.
    ToolCall(ToolCallDelta),
    /// The token usage of the response.
    Usage(TokenUsage),
    /// The response is complete.
    Completion,
}

/// A [`ToolCallDelta`], as contracts see it.
pub enum ToolCallDeltaView {
    Opened { id: Seq<char>, name: Seq<char> },
    Indexed {
        index: u64,
        id: Option<Seq<char>>,
        name: Option<Seq<char>>,
        arguments: Option<Seq<char>>,
    },
    Unnamed { arguments: Seq<char> },
    Closed,
}

/// A [`Delta`], as contracts see it.
pub enum DeltaView {
    Text(Seq<char>),
    ToolCall(ToolCallDeltaView),
    Usage(TokenUsage),
    Completion,
}

impl View for ToolCallDelta {
    type V = ToolCallDeltaView;

    open spec fn view(&self) -> ToolCallDeltaView {
        match self {
            ToolCallDelta::Opened { id, name } => ToolCallDeltaView::Opened { id: id@, name: name@ },
            ToolCallDelta::Indexed { index, id, name, arguments } => ToolCallDeltaView::Indexed {
                index: *index,
                id: id.deep_view(),
                name: name.deep_view(),
                arguments: arguments.deep_view(),
            },
            ToolCallDelta::Unnamed { arguments } => ToolCallDeltaView::Unnamed {
                arguments: arguments@,
            },
            ToolCallDelta::Closed => ToolCallDeltaView::Closed,
        }
    }
}

impl View for Delta {
    type V = DeltaView;

    open spec fn view(&self) -> DeltaView {
        match self {
            Delta::Text(text) => DeltaView::Text(text@),
            Delta::ToolCall(delta) => DeltaView::ToolCall(delta@),
            Delta::Usage(usage) => DeltaView::Usage(*usage),
            Delta::Completion => DeltaView::Completion,
        }
    }
}

impl DeepView for Delta {
    type V = DeltaView;

    open spec fn deep_view(&self) -> DeltaView {
        self@
    }
}

/// The slots after what a frame says of a tool call.
pub open spec fn slots_after(slots: Seq<SlotView>, delta: ToolCallDeltaView) -> Seq<SlotView> {
    match delta {
        ToolCallDeltaView::Opened { id, name } => opened(slots, SlotKeyView::Id(id), Some(id), name),
        ToolCallDeltaView::Indexed { index, id, name, arguments } => merged(
            slots,
            index,
            id,
            name,
            arguments,
        ),
        ToolCallDeltaView::Unnamed { arguments } => appended_to_latest(slots, arguments),
        ToolCallDeltaView::Closed => all_closed(slots),
    }
}

/// What a delta does to the state, and the items that it gives. Text gives
/// an item. What a frame says of a tool call goes into the slots and is not
/// shown. Usage is kept for the terminal item. The completion gives the
/// terminal item.
pub open spec fn applied(state: CallState, delta: DeltaView) -> (
    CallState,
    Seq<ChatStreamItemView>,
) {
    match delta {
        DeltaView::Text(text) => (state, seq![text_item(text)]),
        DeltaView::ToolCall(call) => (
            CallState { slots: slots_after(state.slots, call), ..state },
            Seq::empty(),
        ),
        DeltaView::Usage(usage) => (CallState { usage: Some(usage), ..state }, Seq::empty()),
        DeltaView::Completion => completion(state),
    }
}

/// What the first `upto` deltas do, one after the other.
pub open spec fn applied_upto(state: CallState, deltas: Seq<DeltaView>, upto: int) -> (
    CallState,
    Seq<ChatStreamItemView>,
)
    decreases upto,
{
    if upto <= 0 || upto > deltas.len() {
        (state, Seq::empty())
    } else {
        let before = applied_upto(state, deltas, upto - 1);
        let last = applied(before.0, deltas[upto - 1]);
        (last.0, before.1 + last.1)
    }
}

/// What the deltas do, one after the other.
pub open spec fn applied_all(state: CallState, deltas: Seq<DeltaView>) -> (
    CallState,
    Seq<ChatStreamItemView>,
) {
    applied_upto(state, deltas, deltas.len() as int)
}

/// Deltas without a completion give no terminal item and do not end the
/// response; they keep the usage consistent if it was and if theirs is.
pub proof fn lemma_deltas_without_completion(state: CallState, deltas: Seq<DeltaView>, upto: int)
    requires
        0 <= upto <= deltas.len(),
        forall|i: int| 0 <= i < deltas.len() ==> !((#[trigger] deltas[i]) is Completion),
    ensures
        applied_upto(state, deltas, upto).0.done == state.done,
        forall|i: int|
            0 <= i < applied_upto(state, deltas, upto).1.len() ==> {
                &&& !(#[trigger] applied_upto(state, deltas, upto).1[i]).done
                &&& applied_upto(state, deltas, upto).1[i].usage is None
                &&& applied_upto(state, deltas, upto).1[i].tool_calls is None
            },
        (state.usage matches Some(usage) ==> usage.consistent()) && (forall|i: int|
            0 <= i < deltas.len() ==> ((#[trigger] deltas[i]) matches DeltaView::Usage(usage)
                ==> usage.consistent())) ==> (applied_upto(state, deltas, upto).0.usage matches Some(
            usage,
        ) ==> usage.consistent()),
    decreases upto,
{
    if upto > 0 {
        lemma_deltas_without_completion(state, deltas, upto - 1);
    }
}

/// No item.
pub fn no_items() -> (items: Vec<ChatStreamItem>)
    ensures
        items.deep_view() == Seq::<ChatStreamItemView>::empty(),
{
    let items: Vec<ChatStreamItem> = Vec::new();
    assert(items.deep_view() =~= Seq::<ChatStreamItemView>::empty());
    items
}

/// One item.
pub fn one_item(item: ChatStreamItem) -> (items: Vec<ChatStreamItem>)
    ensures
        items.deep_view() == seq![item@],
{
    let mut items: Vec<ChatStreamItem> = Vec::new();
    items.push(item);
    assert(items.deep_view() =~= seq![item@]);
    items
}

/// The calls, if there are any.
pub fn calls_if_any(calls: Vec<ToolCall>) -> (listed: Option<Vec<ToolCall>>)
    ensures
        listed.deep_view() == if calls.deep_view().len() > 0 {
            Some(calls.deep_view())
        } else {
            None
        },
{
    if calls.len() > 0 {
        Some(calls)
    } else {
        None
    }
}

/// The part of an interpreter that gathers tool calls and usage.
pub struct CallCore {
    pub(crate) accumulator: ToolCallAccumulator,
    pub(crate) usage: Option<TokenUsage>,
    pub(crate) done: bool,
}

impl View for CallCore {
    type V = CallState;

    open(crate) spec fn view(&self) -> CallState {
        CallState { slots: self.accumulator@, usage: self.usage, done: self.done }
    }
}

impl CallCore {
    /// The core at the start of a response.
    pub fn new() -> (core: Self)
        ensures
            core@ == initial_state(),
    {
        Self { accumulator: ToolCallAccumulator::new(), usage: None, done: false }
    }

    /// Takes a delta: see [`applied`].
    pub fn apply(&mut self, delta: Delta) -> (items: Vec<ChatStreamItem>)
        ensures
            final(self)@ == applied(old(self)@, delta@).0,
            items.deep_view() == applied(old(self)@, delta@).1,
    {
        match delta {
            Delta::Text(text) => one_item(
                ChatStreamItem { content: text, tool_calls: None, done: false, usage: None },
            ),
            Delta::ToolCall(call) => {
                match call {
                    ToolCallDelta::Opened { id, name } => {
                        self.accumulator.open_slot(id.as_str(), name.as_str());
                    },
                    ToolCallDelta::Indexed { index, id, name, arguments } => {
                        self.accumulator.merge_indexed(
                            index,
                            id.as_ref(),
                            name.as_ref(),
                            arguments.as_ref(),
                        );
                    },
                    ToolCallDelta::Unnamed { arguments } => {
                        self.accumulator.append_to_latest(arguments.as_str());
                    },
                    ToolCallDelta::Closed => {
                        self.accumulator.close_open_slots();
                    },
                }
                no_items()
            },
            Delta::Usage(usage) => {
                self.usage = Some(usage);
                no_items()
            },
            Delta::Completion => self.complete(),
        }
    }

    /// Takes the deltas, one after the other.
    pub fn apply_all(&mut self, deltas: Vec<Delta>) -> (items: Vec<ChatStreamItem>)
        ensures
            final(self)@ == applied_all(old(self)@, deltas.deep_view()).0,
            items.deep_view() == applied_all(old(self)@, deltas.deep_view()).1,
    {
        let ghost all = deltas.deep_view();
        let ghost total = deltas.len();
        let mut rest = deltas;
        let mut items: Vec<ChatStreamItem> = no_items();
        let mut taken: usize = 0;
        while rest.len() > 0
            invariant
                taken + rest.len() == total,
                all.len() == total,
                rest.deep_view() == all.skip(taken as int),
                self@ == applied_upto(old(self)@, all, taken as int).0,
                items.deep_view() == applied_upto(old(self)@, all, taken as int).1,
            decreases rest.len(),
        {
            let ghost before = rest.deep_view();
            let ghost plain = rest@;
            let delta = rest.remove(0);
            assert(delta@ == before[0]);
            assert forall|k: int| 0 <= k < rest@.len() implies #[trigger] rest.deep_view()[k]
                == all.skip(taken as int + 1)[k] by {
                assert(rest@[k] == plain[k + 1]);
                assert(before[k + 1] == plain[k + 1]@);
            }
            assert(rest.deep_view() =~= all.skip(taken as int + 1));
            let mut more = self.apply(delta);
            crate::stream::append_items(&mut items, &mut more);
            taken += 1;
        }
        items
    }

    /// Completes the calls and gives the terminal item.
    pub fn complete(&mut self) -> (items: Vec<ChatStreamItem>)
        ensures
            final(self)@ == completion(old(self)@).0,
            items.deep_view() == completion(old(self)@).1,
    {
        let calls = self.accumulator.complete();
        self.done = true;
        one_item(
            ChatStreamItem {
                content: String::new(),
                tool_calls: calls_if_any(calls),
                done: true,
                usage: self.usage,
            },
        )
    }
}

} // verus!
