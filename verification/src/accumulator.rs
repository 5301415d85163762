//! The tool-call accumulator: merges the fragments of tool calls, which
//! arrive over many frames, into complete calls.
//!
//! Each call has a slot, found by the index or the id under which the
//! back-end announced it. The slots stand in the order in which they were
//! opened. The argument text of a slot grows by concatenation; it is parsed
//! as JSON only when the stream completes.
use crate::json::{json_of_text, parse_json_text};
use crate::types::{Function, FunctionView, ToolCall, ToolCallView};
use vstd::prelude::*;
use vstd::string::StringExecFns;

verus! {

/// What a slot is found by.
#[derive(Debug, Clone, PartialEq, Eq)]
pub enum SlotKey {
    /// The position that the back-end gave the call.
    Index(u64),
    /// The id that the back-end issued for the call.
    Id(String),
}

/// A [`SlotKey`], as contracts see it.
pub enum SlotKeyView {
    Index(u64),
    Id(Seq<char>),
}

impl View for SlotKey {
    type V = SlotKeyView;

    open spec fn view(&self) -> SlotKeyView {
        match self {
            SlotKey::Index(index) => SlotKeyView::Index(*index),
            SlotKey::Id(id) => SlotKeyView::Id(id@),
        }
    }
}

impl SlotKey {
    /// Whether two keys are the same.
    pub fn same(&self, other: &SlotKey) -> (same: bool)
        ensures
            same == (self@ == other@),
    {
        match (self, other) {
            (SlotKey::Index(a), SlotKey::Index(b)) => *a == *b,
            (SlotKey::Id(a), SlotKey::Id(b)) => *a == *b,
            _ => false,
        }
    }
}

/// One tool call in the making, as contracts see it.
pub struct SlotView {
    pub key: SlotKeyView,
    pub id: Option<Seq<char>>,
    pub name: Seq<char>,
    /// The argument text received so far.
    pub arguments: Seq<char>,
    /// Whether the slot still takes fragments that name no slot.
    pub open: bool,
}

struct Slot {
    key: SlotKey,
    id: Option<String>,
    name: String,
    arguments: String,
    open: bool,
}

impl View for Slot {
    type V = SlotView;

    closed spec fn view(&self) -> SlotView {
        SlotView {
            key: self.key@,
            id: self.id.deep_view(),
            name: self.name@,
            arguments: self.arguments@,
            open: self.open,
        }
    }
}

impl DeepView for Slot {
    type V = SlotView;

    closed spec fn deep_view(&self) -> SlotView {
        self@
    }
}

/// The position of the slot with the given key, at or after `from`.
pub open spec fn position_from(slots: Seq<SlotView>, key: SlotKeyView, from: int) -> Option<int>
    decreases slots.len() - from,
{
    if from < 0 || from >= slots.len() {
        None
    } else if slots[from].key == key {
        Some(from)
    } else {
        position_from(slots, key, from + 1)
    }
}

/// The position of the most recently opened slot that is still open.
pub open spec fn latest_open(slots: Seq<SlotView>) -> Option<int>
    decreases slots.len(),
{
    if slots.len() == 0 {
        None
    } else if slots.last().open {
        Some(slots.len() - 1)
    } else {
        latest_open(slots.drop_last())
    }
}

/// A fresh open slot, with no argument text yet.
pub open spec fn fresh_slot(key: SlotKeyView, id: Option<Seq<char>>, name: Seq<char>) -> SlotView {
    SlotView { key, id, name, arguments: Seq::empty(), open: true }
}

/// The slots after a call was announced under `key`: a fresh slot stands
/// last. A slot that had the key before is gone.
pub open spec fn opened(
    slots: Seq<SlotView>,
    key: SlotKeyView,
    id: Option<Seq<char>>,
    name: Seq<char>,
) -> Seq<SlotView> {
    match position_from(slots, key, 0) {
        Some(at) => slots.remove(at).push(fresh_slot(key, id, name)),
        None => slots.push(fresh_slot(key, id, name)),
    }
}

/// The slots after `fragment` was added to the argument text of the slot at
/// position `at`.
pub open spec fn appended(slots: Seq<SlotView>, at: int, fragment: Seq<char>) -> Seq<SlotView> {
    if 0 <= at < slots.len() {
        slots.update(at, SlotView { arguments: slots[at].arguments + fragment, ..slots[at] })
    } else {
        slots
    }
}

/// The slots after a fragment that names no slot: it goes to the most
/// recently opened slot that is still open, and is dropped if there is none.
pub open spec fn appended_to_latest(slots: Seq<SlotView>, fragment: Seq<char>) -> Seq<SlotView> {
    match latest_open(slots) {
        Some(at) => appended(slots, at, fragment),
        None => slots,
    }
}

/// The slots, all closed.
pub open spec fn all_closed(slots: Seq<SlotView>) -> Seq<SlotView> {
    Seq::new(slots.len(), |i: int| SlotView { open: false, ..slots[i] })
}

/// The text, if there is one and it is not empty.
pub open spec fn given(text: Option<Seq<char>>) -> Option<Seq<char>> {
    match text {
        Some(t) if t.len() > 0 => Some(t),
        _ => None,
    }
}

/// The slots after a fragment of the call with the given index. A call not
/// seen before gets a fresh slot with the id and the name of the fragment.
/// Then an id or a name that the fragment gives, and that is not empty,
/// replaces the one of the slot, and the argument text of the fragment is
/// added to that of the slot.
pub open spec fn merged(
    slots: Seq<SlotView>,
    index: u64,
    id: Option<Seq<char>>,
    name: Option<Seq<char>>,
    fragment: Option<Seq<char>>,
) -> Seq<SlotView> {
    let key = SlotKeyView::Index(index);
    let (base, at) = match position_from(slots, key, 0) {
        Some(at) => (slots, at),
        None => (
            slots.push(
                fresh_slot(
                    key,
                    id,
                    match name {
                        Some(n) => n,
                        None => Seq::empty(),
                    },
                ),
            ),
            slots.len() as int,
        ),
    };
    let slot = base[at];
    base.update(
        at,
        SlotView {
            key: slot.key,
            id: match given(id) {
                Some(i) => Some(i),
                None => slot.id,
            },
            name: match given(name) {
                Some(n) => n,
                None => slot.name,
            },
            arguments: match fragment {
                Some(f) => slot.arguments + f,
                None => slot.arguments,
            },
            open: slot.open,
        },
    )
}

/// The call that a slot completes to: `None` where its argument text is
/// not JSON.
pub open spec fn completed_slot(slot: SlotView) -> Option<ToolCallView> {
    match json_of_text(slot.arguments) {
        Some(arguments) => Some(
            ToolCallView { id: slot.id, function: FunctionView { name: slot.name, arguments } },
        ),
        None => None,
    }
}

/// The completed calls of the first `upto` slots, in the order of the
/// slots. A slot whose argument text is not JSON gives no call.
pub open spec fn completed_upto(slots: Seq<SlotView>, upto: int) -> Seq<ToolCallView>
    decreases upto,
{
    if upto <= 0 || upto > slots.len() {
        Seq::empty()
    } else {
        match completed_slot(slots[upto - 1]) {
            Some(call) => completed_upto(slots, upto - 1).push(call),
            None => completed_upto(slots, upto - 1),
        }
    }
}

/// The completed calls of all slots.
pub open spec fn completed(slots: Seq<SlotView>) -> Seq<ToolCallView> {
    completed_upto(slots, slots.len() as int)
}

/// The fragments, joined in order.
pub open spec fn joined(fragments: Seq<Seq<char>>) -> Seq<char>
    decreases fragments.len(),
{
    if fragments.len() == 0 {
        Seq::empty()
    } else {
        joined(fragments.drop_last()) + fragments.last()
    }
}

/// The slots after the fragments were added, one after the other, to the
/// slot at position `at`.
pub open spec fn appended_all(slots: Seq<SlotView>, at: int, fragments: Seq<Seq<char>>) -> Seq<
    SlotView,
>
    decreases fragments.len(),
{
    if fragments.len() == 0 {
        slots
    } else {
        appended(appended_all(slots, at, fragments.drop_last()), at, fragments.last())
    }
}

/// Fragments that arrive one after the other for one slot add up to their
/// concatenation in the order of arrival, and touch no other slot.
pub proof fn lemma_fragments_concatenate(slots: Seq<SlotView>, at: int, fragments: Seq<Seq<char>>)
    requires
        0 <= at < slots.len(),
    ensures
        appended_all(slots, at, fragments) == appended(slots, at, joined(fragments)),
    decreases fragments.len(),
{
    if fragments.len() == 0 {
        assert(slots[at].arguments + Seq::<char>::empty() =~= slots[at].arguments);
        assert(appended(slots, at, Seq::empty()) =~= slots);
    } else {
        lemma_fragments_concatenate(slots, at, fragments.drop_last());
        let before = joined(fragments.drop_last());
        assert((slots[at].arguments + before) + fragments.last() =~= slots[at].arguments + (before
            + fragments.last()));
        assert(appended(appended(slots, at, before), at, fragments.last()) =~= appended(
            slots,
            at,
            before + fragments.last(),
        ));
    }
}

/// However an argument text is cut into fragments, the slot ends up the
/// same: two deliveries with the same concatenation give the same slots.
pub proof fn lemma_grouping_is_irrelevant(
    slots: Seq<SlotView>,
    at: int,
    one: Seq<Seq<char>>,
    other: Seq<Seq<char>>,
)
    requires
        0 <= at < slots.len(),
        joined(one) == joined(other),
    ensures
        appended_all(slots, at, one) == appended_all(slots, at, other),
{
    lemma_fragments_concatenate(slots, at, one);
    lemma_fragments_concatenate(slots, at, other);
}

/// Every completed call comes from a slot whose argument text is JSON, and
/// carries that JSON value: a malformed text completes to no call.
pub proof fn lemma_completed_calls_are_well_formed(slots: Seq<SlotView>, upto: int)
    requires
        0 <= upto <= slots.len(),
    ensures
        completed_upto(slots, upto).len() <= upto,
        forall|c: int|
            0 <= c < completed_upto(slots, upto).len() ==> exists|s: int|
                0 <= s < upto && #[trigger] completed_slot(slots[s]) == Some(
                    #[trigger] completed_upto(slots, upto)[c],
                ),
    decreases upto,
{
    if upto > 0 {
        lemma_completed_calls_are_well_formed(slots, upto - 1);
        let calls = completed_upto(slots, upto);
        let before = completed_upto(slots, upto - 1);
        assert forall|c: int| 0 <= c < calls.len() implies exists|s: int|
            0 <= s < upto && #[trigger] completed_slot(slots[s]) == Some(#[trigger] calls[c]) by {
            if c < before.len() {
                let s = choose|s: int|
                    0 <= s < upto - 1 && #[trigger] completed_slot(slots[s]) == Some(before[c]);
                assert(completed_slot(slots[s]) == Some(calls[c]));
            } else {
                assert(completed_slot(slots[upto - 1]) == Some(calls[c]));
            }
        }
    }
}

/// Last opened wins: the slot that takes a fragment that names no slot is
/// open, and every slot behind it is closed.
pub proof fn lemma_latest_open(slots: Seq<SlotView>)
    ensures
        match latest_open(slots) {
            Some(at) => {
                &&& 0 <= at < slots.len()
                &&& slots[at].open
                &&& forall|j: int| at < j < slots.len() ==> !(#[trigger] slots[j]).open
            },
            None => forall|j: int| 0 <= j < slots.len() ==> !(#[trigger] slots[j]).open,
        },
    decreases slots.len(),
{
    if slots.len() > 0 && !slots.last().open {
        lemma_latest_open(slots.drop_last());
        assert forall|j: int| 0 <= j < slots.len() - 1 implies slots[j] == slots.drop_last()[j] by {}
    }
}

/// No two slots have the same key.
pub open spec fn distinct_keys(slots: Seq<SlotView>) -> bool {
    forall|i: int, j: int|
        0 <= i < j < slots.len() ==> (#[trigger] slots[i]).key != (#[trigger] slots[j]).key
}

/// `position_from` returns the first position at or after `from` of a slot
/// with the key, and `None` exactly when there is none.
pub proof fn lemma_position_from(slots: Seq<SlotView>, key: SlotKeyView, from: int)
    requires
        0 <= from,
    ensures
        match position_from(slots, key, from) {
            Some(at) => {
                &&& from <= at < slots.len()
                &&& slots[at].key == key
                &&& forall|j: int| from <= j < at ==> (#[trigger] slots[j]).key != key
            },
            None => forall|j: int| from <= j < slots.len() ==> (#[trigger] slots[j]).key != key,
        },
    decreases slots.len() - from,
{
    if from < slots.len() && slots[from].key != key {
        lemma_position_from(slots, key, from + 1);
    }
}

/// Within one stream no two slots share a key: slots with distinct keys
/// have distinct keys after every operation of the accumulator.
pub proof fn lemma_keys_stay_distinct(
    slots: Seq<SlotView>,
    key: SlotKeyView,
    index: u64,
    id: Option<Seq<char>>,
    name: Option<Seq<char>>,
    fragment: Option<Seq<char>>,
    text: Seq<char>,
    at: int,
)
    requires
        distinct_keys(slots),
    ensures
        distinct_keys(opened(slots, key, id, text)),
        distinct_keys(merged(slots, index, id, name, fragment)),
        distinct_keys(appended(slots, at, text)),
        distinct_keys(appended_to_latest(slots, text)),
        distinct_keys(all_closed(slots)),
{
    lemma_position_from(slots, key, 0);
    lemma_position_from(slots, SlotKeyView::Index(index), 0);
    let after = opened(slots, key, id, text);
    assert forall|i: int, j: int| 0 <= i < j < after.len() implies (#[trigger] after[i]).key != (
    #[trigger] after[j]).key by {
        match position_from(slots, key, 0) {
            Some(gone) => {
                let kept = slots.remove(gone);
                let from = |k: int|
                    if k < gone {
                        k
                    } else {
                        k + 1
                    };
                assert(after[i] == slots[from(i)]);
                if j < kept.len() {
                    assert(after[j] == slots[from(j)]);
                } else {
                    assert(after[j].key == key);
                    assert(slots[from(i)].key != slots[gone].key);
                }
            },
            None => {
                if j < slots.len() {
                    assert(after[i] == slots[i] && after[j] == slots[j]);
                } else {
                    assert(after[i] == slots[i]);
                }
            },
        }
    }
    let merging = merged(slots, index, id, name, fragment);
    assert forall|i: int, j: int| 0 <= i < j < merging.len() implies (#[trigger] merging[i]).key
        != (#[trigger] merging[j]).key by {
        match position_from(slots, SlotKeyView::Index(index), 0) {
            Some(found) => {
                assert(merging[i].key == slots[i].key && merging[j].key == slots[j].key);
            },
            None => {
                assert(merging[i].key == slots[i].key);
                if j < slots.len() {
                    assert(merging[j].key == slots[j].key);
                }
            },
        }
    }
    let adding = appended(slots, at, text);
    assert forall|i: int, j: int| 0 <= i < j < adding.len() implies (#[trigger] adding[i]).key != (
    #[trigger] adding[j]).key by {
        assert(adding[i].key == slots[i].key && adding[j].key == slots[j].key);
    }
    let latest = appended_to_latest(slots, text);
    assert forall|i: int, j: int| 0 <= i < j < latest.len() implies (#[trigger] latest[i]).key != (
    #[trigger] latest[j]).key by {
        assert(latest[i].key == slots[i].key && latest[j].key == slots[j].key);
    }
    let closed = all_closed(slots);
    assert forall|i: int, j: int| 0 <= i < j < closed.len() implies (#[trigger] closed[i]).key != (
    #[trigger] closed[j]).key by {
        assert(closed[i].key == slots[i].key && closed[j].key == slots[j].key);
    }
}

/// Merges the fragments of tool calls into complete calls.
pub struct ToolCallAccumulator {
    slots: Vec<Slot>,
}

impl View for ToolCallAccumulator {
    type V = Seq<SlotView>;

    closed spec fn view(&self) -> Seq<SlotView> {
        self.slots.deep_view()
    }
}

impl ToolCallAccumulator {
    /// An accumulator without slots.
    pub fn new() -> (accumulator: Self)
        ensures
            accumulator@ == Seq::<SlotView>::empty(),
    {
        let accumulator = Self { slots: Vec::new() };
        assert(accumulator@ =~= Seq::<SlotView>::empty());
        accumulator
    }

    /// Whether there is no slot.
    pub fn is_empty(&self) -> (empty: bool)
        ensures
            empty == (self@.len() == 0),
    {
        self.slots.len() == 0
    }

    fn position(&self, key: &SlotKey) -> (found: Option<usize>)
        ensures
            match found {
                Some(at) => position_from(self@, key@, 0) == Some(at as int) && at < self@.len(),
                None => position_from(self@, key@, 0) is None,
            },
    {
        let mut i: usize = 0;
        while i < self.slots.len()
            invariant
                i <= self.slots.len(),
                self@.len() == self.slots@.len(),
                position_from(self@, key@, 0) == position_from(self@, key@, i as int),
            decreases self.slots.len() - i,
        {
            assert(self@[i as int] == self.slots@[i as int]@);
            if self.slots[i].key.same(key) {
                return Some(i);
            }
            i += 1;
        }
        None
    }

    fn latest(&self) -> (found: Option<usize>)
        ensures
            match found {
                Some(at) => latest_open(self@) == Some(at as int) && at < self@.len(),
                None => latest_open(self@) is None,
            },
    {
        let mut i: usize = self.slots.len();
        assert(self@.take(i as int) =~= self@);
        while i > 0
            invariant
                i <= self.slots.len(),
                self@.len() == self.slots@.len(),
                latest_open(self@) == latest_open(self@.take(i as int)),
            decreases i,
        {
            assert(self@[i - 1] == self.slots@[i - 1]@);
            assert(self@.take(i as int).last() == self@[i - 1]);
            assert(self@.take(i as int).drop_last() =~= self@.take(i - 1));
            if self.slots[i - 1].open {
                return Some(i - 1);
            }
            i -= 1;
        }
        None
    }

    fn append_at(&mut self, at: usize, fragment: &str)
        requires
            at < old(self)@.len(),
        ensures
            final(self)@ == appended(old(self)@, at as int, fragment@),
    {
        let ghost before = self@;
        let mut slot = self.slots.remove(at);
        assert(slot@ == before[at as int]);
        slot.arguments.append(fragment);
        self.slots.insert(at, slot);
        assert(self@ =~= appended(before, at as int, fragment@));
    }

    /// Opens a slot for a call that the back-end announced with an id and a
    /// name. The slot stands last; a slot that had the id before is gone.
    pub fn open_slot(&mut self, id: &str, name: &str)
        ensures
            final(self)@ == opened(old(self)@, SlotKeyView::Id(id@), Some(id@), name@),
    {
        let ghost before = self@;
        let key = SlotKey::Id(id.to_owned());
        match self.position(&key) {
            Some(at) => {
                self.slots.remove(at);
                assert(self@ =~= before.remove(at as int));
            },
            None => {},
        }
        let ghost kept = self@;
        let slot = Slot {
            key,
            id: Some(id.to_owned()),
            name: name.to_owned(),
            arguments: String::new(),
            open: true,
        };
        assert(slot@ == fresh_slot(SlotKeyView::Id(id@), Some(id@), name@));
        self.slots.push(slot);
        assert(self@ =~= kept.push(fresh_slot(SlotKeyView::Id(id@), Some(id@), name@)));
    }

    /// Takes a fragment of argument text that names no slot: it goes to the
    /// most recently opened slot that is still open. Without such a slot the
    /// fragment is dropped.
    pub fn append_to_latest(&mut self, fragment: &str)
        ensures
            final(self)@ == appended_to_latest(old(self)@, fragment@),
    {
        match self.latest() {
            Some(at) => self.append_at(at, fragment),
            None => {},
        }
    }

    /// Closes every slot: a later fragment that names no slot goes to none
    /// of them. The slots keep their text and still complete.
    pub fn close_open_slots(&mut self)
        ensures
            final(self)@ == all_closed(old(self)@),
    {
        let ghost before = self@;
        let mut i: usize = 0;
        while i < self.slots.len()
            invariant
                i <= self.slots.len(),
                self@.len() == before.len(),
                self.slots@.len() == before.len(),
                forall|j: int| 0 <= j < i ==> #[trigger] self@[j] == all_closed(before)[j],
                forall|j: int| i <= j < before.len() ==> #[trigger] self@[j] == before[j],
            decreases self.slots.len() - i,
        {
            let ghost now = self@;
            let mut slot = self.slots.remove(i);
            assert(slot@ == now[i as int]);
            slot.open = false;
            self.slots.insert(i, slot);
            assert(self@ =~= now.update(
                i as int,
                SlotView { open: false, ..now[i as int] },
            ));
            i += 1;
        }
        assert(self@ =~= all_closed(before));
    }

    /// Takes a fragment of the call with the given index: see [`merged`].
    pub fn merge_indexed(
        &mut self,
        index: u64,
        id: Option<&String>,
        name: Option<&String>,
        fragment: Option<&String>,
    )
        ensures
            final(self)@ == merged(
                old(self)@,
                index,
                id.deep_view(),
                name.deep_view(),
                fragment.deep_view(),
            ),
    {
        let ghost before = self@;
        let key = SlotKey::Index(index);
        let at = match self.position(&key) {
            Some(at) => at,
            None => {
                let slot = Slot {
                    key,
                    id: match id {
                        Some(i) => Some(i.clone()),
                        None => None,
                    },
                    name: match name {
                        Some(n) => n.clone(),
                        None => String::new(),
                    },
                    arguments: String::new(),
                    open: true,
                };
                assert(slot@ == fresh_slot(
                    SlotKeyView::Index(index),
                    id.deep_view(),
                    match name.deep_view() {
                        Some(n) => n,
                        None => Seq::empty(),
                    },
                ));
                let ghost shown = slot@;
                self.slots.push(slot);
                assert(self@ =~= before.push(shown));
                self.slots.len() - 1
            },
        };
        let ghost base = self@;
        let mut slot = self.slots.remove(at);
        assert(slot@ == base[at as int]);
        if let Some(i) = id {
            if i.as_str().unicode_len() > 0 {
                slot.id = Some(i.clone());
            }
        }
        if let Some(n) = name {
            if n.as_str().unicode_len() > 0 {
                slot.name = n.clone();
            }
        }
        if let Some(f) = fragment {
            slot.arguments.append(f.as_str());
        }
        let ghost changed = slot@;
        self.slots.insert(at, slot);
        assert(self@ =~= base.update(at as int, changed));
    }

    /// Completes the stream: parses the argument text of every slot and
    /// returns the calls, in the order in which the slots were opened. A slot
    /// whose text is not JSON gives no call. No slot is left.
    pub fn complete(&mut self) -> (calls: Vec<ToolCall>)
        ensures
            calls.deep_view() == completed(old(self)@),
            final(self)@ == Seq::<SlotView>::empty(),
    {
        let ghost before = self@;
        let mut calls: Vec<ToolCall> = Vec::new();
        let mut i: usize = 0;
        while i < self.slots.len()
            invariant
                i <= self.slots.len(),
                self@ == before,
                self.slots@.len() == before.len(),
                calls.deep_view() == completed_upto(before, i as int),
            decreases self.slots.len() - i,
        {
            assert(before[i as int] == self.slots@[i as int]@);
            let slot = &self.slots[i];
            let ghost so_far = calls.deep_view();
            match parse_json_text(slot.arguments.as_str()) {
                Some(arguments) => {
                    let call = ToolCall {
                        id: slot.id.clone(),
                        function: Function { name: slot.name.clone(), arguments },
                    };
                    assert(Some(call@) == completed_slot(before[i as int]));
                    calls.push(call);
                    assert(calls.deep_view() =~= so_far.push(call@));
                },
                None => {},
            }
            i += 1;
        }
        self.slots = Vec::new();
        assert(self@ =~= Seq::<SlotView>::empty());
        calls
    }
}

} // verus!
