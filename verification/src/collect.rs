//! Collecting a streamed response into one: the text of all items, and
//! the tool calls that the last item with tool calls carries.
use crate::types::{ChatStreamItem, ChatStreamItemView, ToolCall, ToolCallView};
use vstd::prelude::*;
use vstd::string::StringExecFns;

verus! {

/// What has been collected, as contracts see it.
pub struct Collected {
    /// The text of the items so far.
    pub text: Seq<char>,
    /// The tool calls of the last item that carried any.
    pub tool_calls: Option<Seq<ToolCallView>>,
    /// Whether the terminal item has been taken.
    pub done: bool,
}

/// Nothing collected yet.
pub open spec fn nothing_collected() -> Collected {
    Collected { text: Seq::empty(), tool_calls: None, done: false }
}

/// What has been collected after one more item. After the terminal item,
/// an item changes nothing.
pub open spec fn absorbed(state: Collected, item: ChatStreamItemView) -> Collected {
    if state.done {
        state
    } else {
        Collected {
            text: state.text + item.content,
            tool_calls: match item.tool_calls {
                Some(calls) => Some(calls),
                None => state.tool_calls,
            },
            done: item.done,
        }
    }
}

/// What has been collected after the first `upto` items.
pub open spec fn absorbed_upto(state: Collected, items: Seq<ChatStreamItemView>, upto: int)
    -> Collected
    decreases upto,
{
    if upto <= 0 || upto > items.len() {
        state
    } else {
        absorbed(absorbed_upto(state, items, upto - 1), items[upto - 1])
    }
}

/// The contents of the first `upto` items, one after the other.
pub open spec fn contents_upto(items: Seq<ChatStreamItemView>, upto: int) -> Seq<char>
    decreases upto,
{
    if upto <= 0 || upto > items.len() {
        Seq::empty()
    } else {
        contents_upto(items, upto - 1) + items[upto - 1].content
    }
}

/// Of items among which none but the last is terminal, as a stream gives
/// them, the collected text is the contents of all of them in order.
pub proof fn lemma_collected_text_is_all_content(items: Seq<ChatStreamItemView>, upto: int)
    requires
        0 <= upto <= items.len(),
        forall|i: int| 0 <= i < items.len() - 1 ==> !(#[trigger] items[i]).done,
    ensures
        absorbed_upto(nothing_collected(), items, upto).text == contents_upto(items, upto),
        upto < items.len() ==> !absorbed_upto(nothing_collected(), items, upto).done,
    decreases upto,
{
    if upto > 0 {
        lemma_collected_text_is_all_content(items, upto - 1);
    } else {
        assert(absorbed_upto(nothing_collected(), items, upto).text =~= contents_upto(
            items,
            upto,
        ));
    }
}

/// Collects the items of a streamed response.
pub struct ResponseCollector {
    text: String,
    tool_calls: Option<Vec<ToolCall>>,
    done: bool,
}

impl View for ResponseCollector {
    type V = Collected;

    closed spec fn view(&self) -> Collected {
        Collected { text: self.text@, tool_calls: self.tool_calls.deep_view(), done: self.done }
    }
}

impl ResponseCollector {
    /// A collector that has collected nothing.
    pub fn new() -> (collector: Self)
        ensures
            collector@ == nothing_collected(),
    {
        Self { text: String::new(), tool_calls: None, done: false }
    }

    /// Whether the terminal item has been taken.
    pub fn is_done(&self) -> (done: bool)
        ensures
            done == self@.done,
    {
        self.done
    }

    /// Takes the next item. Returns whether the response is complete.
    pub fn absorb(&mut self, item: ChatStreamItem) -> (done: bool)
        ensures
            final(self)@ == absorbed(old(self)@, item@),
            done == final(self)@.done,
    {
        if !self.done {
            self.text.append(item.content.as_str());
            match item.tool_calls {
                Some(calls) => {
                    self.tool_calls = Some(calls);
                },
                None => {},
            }
            self.done = item.done;
        }
        self.done
    }

    /// Takes the items, in order. Returns whether the response is complete.
    pub fn absorb_all(&mut self, items: Vec<ChatStreamItem>) -> (done: bool)
        ensures
            final(self)@ == absorbed_upto(old(self)@, items.deep_view(), items.len() as int),
            done == final(self)@.done,
    {
        let ghost all = items.deep_view();
        let ghost total = items.len();
        let mut rest = items;
        let mut taken: usize = 0;
        while rest.len() > 0
            invariant
                taken + rest.len() == total,
                all.len() == total,
                rest.deep_view() == all.skip(taken as int),
                self@ == absorbed_upto(old(self)@, all, taken as int),
            decreases rest.len(),
        {
            let ghost before = rest.deep_view();
            let ghost plain = rest@;
            let item = rest.remove(0);
            assert(item@ == before[0]);
            assert(rest@ == plain.remove(0));
            assert forall|k: int| 0 <= k < rest@.len() implies #[trigger] rest.deep_view()[k]
                == all.skip(taken as int + 1)[k] by {
                assert(rest@[k] == plain[k + 1]);
                assert(before[k + 1] == plain[k + 1]@);
            }
            assert(rest.deep_view() =~= all.skip(taken as int + 1));
            self.absorb(item);
            taken += 1;
        }
        self.done
    }

    /// The collected response: its text and its tool calls.
    pub fn into_response(self) -> (response: (String, Option<Vec<ToolCall>>))
        ensures
            response.0@ == self@.text,
            response.1.deep_view() == self@.tool_calls,
    {
        (self.text, self.tool_calls)
    }
}

} // verus!
