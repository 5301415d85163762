//! Events of an event stream: frames whose lines are tagged fields.
//!
//! The payload of an event stands in its `data: ` lines. A handler that
//! reads payloads becomes, through [`EventFields`], a handler that reads
//! whole events.
use crate::framing::{append_bytes, frames_of, line_separator, split_frames};
use crate::pattern::{bytes_equal, bytes_occur_at, occurs_at};
use crate::stream::{
    append_items, lemma_terminal_item_is_last, lemma_usage_is_consistent, run_frames, FrameHandler,
};
use crate::types::{ChatStreamItem, ChatStreamItemView};
use vstd::prelude::*;
use vstd::slice::{slice_subrange, slice_to_vec};
use vstd::string::StringSliceAdditionalSpecFns;

verus! {

/// The tag of a line that holds payload.
pub open spec fn data_prefix() -> Seq<u8> {
    "data: ".spec_bytes()
}

/// The payload that stands for the end of the stream.
pub open spec fn done_sentinel() -> Seq<u8> {
    "[DONE]".spec_bytes()
}

/// The lines of a frame. The last line needs no newline behind it.
pub open spec fn lines_of(frame: Seq<u8>) -> Seq<Seq<u8>> {
    frames_of(line_separator(), frame.push(10u8))
}

/// The payload of a line: what follows the tag, if the line begins with it.
pub open spec fn payload_of(line: Seq<u8>) -> Option<Seq<u8>> {
    if occurs_at(data_prefix(), line, 0) {
        Some(line.skip(data_prefix().len() as int))
    } else {
        None
    }
}

/// The payloads of the first `upto` lines, in order.
pub open spec fn payloads_upto(lines: Seq<Seq<u8>>, upto: int) -> Seq<Seq<u8>>
    decreases upto,
{
    if upto <= 0 || upto > lines.len() {
        Seq::empty()
    } else {
        match payload_of(lines[upto - 1]) {
            Some(payload) => payloads_upto(lines, upto - 1).push(payload),
            None => payloads_upto(lines, upto - 1),
        }
    }
}

/// The payloads of an event, in the order of its lines.
pub open spec fn data_payloads(frame: Seq<u8>) -> Seq<Seq<u8>> {
    payloads_upto(lines_of(frame), lines_of(frame).len() as int)
}

/// The payloads of an event, in the order of its lines.
pub fn data_payloads_of(frame: &[u8]) -> (payloads: Vec<Vec<u8>>)
    ensures
        payloads.deep_view() == data_payloads(frame@),
{
    let mut text: Vec<u8> = Vec::new();
    append_bytes(&mut text, frame);
    text.push(10u8);
    assert(text@ =~= frame@.push(10u8));
    let mut newline: Vec<u8> = Vec::new();
    newline.push(10u8);
    assert(newline@ =~= line_separator());
    let (lines, _) = split_frames(newline.as_slice(), text.as_slice());
    let prefix = "data: ".as_bytes();
    let mut payloads: Vec<Vec<u8>> = Vec::new();
    let mut i: usize = 0;
    assert(payloads.deep_view() =~= Seq::<Seq<u8>>::empty());
    while i < lines.len()
        invariant
            i <= lines.len(),
            prefix@ == data_prefix(),
            lines.deep_view() == lines_of(frame@),
            payloads.deep_view() == payloads_upto(lines_of(frame@), i as int),
        decreases lines.len() - i,
    {
        let line = lines[i].as_slice();
        assert(line@ =~= lines.deep_view()[i as int]);
        if bytes_occur_at(prefix, line, 0) {
            let payload = slice_to_vec(slice_subrange(line, prefix.len(), line.len()));
            let ghost before = payloads.deep_view();
            assert(payload.deep_view() =~= line@.skip(prefix@.len() as int));
            payloads.push(payload);
            assert(payloads.deep_view() =~= before.push(line@.skip(prefix@.len() as int)));
        }
        i += 1;
    }
    payloads
}

/// Whether a payload stands for the end of the stream.
pub fn is_done_sentinel(payload: &[u8]) -> (done: bool)
    ensures
        done == (payload@ == done_sentinel()),
{
    bytes_equal(payload, "[DONE]".as_bytes())
}

/// A handler of events, made of a handler of payloads: it hands the
/// payloads of an event, in order, to the handler inside.
pub struct EventFields<H: FrameHandler> {
    inner: H,
}

impl<H: FrameHandler> EventFields<H> {
    /// A handler of events around a handler of payloads.
    pub fn around(inner: H) -> (handler: Self)
        ensures
            handler.state() == inner.state(),
    {
        Self { inner }
    }

    /// The handler of payloads inside.
    pub fn inner(&self) -> (inner: &H)
        ensures
            inner.state() == self.state(),
    {
        &self.inner
    }
}

impl<H: FrameHandler> FrameHandler for EventFields<H> {
    type State = H::State;

    closed spec fn state(&self) -> H::State {
        self.inner.state()
    }

    open spec fn is_done(state: H::State) -> bool {
        H::is_done(state)
    }

    open spec fn holds_consistent_usage(state: H::State) -> bool {
        H::holds_consistent_usage(state)
    }

    open spec fn on_frame(state: H::State, frame: Seq<u8>) -> (H::State, Seq<ChatStreamItemView>) {
        run_frames::<H>(state, data_payloads(frame))
    }

    open spec fn on_end(state: H::State) -> (H::State, Seq<ChatStreamItemView>) {
        H::on_end(state)
    }

    proof fn lemma_on_frame(state: H::State, frame: Seq<u8>) {
        lemma_terminal_item_is_last::<H>(state, data_payloads(frame));
        if H::holds_consistent_usage(state) {
            lemma_usage_is_consistent::<H>(state, data_payloads(frame));
        }
    }

    open spec fn on_failure(state: H::State) -> H::State {
        H::on_failure(state)
    }

    proof fn lemma_on_end(state: H::State) {
        H::lemma_on_end(state);
    }

    proof fn lemma_on_failure(state: H::State) {
        H::lemma_on_failure(state);
    }

    fn handle_frame(&mut self, frame: &[u8]) -> (items: Vec<ChatStreamItem>) {
        let ghost start = self.inner.state();
        let payloads = data_payloads_of(frame);
        let mut items: Vec<ChatStreamItem> = Vec::new();
        let mut i: usize = 0;
        assert(payloads.deep_view().take(0) =~= Seq::<Seq<u8>>::empty());
        assert(items.deep_view() =~= Seq::<ChatStreamItemView>::empty());
        while i < payloads.len()
            invariant
                i <= payloads.len(),
                payloads.deep_view() == data_payloads(frame@),
                start == old(self).inner.state(),
                self.inner.state() == run_frames::<H>(start, payloads.deep_view().take(i as int)).0,
                items.deep_view() == run_frames::<H>(start, payloads.deep_view().take(i as int)).1,
            decreases payloads.len() - i,
        {
            let mut more = self.inner.handle_frame(payloads[i].as_slice());
            proof {
                let all = payloads.deep_view();
                assert(all.take(i as int + 1).drop_last() =~= all.take(i as int));
                assert(all.take(i as int + 1).last() == payloads@[i as int]@);
            }
            append_items(&mut items, &mut more);
            i += 1;
        }
        assert(payloads.deep_view().take(i as int) =~= payloads.deep_view());
        items
    }

    fn handle_end(&mut self) -> (items: Vec<ChatStreamItem>) {
        self.inner.handle_end()
    }

    fn handle_failure(&mut self) {
        self.inner.handle_failure()
    }
}

} // verus!
