//! The normalised stream: byte chunks in, response items out, in the order
//! of the frames that they come from.
//!
//! A stream is a frame decoder followed by a frame handler. The handler is
//! the part that differs between back-ends: it reads one frame and says
//! which items it gives. Everything that holds of the stream as a whole is
//! stated and proved here once, for every handler.
use crate::framing::{
    carry_of, frames_of, lemma_carry_is_clean, lemma_framing_chunk_invariance, FrameDecoder,
};
use crate::pattern::first_from;
use crate::types::{ChatStreamItem, ChatStreamItemView};
use vstd::prelude::*;

verus! {

/// What a handler does with a frame, and what is proved of it.
pub trait FrameHandler: Sized {
    /// The state of the handler, as contracts see it.
    type State;

    /// The state of this handler.
    spec fn state(&self) -> Self::State;

    /// Whether the terminal item has been given.
    spec fn is_done(state: Self::State) -> bool;

    /// Whether the token usage that the state holds, if any, is consistent.
    spec fn holds_consistent_usage(state: Self::State) -> bool;

    /// The new state and the items that a frame gives, in order.
    spec fn on_frame(state: Self::State, frame: Seq<u8>) -> (Self::State, Seq<ChatStreamItemView>);

    /// The new state and the items that the end of the input gives.
    spec fn on_end(state: Self::State) -> (Self::State, Seq<ChatStreamItemView>);

    /// The state after the transport has failed.
    spec fn on_failure(state: Self::State) -> Self::State;

    /// Once the terminal item has been given, a frame changes nothing and
    /// gives nothing. A terminal item is the last item of its frame, and the
    /// handler is done exactly from then on.
    proof fn lemma_on_frame(state: Self::State, frame: Seq<u8>)
        ensures
            Self::is_done(state) ==> Self::on_frame(state, frame) == (
                state,
                Seq::<ChatStreamItemView>::empty(),
            ),
            terminal_only_last(Self::on_frame(state, frame).1),
            Self::is_done(Self::on_frame(state, frame).0) == (Self::is_done(state) || has_terminal(
                Self::on_frame(state, frame).1,
            )),
            Self::holds_consistent_usage(state) ==> Self::holds_consistent_usage(
                Self::on_frame(state, frame).0,
            ) && usage_is_consistent(Self::on_frame(state, frame).1),
    ;

    /// The end of the input gives the terminal item, and nothing else,
    /// unless it has been given before; then it gives nothing.
    proof fn lemma_on_end(state: Self::State)
        ensures
            Self::is_done(Self::on_end(state).0),
            Self::is_done(state) ==> Self::on_end(state).1 == Seq::<ChatStreamItemView>::empty(),
            !Self::is_done(state) ==> Self::on_end(state).1.len() == 1 && Self::on_end(
                state,
            ).1[0].done,
            Self::holds_consistent_usage(state) ==> Self::holds_consistent_usage(
                Self::on_end(state).0,
            ) && usage_is_consistent(Self::on_end(state).1),
    ;

    /// After a failure of the transport the handler is done: it gives
    /// nothing any more.
    proof fn lemma_on_failure(state: Self::State)
        ensures
            Self::is_done(Self::on_failure(state)),
            Self::holds_consistent_usage(state) ==> Self::holds_consistent_usage(
                Self::on_failure(state),
            ),
    ;

    /// Reads one frame.
    fn handle_frame(&mut self, frame: &[u8]) -> (items: Vec<ChatStreamItem>)
        ensures
            final(self).state() == Self::on_frame(old(self).state(), frame@).0,
            items.deep_view() == Self::on_frame(old(self).state(), frame@).1,
    ;

    /// Takes note that the input has ended.
    fn handle_end(&mut self) -> (items: Vec<ChatStreamItem>)
        ensures
            final(self).state() == Self::on_end(old(self).state()).0,
            items.deep_view() == Self::on_end(old(self).state()).1,
    ;

    /// Takes note that the transport has failed.
    fn handle_failure(&mut self)
        ensures
            final(self).state() == Self::on_failure(old(self).state()),
    ;
}

/// No item but the last is terminal.
pub open spec fn terminal_only_last(items: Seq<ChatStreamItemView>) -> bool {
    forall|i: int| 0 <= i < items.len() - 1 ==> !(#[trigger] items[i]).done
}

/// Every item that reports token usage reports it consistently: with both
/// counts present, the total is their sum.
pub open spec fn usage_is_consistent(items: Seq<ChatStreamItemView>) -> bool {
    forall|i: int|
        0 <= i < items.len() ==> ((#[trigger] items[i]).usage matches Some(usage)
            ==> usage.consistent())
}

/// The last item is terminal.
pub open spec fn has_terminal(items: Seq<ChatStreamItemView>) -> bool {
    items.len() > 0 && items.last().done
}

/// The state after the frames, and the items that they give: those of the
/// first frame first.
pub open spec fn run_frames<H: FrameHandler>(state: H::State, frames: Seq<Seq<u8>>) -> (
    H::State,
    Seq<ChatStreamItemView>,
)
    decreases frames.len(),
{
    if frames.len() == 0 {
        (state, Seq::empty())
    } else {
        let before = run_frames::<H>(state, frames.drop_last());
        let last = H::on_frame(before.0, frames.last());
        (last.0, before.1 + last.1)
    }
}

/// The state of a stream, as contracts see it.
pub struct StreamView<S> {
    /// The separator that ends a frame.
    pub separator: Seq<u8>,
    /// The bytes of the trailing frame that is not complete yet.
    pub carry: Seq<u8>,
    /// The state of the frame handler.
    pub handler: S,
}

impl<S> StreamView<S> {
    /// What is carried over holds no separator: it is one incomplete frame.
    /// This holds of a new stream and stays true.
    pub open spec fn valid(self) -> bool {
        first_from(self.separator, self.carry, 0) is None
    }
}

/// The state of a stream after a chunk, and the items that the chunk
/// gives: those of the frames that the chunk completes.
pub open spec fn after_chunk<H: FrameHandler>(stream: StreamView<H::State>, chunk: Seq<u8>) -> (
    StreamView<H::State>,
    Seq<ChatStreamItemView>,
) {
    let text = stream.carry + chunk;
    let ran = run_frames::<H>(stream.handler, frames_of(stream.separator, text));
    (
        StreamView {
            separator: stream.separator,
            carry: carry_of(stream.separator, text),
            handler: ran.0,
        },
        ran.1,
    )
}

/// The state of a stream after its input has ended, and the items that
/// the end gives. What was carried over is the last frame, unless it is
/// empty; then the handler takes note of the end.
pub open spec fn after_end<H: FrameHandler>(stream: StreamView<H::State>) -> (
    StreamView<H::State>,
    Seq<ChatStreamItemView>,
) {
    let last = if stream.carry.len() > 0 {
        H::on_frame(stream.handler, stream.carry)
    } else {
        (stream.handler, Seq::empty())
    };
    let end = H::on_end(last.0);
    (
        StreamView { separator: stream.separator, carry: Seq::empty(), handler: end.0 },
        last.1 + end.1,
    )
}

/// The state of a stream after its transport has failed: what was carried
/// over is dropped, and the handler is done.
pub open spec fn after_failure<H: FrameHandler>(stream: StreamView<H::State>) -> StreamView<
    H::State,
> {
    StreamView {
        separator: stream.separator,
        carry: Seq::empty(),
        handler: H::on_failure(stream.handler),
    }
}

/// The state of a stream after the chunks, and the items that they give.
pub open spec fn after_chunks<H: FrameHandler>(
    stream: StreamView<H::State>,
    chunks: Seq<Seq<u8>>,
) -> (StreamView<H::State>, Seq<ChatStreamItemView>)
    decreases chunks.len(),
{
    if chunks.len() == 0 {
        (stream, Seq::empty())
    } else {
        let before = after_chunks::<H>(stream, chunks.drop_last());
        let last = after_chunk::<H>(before.0, chunks.last());
        (last.0, before.1 + last.1)
    }
}

/// The chunks, one after the other, as one sequence of bytes.
pub open spec fn concatenated(chunks: Seq<Seq<u8>>) -> Seq<u8>
    decreases chunks.len(),
{
    if chunks.len() == 0 {
        Seq::empty()
    } else {
        concatenated(chunks.drop_last()) + chunks.last()
    }
}

/// Running over `first + second` is running over `first` and then, from
/// the state reached, over `second`.
pub proof fn lemma_run_frames_concat<H: FrameHandler>(
    state: H::State,
    first: Seq<Seq<u8>>,
    second: Seq<Seq<u8>>,
)
    ensures
        run_frames::<H>(state, first + second).0 == run_frames::<H>(
            run_frames::<H>(state, first).0,
            second,
        ).0,
        run_frames::<H>(state, first + second).1 == run_frames::<H>(state, first).1
            + run_frames::<H>(run_frames::<H>(state, first).0, second).1,
    decreases second.len(),
{
    let one = run_frames::<H>(state, first);
    if second.len() == 0 {
        assert(first + second =~= first);
        assert(one.1 + Seq::<ChatStreamItemView>::empty() =~= one.1);
    } else {
        lemma_run_frames_concat::<H>(state, first, second.drop_last());
        assert((first + second).drop_last() =~= first + second.drop_last());
        let two = run_frames::<H>(one.0, second.drop_last());
        let last = H::on_frame(two.0, second.last());
        assert((one.1 + two.1) + last.1 =~= one.1 + (two.1 + last.1));
    }
}

/// Chunk-boundary invariance, for one cut: a stream that takes `first` and
/// then `second` reaches the state, and gives the items, of a stream that
/// takes `first + second` at once.
pub proof fn lemma_cut_is_irrelevant<H: FrameHandler>(
    stream: StreamView<H::State>,
    first: Seq<u8>,
    second: Seq<u8>,
)
    ensures
        after_chunk::<H>(after_chunk::<H>(stream, first).0, second).0 == after_chunk::<H>(
            stream,
            first + second,
        ).0,
        after_chunk::<H>(stream, first).1 + after_chunk::<H>(
            after_chunk::<H>(stream, first).0,
            second,
        ).1 == after_chunk::<H>(stream, first + second).1,
{
    let sep = stream.separator;
    let text = stream.carry + first;
    lemma_framing_chunk_invariance(sep, text, second);
    assert(text + second =~= stream.carry + (first + second));
    lemma_run_frames_concat::<H>(
        stream.handler,
        frames_of(sep, text),
        frames_of(sep, carry_of(sep, text) + second),
    );
}

/// Chunk-boundary invariance: however a byte stream is cut into chunks, the
/// stream reaches the same state and gives the same items, in the same
/// order, as when it takes all the bytes as one chunk.
pub proof fn lemma_chunk_boundary_invariance<H: FrameHandler>(
    stream: StreamView<H::State>,
    chunks: Seq<Seq<u8>>,
)
    requires
        stream.valid(),
    ensures
        after_chunks::<H>(stream, chunks).0 == after_chunk::<H>(stream, concatenated(chunks)).0,
        after_chunks::<H>(stream, chunks).1 == after_chunk::<H>(stream, concatenated(chunks)).1,
    decreases chunks.len(),
{
    if chunks.len() == 0 {
        assert(stream.carry + Seq::<u8>::empty() =~= stream.carry);
        assert(stream.carry.skip(0) =~= stream.carry);
    } else {
        lemma_chunk_boundary_invariance::<H>(stream, chunks.drop_last());
        lemma_cut_is_irrelevant::<H>(stream, concatenated(chunks.drop_last()), chunks.last());
    }
}

/// Ordering: among the items that frames give, none but the very last is
/// terminal, and the handler is done exactly if it was before or the last
/// item is terminal.
pub proof fn lemma_terminal_item_is_last<H: FrameHandler>(state: H::State, frames: Seq<Seq<u8>>)
    ensures
        terminal_only_last(run_frames::<H>(state, frames).1),
        H::is_done(run_frames::<H>(state, frames).0) == (H::is_done(state) || has_terminal(
            run_frames::<H>(state, frames).1,
        )),
        H::is_done(state) ==> run_frames::<H>(state, frames) == (
            state,
            Seq::<ChatStreamItemView>::empty(),
        ),
    decreases frames.len(),
{
    if frames.len() > 0 {
        lemma_terminal_item_is_last::<H>(state, frames.drop_last());
        let before = run_frames::<H>(state, frames.drop_last());
        H::lemma_on_frame(before.0, frames.last());
        let last = H::on_frame(before.0, frames.last());
        if H::is_done(before.0) {
            assert(before.1 + last.1 =~= before.1);
        } else {
            assert(!has_terminal(before.1));
            assert forall|i: int| 0 <= i < before.1.len() implies !(#[trigger] before.1[i]).done by {
                if i == before.1.len() - 1 {
                    assert(before.1.last() == before.1[i]);
                }
            }
        }
    }
}

/// Usage arithmetic: a handler that holds no inconsistent token usage at
/// first holds none later, and every item that the frames give reports
/// usage in which the total is the sum of the two counts.
pub proof fn lemma_usage_is_consistent<H: FrameHandler>(state: H::State, frames: Seq<Seq<u8>>)
    requires
        H::holds_consistent_usage(state),
    ensures
        H::holds_consistent_usage(run_frames::<H>(state, frames).0),
        usage_is_consistent(run_frames::<H>(state, frames).1),
    decreases frames.len(),
{
    if frames.len() > 0 {
        lemma_usage_is_consistent::<H>(state, frames.drop_last());
        let before = run_frames::<H>(state, frames.drop_last());
        H::lemma_on_frame(before.0, frames.last());
    }
}

/// Usage arithmetic, for a whole stream: every item that the chunks and
/// the end of the input give reports usage in which the total is the sum of
/// the two counts.
pub proof fn lemma_stream_usage_is_consistent<H: FrameHandler>(
    stream: StreamView<H::State>,
    chunks: Seq<Seq<u8>>,
)
    requires
        H::holds_consistent_usage(stream.handler),
    ensures
        H::holds_consistent_usage(after_chunks::<H>(stream, chunks).0.handler),
        usage_is_consistent(after_chunks::<H>(stream, chunks).1),
        usage_is_consistent(after_end::<H>(after_chunks::<H>(stream, chunks).0).1),
    decreases chunks.len(),
{
    if chunks.len() > 0 {
        lemma_stream_usage_is_consistent::<H>(stream, chunks.drop_last());
        let before = after_chunks::<H>(stream, chunks.drop_last());
        lemma_usage_is_consistent::<H>(
            before.0.handler,
            frames_of(before.0.separator, before.0.carry + chunks.last()),
        );
    }
    let fed = after_chunks::<H>(stream, chunks);
    if fed.0.carry.len() > 0 {
        H::lemma_on_frame(fed.0.handler, fed.0.carry);
        H::lemma_on_end(H::on_frame(fed.0.handler, fed.0.carry).0);
    } else {
        H::lemma_on_end(fed.0.handler);
    }
}

/// A failure of the transport ends the sequence at once: whatever comes
/// after it, chunks or the end of the input, gives no item.
pub proof fn lemma_nothing_follows_a_failure<H: FrameHandler>(
    stream: StreamView<H::State>,
    chunk: Seq<u8>,
)
    ensures
        after_chunk::<H>(after_failure::<H>(stream), chunk).1 == Seq::<ChatStreamItemView>::empty(),
        after_end::<H>(after_chunk::<H>(after_failure::<H>(stream), chunk).0).1 == Seq::<
            ChatStreamItemView,
        >::empty(),
{
    let failed = after_failure::<H>(stream);
    H::lemma_on_failure(stream.handler);
    let fed = after_chunk::<H>(failed, chunk);
    lemma_terminal_item_is_last::<H>(failed.handler, frames_of(failed.separator, failed.carry + chunk));
    if fed.0.carry.len() > 0 {
        H::lemma_on_frame(fed.0.handler, fed.0.carry);
    }
    H::lemma_on_end(fed.0.handler);
    assert(after_end::<H>(fed.0).1 =~= Seq::<ChatStreamItemView>::empty());
}

/// A stream that was not done at first gives, over all its chunks and its
/// end, exactly one terminal item, and that is the last item of all.
pub proof fn lemma_exactly_one_terminal_item<H: FrameHandler>(
    stream: StreamView<H::State>,
    chunks: Seq<Seq<u8>>,
)
    requires
        stream.valid(),
        !H::is_done(stream.handler),
    ensures
        ({
            let fed = after_chunks::<H>(stream, chunks);
            let items = fed.1 + after_end::<H>(fed.0).1;
            &&& has_terminal(items)
            &&& terminal_only_last(items)
            &&& H::is_done(after_end::<H>(fed.0).0.handler)
        }),
{
    lemma_chunk_boundary_invariance::<H>(stream, chunks);
    lemma_one_terminal_item_after_one_chunk::<H>(stream, concatenated(chunks));
}

proof fn lemma_one_terminal_item_after_one_chunk<H: FrameHandler>(
    stream: StreamView<H::State>,
    chunk: Seq<u8>,
)
    requires
        !H::is_done(stream.handler),
    ensures
        ({
            let fed = after_chunk::<H>(stream, chunk);
            let items = fed.1 + after_end::<H>(fed.0).1;
            &&& has_terminal(items)
            &&& terminal_only_last(items)
            &&& H::is_done(after_end::<H>(fed.0).0.handler)
        }),
{
    let fed = after_chunk::<H>(stream, chunk);
    let text = stream.carry + chunk;
    lemma_terminal_item_is_last::<H>(stream.handler, frames_of(stream.separator, text));
    let last = if fed.0.carry.len() > 0 {
        H::on_frame(fed.0.handler, fed.0.carry)
    } else {
        (fed.0.handler, Seq::empty())
    };
    if fed.0.carry.len() > 0 {
        H::lemma_on_frame(fed.0.handler, fed.0.carry);
    }
    H::lemma_on_end(last.0);
    let end = H::on_end(last.0);
    let items = fed.1 + (last.1 + end.1);
    assert(items.len() > 0 && items.last().done && terminal_only_last(items)) by {
        if H::is_done(fed.0.handler) {
            assert(last.1 =~= Seq::<ChatStreamItemView>::empty());
            assert(items =~= fed.1);
        } else if H::is_done(last.0) {
            assert(items =~= fed.1 + last.1);
            assert forall|i: int| 0 <= i < fed.1.len() implies !(#[trigger] fed.1[i]).done by {
                if i == fed.1.len() - 1 {
                    assert(fed.1.last() == fed.1[i]);
                }
            }
        } else {
            assert forall|i: int| 0 <= i < fed.1.len() implies !(#[trigger] fed.1[i]).done by {
                if i == fed.1.len() - 1 {
                    assert(fed.1.last() == fed.1[i]);
                }
            }
            assert forall|i: int| 0 <= i < last.1.len() implies !(#[trigger] last.1[i]).done by {
                if i == last.1.len() - 1 {
                    assert(last.1.last() == last.1[i]);
                }
            }
        }
    }
}

/// A frame decoder followed by a frame handler.
pub struct NormalizedStream<H: FrameHandler> {
    decoder: FrameDecoder,
    handler: H,
}

impl<H: FrameHandler> NormalizedStream<H> {
    /// The state of this stream.
    pub closed spec fn view(&self) -> StreamView<H::State> {
        StreamView {
            separator: self.decoder@.separator,
            carry: self.decoder@.carry,
            handler: self.handler.state(),
        }
    }

    /// A stream made of a decoder and a handler.
    pub fn from_parts(decoder: FrameDecoder, handler: H) -> (stream: Self)
        ensures
            stream.view().valid(),
            stream.view().separator == decoder@.separator,
            stream.view().carry == decoder@.carry,
            stream.view().handler == handler.state(),
    {
        let _ = decoder.carried();
        Self { decoder, handler }
    }

    /// The handler of this stream.
    pub fn handler(&self) -> (handler: &H)
        ensures
            handler.state() == self.view().handler,
    {
        &self.handler
    }

    /// Takes the next chunk of bytes and returns the items of the frames
    /// that it completes, in the order of the frames.
    pub fn push_chunk(&mut self, chunk: &[u8]) -> (items: Vec<ChatStreamItem>)
        ensures
            final(self).view() == after_chunk::<H>(old(self).view(), chunk@).0,
            items.deep_view() == after_chunk::<H>(old(self).view(), chunk@).1,
            final(self).view().valid(),
    {
        let ghost start = self.handler.state();
        proof {
            lemma_carry_is_clean(self.view().separator, self.view().carry + chunk@);
        }
        let frames = self.decoder.push(chunk);
        let mut items: Vec<ChatStreamItem> = Vec::new();
        let mut i: usize = 0;
        assert(frames.deep_view().take(0) =~= Seq::<Seq<u8>>::empty());
        assert(items.deep_view() =~= Seq::<ChatStreamItemView>::empty());
        while i < frames.len()
            invariant
                i <= frames.len(),
                self.view().separator == after_chunk::<H>(old(self).view(), chunk@).0.separator,
                self.view().carry == after_chunk::<H>(old(self).view(), chunk@).0.carry,
                frames.deep_view() == frames_of(
                    old(self).view().separator,
                    old(self).view().carry + chunk@,
                ),
                start == old(self).view().handler,
                self.handler.state() == run_frames::<H>(start, frames.deep_view().take(i as int)).0,
                items.deep_view() == run_frames::<H>(start, frames.deep_view().take(i as int)).1,
            decreases frames.len() - i,
        {
            let mut more = self.handler.handle_frame(frames[i].as_slice());
            proof {
                let all = frames.deep_view();
                assert(all.take(i as int + 1).drop_last() =~= all.take(i as int));
                assert(all.take(i as int + 1).last() == frames@[i as int]@);
            }
            append_items(&mut items, &mut more);
            i += 1;
        }
        assert(frames.deep_view().take(i as int) =~= frames.deep_view());
        items
    }

    /// Takes note that the transport has failed: the sequence of items ends
    /// here.
    pub fn fail(&mut self)
        ensures
            final(self).view() == after_failure::<H>(old(self).view()),
    {
        let _ = self.decoder.take_rest();
        self.handler.handle_failure();
    }

    /// Ends the input. What was carried over is read as the last frame,
    /// and the terminal item is given if it has not been given before.
    pub fn finish(&mut self) -> (items: Vec<ChatStreamItem>)
        ensures
            final(self).view() == after_end::<H>(old(self).view()).0,
            items.deep_view() == after_end::<H>(old(self).view()).1,
    {
        let rest = self.decoder.take_rest();
        let mut items: Vec<ChatStreamItem> = if rest.len() > 0 {
            self.handler.handle_frame(rest.as_slice())
        } else {
            let none: Vec<ChatStreamItem> = Vec::new();
            assert(none.deep_view() =~= Seq::<ChatStreamItemView>::empty());
            none
        };
        let mut end = self.handler.handle_end();
        append_items(&mut items, &mut end);
        items
    }
}

/// Moves the items of `more` behind those of `items`.
pub fn append_items(items: &mut Vec<ChatStreamItem>, more: &mut Vec<ChatStreamItem>)
    ensures
        final(items).deep_view() == old(items).deep_view() + old(more).deep_view(),
        final(more)@.len() == 0,
{
    let ghost one = items.deep_view();
    let ghost two = more.deep_view();
    items.append(more);
    assert(items.deep_view() =~= one + two);
}

} // verus!
