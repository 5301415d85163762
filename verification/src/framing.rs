//! Frame decoding: from byte chunks, cut anywhere, to complete frames.
//!
//! A frame ends at a separator: a newline for line-delimited JSON, a blank
//! line for an event stream. What follows the last separator is carried over
//! to the next chunk.
use crate::pattern::{
    bytes_occur_at, first_from, lemma_first_from, lemma_first_from_extend, lemma_first_from_is,
    lemma_first_from_none, lemma_first_from_shift, lemma_occurs_extend, occurs_at,
};
use vstd::prelude::*;
use vstd::slice::{slice_subrange, slice_to_vec};

verus! {

/// The separator of line-delimited framing: one newline.
pub open spec fn line_separator() -> Seq<u8> {
    seq![10u8]
}

/// The separator of event-delimited framing: a blank line.
pub open spec fn event_separator() -> Seq<u8> {
    seq![10u8, 10u8]
}

/// The complete frames of `text` that begin at or after `from`, in order.
/// Each ends where the separator next stands; the separator belongs to no
/// frame.
pub open spec fn frames_from(sep: Seq<u8>, text: Seq<u8>, from: int) -> Seq<Seq<u8>>
    decreases text.len() - from,
{
    if from < 0 {
        Seq::empty()
    } else {
        match first_from(sep, text, from) {
            Some(k) => {
                proof {
                    lemma_first_from(sep, text, from);
                }
                seq![text.subrange(from, k)] + frames_from(sep, text, k + sep.len())
            },
            None => Seq::empty(),
        }
    }
}

/// The position behind the last complete frame of `text` that begins at or
/// after `from`: where the carry-over starts.
pub open spec fn resume_from(sep: Seq<u8>, text: Seq<u8>, from: int) -> int
    decreases text.len() - from,
{
    if from < 0 {
        from
    } else {
        match first_from(sep, text, from) {
            Some(k) => {
                proof {
                    lemma_first_from(sep, text, from);
                }
                resume_from(sep, text, k + sep.len())
            },
            None => from,
        }
    }
}

/// The complete frames of `text`.
pub open spec fn frames_of(sep: Seq<u8>, text: Seq<u8>) -> Seq<Seq<u8>> {
    frames_from(sep, text, 0)
}

/// What follows the last separator in `text`: the incomplete trailing frame.
pub open spec fn carry_of(sep: Seq<u8>, text: Seq<u8>) -> Seq<u8> {
    text.skip(resume_from(sep, text, 0))
}

/// The carry-over starts inside the text, at or after `from`.
pub proof fn lemma_resume_bounds(sep: Seq<u8>, text: Seq<u8>, from: int)
    requires
        0 <= from <= text.len(),
    ensures
        from <= resume_from(sep, text, from) <= text.len(),
    decreases text.len() - from,
{
    lemma_first_from(sep, text, from);
    if let Some(k) = first_from(sep, text, from) {
        lemma_resume_bounds(sep, text, k + sep.len());
    }
}

/// No separator stands behind the position where the carry-over starts.
pub proof fn lemma_carry_has_no_separator(sep: Seq<u8>, text: Seq<u8>, from: int)
    requires
        0 <= from <= text.len(),
    ensures
        first_from(sep, text, resume_from(sep, text, from)) is None,
    decreases text.len() - from,
{
    lemma_first_from(sep, text, from);
    if let Some(k) = first_from(sep, text, from) {
        lemma_carry_has_no_separator(sep, text, k + sep.len());
    }
}

/// The frames, each with the separator behind it, one after the other.
pub open spec fn rejoined(sep: Seq<u8>, frames: Seq<Seq<u8>>) -> Seq<u8>
    decreases frames.len(),
{
    if frames.len() == 0 {
        Seq::empty()
    } else {
        frames[0] + sep + rejoined(sep, frames.skip(1))
    }
}

/// Framing loses no byte: the frames of a text, each with the separator
/// behind it, followed by the carry-over, are the text.
pub proof fn lemma_framing_is_lossless(sep: Seq<u8>, text: Seq<u8>)
    ensures
        rejoined(sep, frames_of(sep, text)) + carry_of(sep, text) == text,
{
    lemma_rejoined_from(sep, text, 0);
    assert(text.skip(0) =~= text);
}

proof fn lemma_rejoined_from(sep: Seq<u8>, text: Seq<u8>, from: int)
    requires
        0 <= from <= text.len(),
    ensures
        rejoined(sep, frames_from(sep, text, from)) + text.skip(resume_from(sep, text, from))
            == text.skip(from),
    decreases text.len() - from,
{
    lemma_first_from(sep, text, from);
    match first_from(sep, text, from) {
        Some(k) => {
            let next = k + sep.len();
            lemma_rejoined_from(sep, text, next);
            lemma_resume_bounds(sep, text, next);
            let frames = frames_from(sep, text, from);
            assert(frames.skip(1) =~= frames_from(sep, text, next));
            assert(frames[0] == text.subrange(from, k));
            assert(text.subrange(k, next) == sep);
            assert(text.subrange(from, k) + text.subrange(k, next) + text.skip(next) =~= text.skip(
                from,
            ));
            assert((frames[0] + sep + rejoined(sep, frames.skip(1))) + text.skip(
                resume_from(sep, text, from),
            ) =~= frames[0] + sep + (rejoined(sep, frames.skip(1)) + text.skip(
                resume_from(sep, text, next),
            )));
        },
        None => {
            assert(Seq::<u8>::empty() + text.skip(from) =~= text.skip(from));
        },
    }
}

/// No frame holds a separator: a frame ends where the separator first
/// stands.
pub proof fn lemma_frames_hold_no_separator(sep: Seq<u8>, text: Seq<u8>, from: int)
    requires
        0 <= from <= text.len(),
    ensures
        forall|i: int|
            0 <= i < frames_from(sep, text, from).len() ==> first_from(
                sep,
                #[trigger] frames_from(sep, text, from)[i],
                0,
            ) is None,
    decreases text.len() - from,
{
    lemma_first_from(sep, text, from);
    if let Some(k) = first_from(sep, text, from) {
        let next = k + sep.len();
        lemma_frames_hold_no_separator(sep, text, next);
        let frames = frames_from(sep, text, from);
        let first = text.subrange(from, k);
        assert forall|j: int| 0 <= j implies !occurs_at(sep, first, j) by {
            if occurs_at(sep, first, j) {
                assert(first.subrange(j, j + sep.len()) =~= text.subrange(
                    from + j,
                    from + j + sep.len(),
                ));
                assert(occurs_at(sep, text, from + j));
            }
        }
        lemma_first_from_none(sep, first, 0);
        assert forall|i: int| 0 <= i < frames.len() implies first_from(
            sep,
            #[trigger] frames[i],
            0,
        ) is None by {
            if i > 0 {
                assert(frames[i] == frames_from(sep, text, next)[i - 1]);
            }
        }
    }
}

/// The carry-over of a text holds no separator.
pub proof fn lemma_carry_is_clean(sep: Seq<u8>, text: Seq<u8>)
    ensures
        first_from(sep, carry_of(sep, text), 0) is None,
{
    lemma_resume_bounds(sep, text, 0);
    lemma_carry_has_no_separator(sep, text, 0);
    lemma_first_from_shift(sep, text, resume_from(sep, text, 0), 0);
}

/// Frames and carry-over move with the text when its first `by` bytes are
/// dropped.
pub proof fn lemma_frames_shift(sep: Seq<u8>, text: Seq<u8>, by: int, from: int)
    requires
        0 <= by <= text.len(),
        0 <= from,
    ensures
        frames_from(sep, text, by + from) == frames_from(sep, text.skip(by), from),
        resume_from(sep, text, by + from) == by + resume_from(sep, text.skip(by), from),
    decreases text.len() - by - from,
{
    lemma_first_from_shift(sep, text, by, from);
    lemma_first_from(sep, text.skip(by), from);
    if let Some(k) = first_from(sep, text.skip(by), from) {
        lemma_frames_shift(sep, text, by, k + sep.len());
        assert(text.subrange(by + from, by + k) =~= text.skip(by).subrange(from, k));
    }
}

/// The frames found in `text` are found in `text + more` too, and the scan
/// of `text + more` goes on from where that of `text` stopped.
pub proof fn lemma_frames_extend(sep: Seq<u8>, text: Seq<u8>, more: Seq<u8>, from: int)
    requires
        0 <= from <= text.len(),
    ensures
        frames_from(sep, text + more, from) == frames_from(sep, text, from) + frames_from(
            sep,
            text + more,
            resume_from(sep, text, from),
        ),
        resume_from(sep, text + more, from) == resume_from(
            sep,
            text + more,
            resume_from(sep, text, from),
        ),
    decreases text.len() - from,
{
    lemma_first_from(sep, text, from);
    match first_from(sep, text, from) {
        Some(k) => {
            lemma_first_from_extend(sep, text, more, from);
            lemma_frames_extend(sep, text, more, k + sep.len());
            assert((text + more).subrange(from, k) =~= text.subrange(from, k));
            let tail = frames_from(sep, text, k + sep.len());
            let rest = frames_from(sep, text + more, resume_from(sep, text, from));
            assert(seq![text.subrange(from, k)] + (tail + rest) =~= (seq![text.subrange(from, k)]
                + tail) + rest);
        },
        None => {
            assert(frames_from(sep, text, from) + frames_from(sep, text + more, from)
                =~= frames_from(sep, text + more, from));
        },
    }
}

/// Chunk-boundary invariance of framing: decoding `first`, then decoding
/// `second` behind what `first` left over, yields the frames and the
/// carry-over of `first + second` decoded at once.
pub proof fn lemma_framing_chunk_invariance(sep: Seq<u8>, first: Seq<u8>, second: Seq<u8>)
    ensures
        frames_of(sep, first + second) == frames_of(sep, first) + frames_of(
            sep,
            carry_of(sep, first) + second,
        ),
        carry_of(sep, first + second) == carry_of(sep, carry_of(sep, first) + second),
{
    let whole = first + second;
    let e = resume_from(sep, first, 0);
    lemma_resume_bounds(sep, first, 0);
    lemma_frames_extend(sep, first, second, 0);
    lemma_frames_shift(sep, whole, e, 0);
    assert(whole.skip(e) =~= first.skip(e) + second);
    let inner = resume_from(sep, whole.skip(e), 0);
    lemma_resume_bounds(sep, whole.skip(e), 0);
    assert(whole.skip(e + inner) =~= whole.skip(e).skip(inner));
}

/// Appends the bytes of `more` to `buf`.
pub fn append_bytes(buf: &mut Vec<u8>, more: &[u8])
    ensures
        final(buf)@ == old(buf)@ + more@,
{
    let mut i: usize = 0;
    while i < more.len()
        invariant
            i <= more.len(),
            buf@ == old(buf)@ + more@.subrange(0, i as int),
        decreases more.len() - i,
    {
        buf.push(more[i]);
        assert(old(buf)@ + more@.subrange(0, i as int + 1) =~= (old(buf)@ + more@.subrange(
            0,
            i as int,
        )).push(more@[i as int]));
        i += 1;
    }
    assert(more@.subrange(0, i as int) =~= more@);
}

/// Cuts `text` at every separator: returns the complete frames, in order,
/// and the position behind the last of them.
pub fn split_frames(separator: &[u8], text: &[u8]) -> (cut: (Vec<Vec<u8>>, usize))
    ensures
        cut.0.deep_view() == frames_of(separator@, text@),
        cut.1 == resume_from(separator@, text@, 0),
{
    split_frames_behind(separator, text, 0)
}

/// Cuts `text` at every separator, given that no separator stands at any of
/// the first `clear` positions: the search begins behind them.
fn split_frames_behind(separator: &[u8], text: &[u8], clear: usize) -> (cut: (Vec<Vec<u8>>, usize))
    requires
        clear <= text@.len(),
        forall|j: int| 0 <= j < clear ==> !occurs_at(separator@, text@, j),
    ensures
        cut.0.deep_view() == frames_of(separator@, text@),
        cut.1 == resume_from(separator@, text@, 0),
{
    let ghost sep = separator@;
    let ghost whole = text@;
    let n = separator.len();
    let mut frames: Vec<Vec<u8>> = Vec::new();
    let mut start: usize = 0;
    let mut i: usize = clear;
    assert(frames.deep_view() + frames_from(sep, whole, 0) =~= frames_from(sep, whole, 0));
    while text.len() - i >= n && n > 0
        invariant
            separator@ == sep,
            text@ == whole,
            n == sep.len(),
            start <= i <= whole.len(),
            forall|j: int| start <= j < i ==> !occurs_at(sep, whole, j),
            frames_of(sep, whole) == frames.deep_view() + frames_from(sep, whole, start as int),
            resume_from(sep, whole, 0) == resume_from(sep, whole, start as int),
        decreases whole.len() - i,
    {
        if bytes_occur_at(separator, text, i) {
            proof {
                lemma_first_from_is(sep, whole, start as int, i as int);
            }
            let frame = slice_to_vec(slice_subrange(text, start, i));
            let ghost before = frames.deep_view();
            let ghost cut = whole.subrange(start as int, i as int);
            assert(frame.deep_view() =~= cut);
            frames.push(frame);
            assert(frames.deep_view() =~= before + seq![cut]);
            assert(before + (seq![cut] + frames_from(sep, whole, i + n)) =~= (before + seq![cut])
                + frames_from(sep, whole, i + n));
            start = i + n;
            i = start;
        } else {
            i += 1;
        }
    }
    proof {
        assert forall|j: int| start <= j implies !occurs_at(sep, whole, j) by {}
        lemma_first_from_none(sep, whole, start as int);
        assert(frames.deep_view() + Seq::<Seq<u8>>::empty() =~= frames.deep_view());
    }
    (frames, start)
}

/// The state of a frame decoder, as contracts see it.
pub struct FrameDecoderView {
    /// The separator that ends a frame.
    pub separator: Seq<u8>,
    /// The bytes of the trailing frame that is not complete yet.
    pub carry: Seq<u8>,
}

/// Turns byte chunks into complete frames and keeps what follows the last
/// separator for the next chunk.
pub struct FrameDecoder {
    separator: Vec<u8>,
    carry: Vec<u8>,
}

impl FrameDecoder {
    /// What is carried over holds no separator.
    #[verifier::type_invariant]
    spec fn carries_no_separator(self) -> bool {
        first_from(self.separator@, self.carry@, 0) is None
    }
}

impl View for FrameDecoder {
    type V = FrameDecoderView;

    closed spec fn view(&self) -> FrameDecoderView {
        FrameDecoderView { separator: self.separator@, carry: self.carry@ }
    }
}

impl FrameDecoder {
    /// A decoder of newline-separated frames, with nothing carried over.
    pub fn line_delimited() -> (decoder: Self)
        ensures
            decoder@.separator == line_separator(),
            decoder@.carry == Seq::<u8>::empty(),
    {
        let mut separator: Vec<u8> = Vec::new();
        separator.push(10u8);
        assert(separator@ =~= line_separator());
        Self { separator, carry: Vec::new() }
    }

    /// A decoder of frames separated by a blank line, with nothing carried
    /// over.
    pub fn event_delimited() -> (decoder: Self)
        ensures
            decoder@.separator == event_separator(),
            decoder@.carry == Seq::<u8>::empty(),
    {
        let mut separator: Vec<u8> = Vec::new();
        separator.push(10u8);
        separator.push(10u8);
        assert(separator@ =~= event_separator());
        Self { separator, carry: Vec::new() }
    }

    /// Takes one chunk and returns the frames that it completes, in order.
    /// What follows the last separator is kept for the next chunk.
    pub fn push(&mut self, chunk: &[u8]) -> (frames: Vec<Vec<u8>>)
        ensures
            final(self)@.separator == old(self)@.separator,
            frames.deep_view() == frames_of(old(self)@.separator, old(self)@.carry + chunk@),
            final(self)@.carry == carry_of(old(self)@.separator, old(self)@.carry + chunk@),
    {
        proof {
            use_type_invariant(&*self);
        }
        let ghost sep = self.separator@;
        let ghost carried = self.carry@;
        let mut text: Vec<u8> = Vec::new();
        std::mem::swap(&mut text, &mut self.carry);
        let held = text.len();
        append_bytes(&mut text, chunk);
        let n = self.separator.len();
        let clear = if n > 0 && held >= n {
            held - (n - 1)
        } else {
            0
        };
        proof {
            lemma_first_from(sep, carried, 0);
            assert forall|j: int| 0 <= j < clear implies !occurs_at(sep, text@, j) by {
                lemma_occurs_extend(sep, carried, chunk@, j);
            }
            lemma_resume_bounds(sep, text@, 0);
            lemma_carry_is_clean(sep, text@);
        }
        let (frames, resume) = split_frames_behind(self.separator.as_slice(), text.as_slice(), clear);
        let rest = slice_to_vec(slice_subrange(text.as_slice(), resume, text.len()));
        assert(rest@ =~= text@.skip(resume as int));
        self.carry = rest;
        frames
    }

    /// What is carried over: the trailing frame that is not complete yet. It
    /// holds no separator.
    pub fn carried(&self) -> (carry: &Vec<u8>)
        ensures
            carry@ == self@.carry,
            first_from(self@.separator, self@.carry, 0) is None,
    {
        proof {
            use_type_invariant(self);
        }
        &self.carry
    }

    /// Hands out the incomplete trailing frame and leaves nothing carried
    /// over: for the end of the stream, when no separator will follow.
    pub fn take_rest(&mut self) -> (rest: Vec<u8>)
        ensures
            final(self)@.separator == old(self)@.separator,
            rest@ == old(self)@.carry,
            final(self)@.carry == Seq::<u8>::empty(),
    {
        let mut rest: Vec<u8> = Vec::new();
        std::mem::swap(&mut rest, &mut self.carry);
        rest
    }
}

} // verus!
