//! The streaming tag filter: removes marker-delimited spans from displayed
//! text while the text is still arriving.
//!
//! Outside a span, characters pass through. From an opening marker up to and
//! including the next closing marker, nothing is shown. A chunk may end in
//! the middle of a marker: the filter then holds the beginning of the marker
//! back until the next chunk decides what it is.
use crate::pattern::{
    chars_occur_at, chars_partial_at, first_from, lemma_first_from, lemma_mismatch_extend,
    lemma_occurs_extend, lemma_occurs_shift, lemma_partial_shift, occurs_at, partial_at,
};
use crate::text::{chars_of, string_of};
use vstd::prelude::*;
use vstd::slice::{slice_subrange, slice_to_vec};

verus! {

/// The opening marker of an embedded tool invocation.
pub const TOOL_CALL_OPEN: &'static str = "<tool_call>";

/// The closing marker of an embedded tool invocation.
pub const TOOL_CALL_CLOSE: &'static str = "</tool_call>";

/// Where a scan of some text stopped, and what it showed.
pub struct Scan {
    /// Whether the scan stopped inside a span.
    pub in_body: bool,
    /// The position from which the text is still undecided.
    pub resume: int,
    /// The characters shown, in order.
    pub shown: Seq<char>,
}

/// The marker that the filter looks for: the closing one inside a span, the
/// opening one outside.
pub open spec fn awaited(open: Seq<char>, close: Seq<char>, in_body: bool) -> Seq<char> {
    if in_body {
        close
    } else {
        open
    }
}

/// Scans `text` from position `at` on, starting inside a span or outside.
///
/// Where the awaited marker stands, the scan jumps behind it and changes
/// sides. Elsewhere it steps over one character, which is shown if the scan
/// is outside a span. With `more_to_come`, the scan stops where the rest of
/// the text is the beginning of the awaited marker, since later text may
/// complete it; without, the text is final and such a rest is ordinary text.
pub open spec fn scan_from(
    open: Seq<char>,
    close: Seq<char>,
    more_to_come: bool,
    in_body: bool,
    text: Seq<char>,
    at: int,
) -> Scan
    decreases text.len() - at,
{
    let pat = awaited(open, close, in_body);
    if at < 0 || at >= text.len() {
        Scan { in_body, resume: at, shown: Seq::empty() }
    } else if occurs_at(pat, text, at) {
        scan_from(open, close, more_to_come, !in_body, text, at + pat.len())
    } else if more_to_come && partial_at(pat, text, at) {
        Scan { in_body, resume: at, shown: Seq::empty() }
    } else {
        let rest = scan_from(open, close, more_to_come, in_body, text, at + 1);
        Scan {
            in_body: rest.in_body,
            resume: rest.resume,
            shown: if in_body {
                rest.shown
            } else {
                seq![text[at]] + rest.shown
            },
        }
    }
}

/// What is shown of a complete text: the text without its spans. A span
/// that is never closed hides the rest of the text.
pub open spec fn visible(open: Seq<char>, close: Seq<char>, text: Seq<char>) -> Seq<char> {
    scan_from(open, close, false, false, text, 0).shown
}

/// A scan stops inside the text, at or after the position where it began.
pub proof fn lemma_scan_bounds(
    open: Seq<char>,
    close: Seq<char>,
    more_to_come: bool,
    in_body: bool,
    text: Seq<char>,
    at: int,
)
    requires
        0 <= at <= text.len(),
    ensures
        at <= scan_from(open, close, more_to_come, in_body, text, at).resume <= text.len(),
        !more_to_come ==> scan_from(open, close, more_to_come, in_body, text, at).resume
            == text.len(),
    decreases text.len() - at,
{
    let pat = awaited(open, close, in_body);
    if at >= text.len() {
    } else if occurs_at(pat, text, at) {
        lemma_scan_bounds(open, close, more_to_come, !in_body, text, at + pat.len());
    } else if more_to_come && partial_at(pat, text, at) {
    } else {
        lemma_scan_bounds(open, close, more_to_come, in_body, text, at + 1);
    }
}

/// A scan moves with the text when its first `by` characters are dropped.
pub proof fn lemma_scan_shift(
    open: Seq<char>,
    close: Seq<char>,
    more_to_come: bool,
    in_body: bool,
    text: Seq<char>,
    by: int,
    at: int,
)
    requires
        0 <= by <= text.len(),
        0 <= at,
    ensures
        scan_from(open, close, more_to_come, in_body, text, by + at).in_body == scan_from(
            open,
            close,
            more_to_come,
            in_body,
            text.skip(by),
            at,
        ).in_body,
        scan_from(open, close, more_to_come, in_body, text, by + at).resume == by + scan_from(
            open,
            close,
            more_to_come,
            in_body,
            text.skip(by),
            at,
        ).resume,
        scan_from(open, close, more_to_come, in_body, text, by + at).shown == scan_from(
            open,
            close,
            more_to_come,
            in_body,
            text.skip(by),
            at,
        ).shown,
    decreases text.len() - by - at,
{
    let pat = awaited(open, close, in_body);
    lemma_occurs_shift(pat, text, by, at);
    lemma_partial_shift(pat, text, by, at);
    if at >= text.len() - by {
    } else if occurs_at(pat, text.skip(by), at) {
        lemma_scan_shift(open, close, more_to_come, !in_body, text, by, at + pat.len());
    } else if more_to_come && partial_at(pat, text.skip(by), at) {
    } else {
        lemma_scan_shift(open, close, more_to_come, in_body, text, by, at + 1);
    }
}

/// What a scan that expects more text has decided stays decided when more
/// text comes: the scan of `text + more` is the scan of `text`, carried on
/// from where that stopped.
pub proof fn lemma_scan_extend(
    open: Seq<char>,
    close: Seq<char>,
    more_to_come: bool,
    in_body: bool,
    text: Seq<char>,
    more: Seq<char>,
    at: int,
)
    requires
        0 <= at <= text.len(),
    ensures
        ({
            let head = scan_from(open, close, true, in_body, text, at);
            let tail = scan_from(open, close, more_to_come, head.in_body, text + more, head.resume);
            let whole = scan_from(open, close, more_to_come, in_body, text + more, at);
            &&& whole.in_body == tail.in_body
            &&& whole.resume == tail.resume
            &&& whole.shown == head.shown + tail.shown
        }),
    decreases text.len() - at,
{
    let pat = awaited(open, close, in_body);
    let head = scan_from(open, close, true, in_body, text, at);
    let tail = scan_from(open, close, more_to_come, head.in_body, text + more, head.resume);
    let whole = scan_from(open, close, more_to_come, in_body, text + more, at);
    if at >= text.len() {
        assert(Seq::<char>::empty() + tail.shown =~= tail.shown);
    } else if occurs_at(pat, text, at) {
        lemma_occurs_extend(pat, text, more, at);
        lemma_scan_extend(open, close, more_to_come, !in_body, text, more, at + pat.len());
    } else if partial_at(pat, text, at) {
        assert(Seq::<char>::empty() + tail.shown =~= tail.shown);
    } else {
        if at + pat.len() <= text.len() {
            lemma_occurs_extend(pat, text, more, at);
        } else {
            lemma_mismatch_extend(pat, text, more, at);
        }
        lemma_scan_extend(open, close, more_to_come, in_body, text, more, at + 1);
        let head_rest = scan_from(open, close, true, in_body, text, at + 1);
        assert((text + more)[at] == text[at]);
        assert(seq![text[at]] + (head_rest.shown + tail.shown) =~= (seq![text[at]]
            + head_rest.shown) + tail.shown);
    }
}

/// Chunk-boundary invariance of the filter. Scanning `first`, then scanning
/// `second` behind what `first` left undecided, shows what a scan of
/// `first + second` shows, ends on the same side and leaves the same text
/// undecided. It holds whether or not more text is to come after `second`.
pub proof fn lemma_filter_chunk_invariance(
    open: Seq<char>,
    close: Seq<char>,
    more_to_come: bool,
    in_body: bool,
    first: Seq<char>,
    second: Seq<char>,
)
    ensures
        ({
            let head = scan_from(open, close, true, in_body, first, 0);
            let held = first.skip(head.resume);
            let tail = scan_from(open, close, more_to_come, head.in_body, held + second, 0);
            let whole = scan_from(open, close, more_to_come, in_body, first + second, 0);
            &&& whole.in_body == tail.in_body
            &&& whole.shown == head.shown + tail.shown
            &&& (first + second).skip(whole.resume) == (held + second).skip(tail.resume)
        }),
{
    let head = scan_from(open, close, true, in_body, first, 0);
    let held = first.skip(head.resume);
    let tail = scan_from(open, close, more_to_come, head.in_body, held + second, 0);
    lemma_scan_bounds(open, close, true, in_body, first, 0);
    lemma_scan_extend(open, close, more_to_come, in_body, first, second, 0);
    lemma_scan_shift(open, close, more_to_come, head.in_body, first + second, head.resume, 0);
    assert((first + second).skip(head.resume) =~= held + second);
    lemma_scan_bounds(open, close, more_to_come, head.in_body, held + second, 0);
    assert((first + second).skip(head.resume + tail.resume) =~= (first + second).skip(
        head.resume,
    ).skip(tail.resume));
}

/// What the filter shows is never taken back, and no beginning of a
/// marker is shown before it is decided: what is shown of a text that more
/// may follow is the beginning of what is shown of the text with any
/// continuation.
pub proof fn lemma_shown_text_stays(
    open: Seq<char>,
    close: Seq<char>,
    text: Seq<char>,
    more: Seq<char>,
)
    ensures
        scan_from(open, close, true, false, text, 0).shown.is_prefix_of(
            visible(open, close, text + more),
        ),
{
    lemma_scan_extend(open, close, false, false, text, more, 0);
    let head = scan_from(open, close, true, false, text, 0);
    let tail = scan_from(open, close, false, head.in_body, text + more, head.resume);
    assert((head.shown + tail.shown).subrange(0, head.shown.len() as int) =~= head.shown);
}

/// A text that is split in two at any point and filtered piece by piece
/// shows, once the stream has ended, exactly what the whole text shows.
pub proof fn lemma_filter_split_invariance(
    open: Seq<char>,
    close: Seq<char>,
    first: Seq<char>,
    second: Seq<char>,
)
    ensures
        ({
            let one = scan_from(open, close, true, false, first, 0);
            let two = scan_from(open, close, true, one.in_body, first.skip(one.resume) + second, 0);
            let held = (first.skip(one.resume) + second).skip(two.resume);
            let end = scan_from(open, close, false, two.in_body, held, 0);
            one.shown + two.shown + end.shown == visible(open, close, first + second)
        }),
{
    let one = scan_from(open, close, true, false, first, 0);
    let two = scan_from(open, close, true, one.in_body, first.skip(one.resume) + second, 0);
    let held = (first.skip(one.resume) + second).skip(two.resume);
    let whole = scan_from(open, close, true, false, first + second, 0);
    lemma_filter_chunk_invariance(open, close, true, false, first, second);
    lemma_filter_chunk_invariance(open, close, false, false, first + second, Seq::empty());
    assert((first + second) + Seq::<char>::empty() =~= first + second);
    assert((first + second).skip(whole.resume) + Seq::<char>::empty() =~= (first + second).skip(
        whole.resume,
    ));
}

/// A text in which the opening marker stands nowhere is shown unchanged.
pub proof fn lemma_text_without_marker_is_unchanged(
    open: Seq<char>,
    close: Seq<char>,
    text: Seq<char>,
)
    requires
        first_from(open, text, 0) is None,
    ensures
        visible(open, close, text) == text,
{
    lemma_first_from(open, text, 0);
    lemma_plain_rest(open, close, text, 0);
    assert(text.skip(0) =~= text);
}

proof fn lemma_plain_rest(open: Seq<char>, close: Seq<char>, text: Seq<char>, at: int)
    requires
        0 <= at <= text.len(),
        forall|j: int| at <= j ==> !occurs_at(open, text, j),
    ensures
        scan_from(open, close, false, false, text, at).shown == text.skip(at),
    decreases text.len() - at,
{
    if at < text.len() {
        lemma_plain_rest(open, close, text, at + 1);
        assert(seq![text[at]] + text.skip(at + 1) =~= text.skip(at));
    } else {
        assert(text.skip(at) =~= Seq::<char>::empty());
    }
}

/// A text that is one span and nothing else shows nothing: an opening
/// marker, a body, and a closing marker that is the first one to follow the
/// opening marker.
pub proof fn lemma_wrapped_text_is_hidden(open: Seq<char>, close: Seq<char>, body: Seq<char>)
    requires
        open.len() > 0,
        first_from(close, body + close, 0) == Some(body.len() as int),
    ensures
        visible(open, close, open + body + close) == Seq::<char>::empty(),
{
    let text = open + body + close;
    assert(text.subrange(0, open.len() as int) =~= open);
    assert(occurs_at(open, text, 0));
    lemma_first_from(close, body + close, 0);
    assert(text.skip(open.len() as int) =~= body + close);
    assert forall|j: int| open.len() <= j < open.len() + body.len() implies !occurs_at(
        close,
        text,
        j,
    ) by {
        lemma_occurs_shift(close, text, open.len() as int, j - open.len());
    }
    lemma_occurs_shift(close, text, open.len() as int, body.len() as int);
    lemma_hidden_rest(open, close, text, open.len() as int, (open.len() + body.len()) as int);
}

proof fn lemma_hidden_rest(open: Seq<char>, close: Seq<char>, text: Seq<char>, at: int, end: int)
    requires
        0 <= at <= end,
        occurs_at(close, text, end),
        end + close.len() == text.len(),
        forall|j: int| at <= j < end ==> !occurs_at(close, text, j),
    ensures
        scan_from(open, close, false, true, text, at).shown == Seq::<char>::empty(),
    decreases end - at,
{
    if at < end {
        lemma_hidden_rest(open, close, text, at + 1, end);
    } else {
        assert(scan_from(open, close, false, false, text, end + close.len()).shown
            == Seq::<char>::empty());
    }
}

/// The state of a filter, as contracts see it.
pub struct FilterView {
    /// The marker that opens a span.
    pub open: Seq<char>,
    /// The marker that closes a span.
    pub close: Seq<char>,
    /// Whether the text so far ends inside a span.
    pub in_body: bool,
    /// The end of the text so far that is still undecided: the beginning of
    /// a marker.
    pub held: Seq<char>,
}

impl FilterView {
    /// The filter after a chunk of text, and what is shown of the chunk.
    /// The text to scan is what was held back followed by the chunk; more
    /// may follow.
    pub open spec fn after(self, chunk: Seq<char>) -> (FilterView, Seq<char>) {
        let text = self.held + chunk;
        let scan = scan_from(self.open, self.close, true, self.in_body, text, 0);
        (FilterView { in_body: scan.in_body, held: text.skip(scan.resume), ..self }, scan.shown)
    }

    /// The filter after the end of the text, and what is shown of the text
    /// that was held back, now that nothing can complete it.
    pub open spec fn at_end(self) -> (FilterView, Seq<char>) {
        (
            FilterView { in_body: false, held: Seq::empty(), ..self },
            scan_from(self.open, self.close, false, self.in_body, self.held, 0).shown,
        )
    }

    /// The filter after the chunks, and what is shown of them.
    pub open spec fn after_all(self, chunks: Seq<Seq<char>>) -> (FilterView, Seq<char>)
        decreases chunks.len(),
    {
        if chunks.len() == 0 {
            (self, Seq::empty())
        } else {
            let before = self.after_all(chunks.drop_last());
            let last = before.0.after(chunks.last());
            (last.0, before.1 + last.1)
        }
    }
}

/// The chunks, one after the other, as one text.
pub open spec fn joined_text(chunks: Seq<Seq<char>>) -> Seq<char>
    decreases chunks.len(),
{
    if chunks.len() == 0 {
        Seq::empty()
    } else {
        joined_text(chunks.drop_last()) + chunks.last()
    }
}

/// However a text is cut into chunks, the filter shows of it the same as
/// of the whole text in one chunk, and ends in the same state.
pub proof fn lemma_filter_cuts_are_irrelevant(filter: FilterView, chunks: Seq<Seq<char>>)
    requires
        chunks.len() > 0,
    ensures
        filter.after_all(chunks) == filter.after(joined_text(chunks)),
    decreases chunks.len(),
{
    let rest = chunks.drop_last();
    let last = chunks.last();
    if rest.len() == 0 {
        assert(joined_text(rest) =~= Seq::<char>::empty());
        assert(joined_text(chunks) =~= last);
        assert(filter.after_all(rest) == (filter, Seq::<char>::empty()));
        assert(Seq::<char>::empty() + filter.after(last).1 =~= filter.after(last).1);
    } else {
        lemma_filter_cuts_are_irrelevant(filter, rest);
        let first = filter.held + joined_text(rest);
        lemma_filter_chunk_invariance(filter.open, filter.close, true, filter.in_body, first, last);
        assert(first + last =~= filter.held + joined_text(chunks));
        let one = filter.after(joined_text(rest));
        let two = one.0.after(last);
        let whole = filter.after(joined_text(chunks));
        assert(two.0.held =~= whole.0.held);
        assert(one.1 + two.1 =~= whole.1);
        assert(two.0 == whole.0);
    }
}

/// A text that is filtered chunk by chunk shows, once it has ended, exactly
/// what the whole text shows, however it was cut: the text without its
/// spans.
pub proof fn lemma_filtered_stream_shows_visible_text(
    open: Seq<char>,
    close: Seq<char>,
    chunks: Seq<Seq<char>>,
)
    ensures
        ({
            let start = FilterView { open, close, in_body: false, held: Seq::empty() };
            let fed = start.after_all(chunks);
            fed.1 + fed.0.at_end().1 == visible(open, close, joined_text(chunks))
        }),
{
    let start = FilterView { open, close, in_body: false, held: Seq::empty() };
    let text = joined_text(chunks);
    let none = Seq::<char>::empty();
    if chunks.len() == 0 {
        assert(none + none =~= none);
    } else {
        lemma_filter_cuts_are_irrelevant(start, chunks);
        assert(none + text =~= text);
        lemma_filter_chunk_invariance(open, close, false, false, text, none);
        assert(text + none =~= text);
        let head = scan_from(open, close, true, false, text, 0);
        assert(text.skip(head.resume) + none =~= text.skip(head.resume));
    }
}

/// Filters text that arrives in chunks.
pub struct StreamingXmlFilter {
    open: Vec<char>,
    close: Vec<char>,
    in_body: bool,
    held: Vec<char>,
}

impl View for StreamingXmlFilter {
    type V = FilterView;

    closed spec fn view(&self) -> FilterView {
        FilterView {
            open: self.open@,
            close: self.close@,
            in_body: self.in_body,
            held: self.held@,
        }
    }
}

/// Appends the characters of `more` to `buf`.
fn append_chars(buf: &mut Vec<char>, more: &[char])
    ensures
        final(buf)@ == old(buf)@ + more@,
{
    let mut i: usize = 0;
    while i < more.len()
        invariant
            i <= more.len(),
            buf@ == old(buf)@ + more@.subrange(0, i as int),
        decreases more.len() - i,
    {
        buf.push(more[i]);
        assert(old(buf)@ + more@.subrange(0, i as int + 1) =~= (old(buf)@ + more@.subrange(
            0,
            i as int,
        )).push(more@[i as int]));
        i += 1;
    }
    assert(more@.subrange(0, i as int) =~= more@);
}

impl StreamingXmlFilter {
    /// A filter for the markers of an embedded tool invocation, outside any
    /// span and with nothing held back.
    pub fn new() -> (filter: Self)
        ensures
            filter@.open == TOOL_CALL_OPEN@,
            filter@.close == TOOL_CALL_CLOSE@,
            !filter@.in_body,
            filter@.held == Seq::<char>::empty(),
    {
        Self::with_markers(TOOL_CALL_OPEN, TOOL_CALL_CLOSE)
    }

    /// A filter for the given markers, outside any span and with nothing
    /// held back. An empty opening marker opens no span, and an empty closing
    /// marker closes none.
    pub fn with_markers(open: &str, close: &str) -> (filter: Self)
        ensures
            filter@.open == open@,
            filter@.close == close@,
            !filter@.in_body,
            filter@.held == Seq::<char>::empty(),
    {
        Self { open: chars_of(open), close: chars_of(close), in_body: false, held: Vec::new() }
    }

    /// Scans what is held back followed by `more`, and keeps what stays
    /// undecided.
    fn advance(&mut self, more: &[char], more_to_come: bool) -> (shown: Vec<char>)
        ensures
            final(self)@.open == old(self)@.open,
            final(self)@.close == old(self)@.close,
            ({
                let text = old(self)@.held + more@;
                let scan = scan_from(
                    old(self)@.open,
                    old(self)@.close,
                    more_to_come,
                    old(self)@.in_body,
                    text,
                    0,
                );
                &&& shown@ == scan.shown
                &&& final(self)@.in_body == scan.in_body
                &&& final(self)@.held == text.skip(scan.resume)
            }),
    {
        append_chars(&mut self.held, more);
        let ghost open = self.open@;
        let ghost close = self.close@;
        let ghost text = self.held@;
        let ghost start = self.in_body;
        let ghost whole = scan_from(open, close, more_to_come, start, text, 0);
        let mut shown: Vec<char> = Vec::new();
        let mut at: usize = 0;
        let mut stop = false;
        while at < self.held.len() && !stop
            invariant
                self.open@ == open,
                self.close@ == close,
                self.held@ == text,
                at <= text.len(),
                whole == scan_from(open, close, more_to_come, start, text, 0),
                ({
                    let rest = scan_from(open, close, more_to_come, self.in_body, text, at as int);
                    &&& whole.in_body == rest.in_body
                    &&& whole.resume == rest.resume
                    &&& whole.shown == shown@ + rest.shown
                }),
                stop ==> scan_from(open, close, more_to_come, self.in_body, text, at as int)
                    == (Scan { in_body: self.in_body, resume: at as int, shown: Seq::empty() }),
            decreases text.len() - at, if stop { 0int } else { 1int },
        {
            let found = if self.in_body {
                chars_occur_at(self.close.as_slice(), self.held.as_slice(), at)
            } else {
                chars_occur_at(self.open.as_slice(), self.held.as_slice(), at)
            };
            if found {
                let len = if self.in_body {
                    self.close.len()
                } else {
                    self.open.len()
                };
                at = at + len;
                self.in_body = !self.in_body;
            } else {
                let partial = more_to_come && if self.in_body {
                    chars_partial_at(self.close.as_slice(), self.held.as_slice(), at)
                } else {
                    chars_partial_at(self.open.as_slice(), self.held.as_slice(), at)
                };
                if partial {
                    stop = true;
                } else {
                    if !self.in_body {
                        let ghost before = shown@;
                        let ghost rest = scan_from(
                            open,
                            close,
                            more_to_come,
                            false,
                            text,
                            at as int + 1,
                        );
                        shown.push(self.held[at]);
                        assert(before + (seq![text[at as int]] + rest.shown) =~= shown@
                            + rest.shown);
                    }
                    at = at + 1;
                }
            }
        }
        proof {
            assert(shown@ + Seq::<char>::empty() =~= shown@);
        }
        let rest = slice_to_vec(slice_subrange(self.held.as_slice(), at, self.held.len()));
        assert(rest@ =~= text.skip(at as int));
        self.held = rest;
        shown
    }

    /// Takes the next chunk of text and returns what can be shown of it now.
    ///
    /// The text so far is what was held back followed by `chunk`. It is
    /// scanned as text that more may follow: the beginning of a marker at its
    /// end is held back, never shown.
    pub fn process_chunk(&mut self, chunk: &str) -> (shown: String)
        ensures
            final(self)@ == old(self)@.after(chunk@).0,
            shown@ == old(self)@.after(chunk@).1,
    {
        let more = chars_of(chunk);
        let shown = self.advance(more.as_slice(), true);
        string_of(shown.as_slice())
    }

    /// Ends the text: returns what is shown of the text that was held back,
    /// now that nothing can complete it, and goes back to the initial state.
    pub fn finish(&mut self) -> (shown: String)
        ensures
            final(self)@ == old(self)@.at_end().0,
            shown@ == old(self)@.at_end().1,
    {
        let none: Vec<char> = Vec::new();
        proof {
            assert(self@.held + none@ =~= self@.held);
            lemma_scan_bounds(self@.open, self@.close, false, self@.in_body, self@.held, 0);
        }
        let shown = self.advance(none.as_slice(), false);
        self.in_body = false;
        assert(self@.held =~= Seq::<char>::empty());
        string_of(shown.as_slice())
    }
}

} // verus!
