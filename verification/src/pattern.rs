//! Occurrences of a pattern inside a sequence.
//!
//! Both the frame decoder (on bytes) and the streaming tag filter (on
//! characters) look for a fixed marker in text that arrives in pieces. The
//! definitions here are by position in the whole text, so that a statement
//! about a piece carries over to the text it is a piece of.
use vstd::prelude::*;

verus! {

/// The pattern stands in `text` at position `at`. An empty pattern stands
/// nowhere.
pub open spec fn occurs_at<T>(pat: Seq<T>, text: Seq<T>, at: int) -> bool {
    &&& pat.len() > 0
    &&& 0 <= at
    &&& at + pat.len() <= text.len()
    &&& text.subrange(at, at + pat.len()) == pat
}

/// What is left of `text` from `at` on is shorter than the pattern and agrees
/// with its beginning: more text may still complete the pattern here.
pub open spec fn partial_at<T>(pat: Seq<T>, text: Seq<T>, at: int) -> bool {
    &&& 0 <= at < text.len()
    &&& text.len() - at < pat.len()
    &&& text.subrange(at, text.len() as int) == pat.subrange(0, text.len() - at)
}

/// The first position at or after `from` where the pattern stands, if any.
pub open spec fn first_from<T>(pat: Seq<T>, text: Seq<T>, from: int) -> Option<int>
    decreases text.len() - from,
{
    if from < 0 || pat.len() == 0 || from + pat.len() > text.len() {
        None
    } else if occurs_at(pat, text, from) {
        Some(from)
    } else {
        first_from(pat, text, from + 1)
    }
}

/// `first_from` returns the least position at or after `from` where the
/// pattern stands, and `None` exactly when there is none.
pub proof fn lemma_first_from<T>(pat: Seq<T>, text: Seq<T>, from: int)
    requires
        0 <= from,
    ensures
        match first_from(pat, text, from) {
            Some(k) => {
                &&& from <= k
                &&& occurs_at(pat, text, k)
                &&& forall|j: int| from <= j < k ==> !occurs_at(pat, text, j)
            },
            None => forall|j: int| from <= j ==> !occurs_at(pat, text, j),
        },
    decreases text.len() - from,
{
    if pat.len() == 0 || from + pat.len() > text.len() {
    } else if occurs_at(pat, text, from) {
    } else {
        lemma_first_from(pat, text, from + 1);
    }
}

/// A position with the properties of `lemma_first_from` is the one that
/// `first_from` returns.
pub proof fn lemma_first_from_is<T>(pat: Seq<T>, text: Seq<T>, from: int, k: int)
    requires
        0 <= from <= k,
        occurs_at(pat, text, k),
        forall|j: int| from <= j < k ==> !occurs_at(pat, text, j),
    ensures
        first_from(pat, text, from) == Some(k),
    decreases k - from,
{
    if from < k {
        lemma_first_from_is(pat, text, from + 1, k);
    }
}

/// Where nothing stands at or after `from`, `first_from` returns `None`.
pub proof fn lemma_first_from_none<T>(pat: Seq<T>, text: Seq<T>, from: int)
    requires
        0 <= from,
        forall|j: int| from <= j ==> !occurs_at(pat, text, j),
    ensures
        first_from(pat, text, from) is None,
    decreases text.len() - from,
{
    if pat.len() > 0 && from + pat.len() <= text.len() {
        lemma_first_from_none(pat, text, from + 1);
    }
}

/// An occurrence that lies inside `text` is an occurrence in `text + more`,
/// and the other way round.
pub proof fn lemma_occurs_extend<T>(pat: Seq<T>, text: Seq<T>, more: Seq<T>, at: int)
    requires
        0 <= at,
        at + pat.len() <= text.len(),
    ensures
        occurs_at(pat, text + more, at) == occurs_at(pat, text, at),
{
    assert((text + more).subrange(at, at + pat.len()) =~= text.subrange(at, at + pat.len()));
}

/// Occurrences move with the text when its first `by` items are dropped.
pub proof fn lemma_occurs_shift<T>(pat: Seq<T>, text: Seq<T>, by: int, at: int)
    requires
        0 <= by <= text.len(),
        0 <= at,
    ensures
        occurs_at(pat, text.skip(by), at) == occurs_at(pat, text, by + at),
{
    if at + pat.len() <= text.len() - by {
        assert(text.skip(by).subrange(at, at + pat.len()) =~= text.subrange(
            by + at,
            by + at + pat.len(),
        ));
    }
}

/// A partial match moves with the text when its first `by` items are dropped.
pub proof fn lemma_partial_shift<T>(pat: Seq<T>, text: Seq<T>, by: int, at: int)
    requires
        0 <= by <= text.len(),
        0 <= at,
    ensures
        partial_at(pat, text.skip(by), at) == partial_at(pat, text, by + at),
{
    if at < text.len() - by {
        assert(text.skip(by).subrange(at, text.skip(by).len() as int) =~= text.subrange(
            by + at,
            text.len() as int,
        ));
    }
}

/// Where the rest of `text` from `at` on is too short for the pattern and is
/// no partial match either, no continuation makes the pattern stand at `at`.
pub proof fn lemma_mismatch_extend<T>(pat: Seq<T>, text: Seq<T>, more: Seq<T>, at: int)
    requires
        0 <= at < text.len(),
        at + pat.len() > text.len(),
        !partial_at(pat, text, at),
    ensures
        !occurs_at(pat, text + more, at),
        !partial_at(pat, text + more, at),
{
    let rest = text.len() - at;
    let whole = text + more;
    if occurs_at(pat, whole, at) {
        assert(whole.subrange(at, at + pat.len()) == pat);
        assert forall|j: int| 0 <= j < rest implies text.subrange(at, text.len() as int)[j]
            == pat.subrange(0, rest)[j] by {
            assert(whole.subrange(at, at + pat.len())[j] == whole[at + j]);
        }
        assert(text.subrange(at, text.len() as int) =~= pat.subrange(0, rest));
    }
    if partial_at(pat, whole, at) {
        let wrest = whole.len() - at;
        assert forall|j: int| 0 <= j < rest implies text.subrange(at, text.len() as int)[j]
            == pat.subrange(0, rest)[j] by {
            assert(whole.subrange(at, whole.len() as int)[j] == whole[at + j]);
            assert(pat.subrange(0, wrest)[j] == pat[j]);
        }
        assert(text.subrange(at, text.len() as int) =~= pat.subrange(0, rest));
    }
}

/// `first_from` moves with the text when its first `by` items are dropped.
pub proof fn lemma_first_from_shift<T>(pat: Seq<T>, text: Seq<T>, by: int, from: int)
    requires
        0 <= by <= text.len(),
        0 <= from,
    ensures
        first_from(pat, text, by + from) == match first_from(pat, text.skip(by), from) {
            Some(k) => Some(by + k),
            None => None,
        },
    decreases text.len() - by - from,
{
    lemma_occurs_shift(pat, text, by, from);
    if pat.len() > 0 && from + pat.len() <= text.len() - by && !occurs_at(
        pat,
        text.skip(by),
        from,
    ) {
        lemma_first_from_shift(pat, text, by, from + 1);
    }
}

/// A first occurrence found inside `text` is the first one in `text + more`.
pub proof fn lemma_first_from_extend<T>(pat: Seq<T>, text: Seq<T>, more: Seq<T>, from: int)
    requires
        0 <= from,
        first_from(pat, text, from) is Some,
    ensures
        first_from(pat, text + more, from) == first_from(pat, text, from),
    decreases text.len() - from,
{
    lemma_occurs_extend(pat, text, more, from);
    if pat.len() > 0 && from + pat.len() <= text.len() && !occurs_at(pat, text, from) {
        lemma_first_from_extend(pat, text, more, from + 1);
    }
}

/// Whether the bytes of `pat` stand in `text` at position `at`.
pub fn bytes_occur_at(pat: &[u8], text: &[u8], at: usize) -> (found: bool)
    ensures
        found == occurs_at(pat@, text@, at as int),
{
    let n = pat.len();
    if n == 0 || at > text.len() || text.len() - at < n {
        return false;
    }
    let mut j: usize = 0;
    while j < n
        invariant
            n == pat.len(),
            at + n <= text.len(),
            j <= n,
            forall|k: int| 0 <= k < j ==> text@[at + k] == pat@[k],
        decreases n - j,
    {
        if text[at + j] != pat[j] {
            assert(text@.subrange(at as int, at + n)[j as int] == text@[at + j]);
            return false;
        }
        j += 1;
    }
    assert(text@.subrange(at as int, at + n) =~= pat@);
    true
}

/// Whether two byte sequences are the same.
pub fn bytes_equal(one: &[u8], other: &[u8]) -> (same: bool)
    ensures
        same == (one@ == other@),
{
    if one.len() != other.len() {
        return false;
    }
    if one.len() == 0 {
        assert(one@ =~= other@);
        return true;
    }
    let same = bytes_occur_at(one, other, 0);
    assert(other@.subrange(0, one@.len() as int) =~= other@);
    same
}

/// Whether the characters of `pat` stand in `text` at position `at`.
pub fn chars_occur_at(pat: &[char], text: &[char], at: usize) -> (found: bool)
    ensures
        found == occurs_at(pat@, text@, at as int),
{
    let n = pat.len();
    if n == 0 || at > text.len() || text.len() - at < n {
        return false;
    }
    let mut j: usize = 0;
    while j < n
        invariant
            n == pat.len(),
            at + n <= text.len(),
            j <= n,
            forall|k: int| 0 <= k < j ==> text@[at + k] == pat@[k],
        decreases n - j,
    {
        if text[at + j] != pat[j] {
            assert(text@.subrange(at as int, at + n)[j as int] == text@[at + j]);
            return false;
        }
        j += 1;
    }
    assert(text@.subrange(at as int, at + n) =~= pat@);
    true
}

/// The first position at or after `from` where the characters of `pat`
/// stand in `text`.
pub fn find_chars(pat: &[char], text: &[char], from: usize) -> (found: Option<usize>)
    ensures
        match found {
            Some(at) => first_from(pat@, text@, from as int) == Some(at as int) && from <= at
                && at + pat@.len() <= text@.len() && pat@.len() > 0,
            None => first_from(pat@, text@, from as int) is None,
        },
{
    let n = pat.len();
    if n == 0 || from > text.len() {
        return None;
    }
    let mut i: usize = from;
    while text.len() - i >= n
        invariant
            n == pat.len(),
            n > 0,
            from <= i <= text.len(),
            forall|j: int| from <= j < i ==> !occurs_at(pat@, text@, j),
        decreases text.len() - i,
    {
        if chars_occur_at(pat, text, i) {
            proof {
                lemma_first_from_is(pat@, text@, from as int, i as int);
            }
            return Some(i);
        }
        i += 1;
    }
    proof {
        assert forall|j: int| from <= j implies !occurs_at(pat@, text@, j) by {}
        lemma_first_from_none(pat@, text@, from as int);
    }
    None
}

/// Whether what is left of `text` from `at` on is a beginning of `pat`,
/// shorter than `pat`.
pub fn chars_partial_at(pat: &[char], text: &[char], at: usize) -> (partial: bool)
    ensures
        partial == partial_at(pat@, text@, at as int),
{
    if at >= text.len() || text.len() - at >= pat.len() {
        return false;
    }
    let rest = text.len() - at;
    let mut j: usize = 0;
    while j < rest
        invariant
            rest == text.len() - at,
            rest < pat.len(),
            j <= rest,
            forall|k: int| 0 <= k < j ==> text@[at + k] == pat@[k],
        decreases rest - j,
    {
        if text[at + j] != pat[j] {
            assert(text@.subrange(at as int, text@.len() as int)[j as int] == text@[at + j]);
            assert(pat@.subrange(0, rest as int)[j as int] == pat@[j as int]);
            return false;
        }
        j += 1;
    }
    assert(text@.subrange(at as int, text@.len() as int) =~= pat@.subrange(0, rest as int));
    true
}

} // verus!
