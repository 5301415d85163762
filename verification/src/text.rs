//! Conversions between strings and sequences of characters.
use crate::pattern::bytes_equal;
use vstd::prelude::*;
use vstd::string::StringSliceAdditionalSpecFns;

verus! {

/// Whether two texts are the same.
pub fn str_eq(one: &str, other: &str) -> (same: bool)
    ensures
        same == (one@ == other@),
{
    let same = bytes_equal(one.as_bytes(), other.as_bytes());
    proof {
        vstd::utf8::encode_utf8_decode_utf8(one@);
        vstd::utf8::encode_utf8_decode_utf8(other@);
    }
    same
}

/// The characters of `s`, in order.
pub fn chars_of(s: &str) -> (chars: Vec<char>)
    ensures
        chars@ == s@,
{
    let mut chars: Vec<char> = Vec::new();
    for c in iter: s.chars()
        invariant
            chars@ == s@.take(iter.index() as int),
            iter.seq() == s@,
    {
        chars.push(c);
        assert(s@.take(iter.index() + 1) =~= s@.take(iter.index() as int).push(c));
    }
    assert(s@.take(s@.len() as int) =~= s@);
    chars
}

/// What `String::from_utf8_lossy` makes of bytes that are not valid UTF-8.
pub uninterp spec fn lossy_text(bytes: Seq<u8>) -> Seq<char>;

/// The text that bytes stand for: the text that they encode or, where they
/// are not valid UTF-8, the text that `String::from_utf8_lossy` makes of
/// them.
pub open spec fn text_of_bytes(bytes: Seq<u8>) -> Seq<char> {
    if vstd::utf8::valid_utf8(bytes) {
        vstd::utf8::decode_utf8(bytes)
    } else {
        lossy_text(bytes)
    }
}

/// Calls `String::from_utf8_lossy`: valid UTF-8 gives the text that it
/// encodes; in other bytes every invalid sequence is replaced.
#[verifier::external_body]
pub(crate) fn string_of_bytes(bytes: &[u8]) -> (s: String)
    ensures
        vstd::utf8::valid_utf8(bytes@) ==> s@ == vstd::utf8::decode_utf8(bytes@),
        !vstd::utf8::valid_utf8(bytes@) ==> s@ == lossy_text(bytes@),
{
    String::from_utf8_lossy(bytes).into_owned()
}

/// What `str::trim` leaves of a text: the text without the white space at
/// its two ends.
pub uninterp spec fn trimmed(text: Seq<char>) -> Seq<char>;

/// Calls `str::trim`.
#[verifier::external_body]
pub(crate) fn trim(text: &str) -> (s: &str)
    ensures
        s@ == trimmed(text@),
{
    text.trim()
}

/// Calls `String::from_iter` on the characters: the string that consists of
/// exactly these characters, in order.
#[verifier::external_body]
pub(crate) fn string_of(chars: &[char]) -> (s: String)
    ensures
        s@ == chars@,
{
    String::from_iter(chars.iter())
}

} // verus!
