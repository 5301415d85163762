//! Images in messages: they travel as base64 text.
use crate::types::{Message, MessageView};
use vstd::prelude::*;

verus! {

/// The base64 text of some bytes, in the standard alphabet and with
/// padding.
pub uninterp spec fn base64_text(bytes: Seq<u8>) -> Seq<char>;

/// Calls `Engine::encode` of the `base64` crate on its `STANDARD` engine.
///
/// The encoder gives up where the length of the text does not fit in
/// `usize`; bytes of at most half that many are far from it.
#[verifier::external_body]
fn encode_base64(bytes: &[u8]) -> (text: String)
    requires
        bytes@.len() <= usize::MAX / 2,
    ensures
        text@ == base64_text(bytes@),
{
    base64::Engine::encode(&base64::engine::general_purpose::STANDARD, bytes)
}

/// The base64 text of the bytes of an image. Returns `None` for more
/// bytes than half of what `usize` can count, and for those alone.
pub fn encode_image_data(bytes: &[u8]) -> (text: Option<String>)
    ensures
        text.deep_view() == if bytes@.len() <= usize::MAX / 2 {
            Some(base64_text(bytes@))
        } else {
            None
        },
{
    if bytes.len() <= usize::MAX / 2 {
        Some(encode_base64(bytes))
    } else {
        None
    }
}

/// The messages with the images on the last of them. Without messages
/// there is nothing to put them on.
pub open spec fn with_images(messages: Seq<MessageView>, images: Seq<Seq<char>>) -> Seq<
    MessageView,
> {
    if messages.len() == 0 {
        messages
    } else {
        messages.update(
            messages.len() - 1,
            MessageView { images: Some(images), ..messages.last() },
        )
    }
}

/// Puts the images, given as base64 text, on the last message.
pub fn attach_images(messages: &mut Vec<Message>, images: Vec<String>)
    ensures
        final(messages).deep_view() == with_images(old(messages).deep_view(), images.deep_view()),
{
    let ghost before = messages.deep_view();
    match messages.pop() {
        Some(mut last) => {
            let ghost rest = messages.deep_view();
            let ghost was = last@;
            assert(rest =~= before.drop_last());
            assert(was == before.last());
            last.images = Some(images);
            let ghost now = last@;
            messages.push(last);
            assert(messages.deep_view() =~= before.update(before.len() - 1, now));
        },
        None => {
            assert(messages.deep_view() =~= before);
        },
    }
}

} // verus!
