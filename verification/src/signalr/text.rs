//! Text frames: UTF-8 text followed by the record separator.

use vstd::prelude::*;
use vstd::slice::slice_subrange;
use vstd::string::StringSliceAdditionalSpecFns;
use vstd::utf8::{decode_utf8, encode_utf8, encode_utf8_decode_utf8, valid_utf8};

verus! {

/// The byte that ends a text frame.
pub const RECORD_SEPARATOR: u8 = 0x1E;

/// The text of a frame: what stands before the record separator that ends the
/// frame, read as UTF-8. `None` where the frame is empty, ends in another
/// byte, or holds bytes before the separator that are not UTF-8.
pub open spec fn frame_text(frame: Seq<u8>) -> Option<Seq<char>> {
    if frame.len() >= 1 && frame.last() == RECORD_SEPARATOR && valid_utf8(frame.drop_last()) {
        Some(decode_utf8(frame.drop_last()))
    } else {
        None
    }
}

/// The frame that carries `text`: its UTF-8 bytes, then the record separator.
pub open spec fn text_frame(text: Seq<char>) -> Seq<u8> {
    encode_utf8(text).push(RECORD_SEPARATOR)
}

/// A text comes back from its frame as it was.
pub proof fn lemma_text_frame_round_trip(text: Seq<char>)
    ensures
        frame_text(text_frame(text)) == Some(text),
{
    broadcast use vstd::utf8::encode_utf8_valid_utf8;

    encode_utf8_decode_utf8(text);
    assert(text_frame(text).drop_last() =~= encode_utf8(text));
}

/// `core::str::from_utf8`: the same bytes as a string slice where they are
/// UTF-8, and `None` where they are not.
#[verifier::external_body]
fn read_utf8(bytes: &[u8]) -> (r: Option<&str>)
    ensures
        match r {
            Some(text) => valid_utf8(bytes@) && text.spec_bytes() == bytes@,
            None => !valid_utf8(bytes@),
        },
{
    core::str::from_utf8(bytes).ok()
}

/// The text of a frame.
pub fn text_of_frame(frame: &[u8]) -> (r: Option<&str>)
    ensures
        match r {
            Some(text) => frame_text(frame@) == Some(text@),
            None => frame_text(frame@) is None,
        },
{
    let n = frame.len();
    if n == 0 || frame[n - 1] != RECORD_SEPARATOR {
        return None;
    }
    let body = slice_subrange(frame, 0, n - 1);
    assert(body@ =~= frame@.drop_last());
    match read_utf8(body) {
        Some(text) => {
            proof {
                encode_utf8_decode_utf8(text@);
            }
            Some(text)
        },
        None => None,
    }
}

/// The frame that carries `text`.
pub fn frame_of_text(text: &str) -> (frame: Vec<u8>)
    ensures
        frame@ == text_frame(text@),
{
    let bytes = text.as_bytes();
    let mut frame: Vec<u8> = Vec::new();
    let mut i: usize = 0;
    while i < bytes.len()
        invariant
            i <= bytes.len(),
            frame@ == bytes@.subrange(0, i as int),
        decreases bytes.len() - i,
    {
        frame.push(bytes[i]);
        assert(bytes@.subrange(0, i as int).push(bytes@[i as int]) =~= bytes@.subrange(0, i + 1));
        i = i + 1;
    }
    assert(bytes@.subrange(0, i as int) =~= bytes@);
    frame.push(RECORD_SEPARATOR);
    frame
}

} // verus!
