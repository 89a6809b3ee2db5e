//! Validation of the short texts that reach compositor chrome.

use vstd::prelude::*;
use vstd::utf8::encode_utf8;

verus! {

/// Unicode control characters (general category Cc): U+0000..U+001F and U+007F..U+009F.
pub open spec fn is_control(c: char) -> bool {
    (c as u32) <= 0x1f || (0x7f <= (c as u32) && (c as u32) <= 0x9f)
}

/// A non-empty text of at most `max_len` UTF-8 bytes without control characters.
pub open spec fn valid_text(text: Seq<char>, max_len: usize) -> bool {
    &&& text.len() > 0
    &&& encode_utf8(text).len() <= max_len
    &&& forall|i: int| 0 <= i < text.len() ==> !is_control(#[trigger] text[i])
}

/// Whether no character of `text` is a control character.
pub fn has_no_control(text: &str) -> (clean: bool)
    ensures
        clean == (forall|i: int| 0 <= i < text@.len() ==> !is_control(#[trigger] text@[i])),
{
    broadcast use vstd::string::axiom_spec_iter;

    for c in it: text.chars()
        invariant
            it.seq() == text@,
            forall|i: int| 0 <= i < it.index() ==> !is_control(#[trigger] text@[i]),
    {
        let code = c as u32;
        if code <= 0x1f || (0x7f <= code && code <= 0x9f) {
            return false;
        }
    }
    true
}

/// Non-empty, at most `max_len` bytes, and free of control characters.
pub fn valid_notification_chrome_text(text: &str, max_len: usize) -> (valid: bool)
    ensures
        valid == valid_text(text@, max_len),
{
    !text.is_empty() && text.as_bytes().len() <= max_len && has_no_control(text)
}

} // verus!
