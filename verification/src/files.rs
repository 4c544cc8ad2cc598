//! Files as they are served.

use crate::outside::{guess_media_type, media_type_of};
use vstd::prelude::*;
use vstd::string::*;

verus! {

/// Whether a character may stand in the value of a header: a tab, or any
/// character that is neither a control character nor the delete character.
pub open spec fn header_char(c: char) -> bool {
    c == '\t' || (c >= ' ' && c != '\u{7f}')
}

/// Whether a text may stand as the value of a header.
pub open spec fn header_safe(text: Seq<char>) -> bool {
    forall|i: int| 0 <= i < text.len() ==> header_char(#[trigger] text[i])
}

/// The media type under which a file is served: the one guessed from its
/// name, or `application/octet-stream` where the guess cannot stand as the
/// value of a header.
pub open spec fn content_type_of(path: Seq<char>) -> Seq<char> {
    if header_safe(media_type_of(path)) {
        media_type_of(path)
    } else {
        "application/octet-stream"@
    }
}

/// Whether a text may stand as the value of a header.
pub fn is_header_safe(text: &str) -> (r: bool)
    ensures
        r == header_safe(text@),
{
    let n: usize = text.unicode_len();
    let mut i: usize = 0;
    while i < n
        invariant
            i <= n,
            n == text@.len(),
            forall|j: int| 0 <= j < i ==> header_char(#[trigger] text@[j]),
        decreases n - i,
    {
        let c: char = text.get_char(i);
        if !(c == '\t' || (c >= ' ' && c != '\u{7f}')) {
            return false;
        }
        i += 1;
    }
    true
}

/// The media type under which the file at `path` is served.
pub fn content_type(path: &str) -> (r: String)
    ensures
        r@ == content_type_of(path@),
{
    let guess: String = guess_media_type(path);
    if is_header_safe(guess.as_str()) {
        guess
    } else {
        "application/octet-stream".to_string()
    }
}

} // verus!
