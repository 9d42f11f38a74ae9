//! The text of a log line, cut to the width of the terminal.

use vstd::prelude::*;
use vstd::string::*;
use vstd::utf8::{encode_utf8, is_char_boundary};

verus! {

/// The last character boundary of `bytes` that is not after `max`.
pub open spec fn cut_point(bytes: Seq<u8>, max: int) -> int
    decreases max,
{
    if max <= 0 {
        0
    } else if is_char_boundary(bytes, max) {
        max
    } else {
        cut_point(bytes, max - 1)
    }
}

/// A text cut to at most `max_len` bytes, at a character boundary: the text
/// itself where it is short enough, else its longest prefix of whole
/// characters that fits.
pub open spec fn truncated(s: Seq<char>, max_len: int) -> Seq<u8> {
    if encode_utf8(s).len() <= max_len {
        encode_utf8(s)
    } else {
        encode_utf8(s).subrange(0, cut_point(encode_utf8(s), max_len))
    }
}

/// Cuts a text to at most `max_len` bytes without splitting a character.
pub fn truncate_str(s: &str, max_len: usize) -> (out: &str)
    ensures
        encode_utf8(out@) == truncated(s@, max_len as int),
        encode_utf8(out@).len() <= max_len,
{
    broadcast use vstd::utf8::encode_utf8_valid_utf8, vstd::utf8::is_char_boundary_start_end_of_seq;

    if s.as_bytes().len() <= max_len {
        return s;
    }
    let mut end: usize = max_len;
    while end > 0 && !s.is_char_boundary(end)
        invariant
            end <= max_len < encode_utf8(s@).len(),
            cut_point(encode_utf8(s@), max_len as int) == cut_point(encode_utf8(s@), end as int),
        decreases end,
    {
        end = end - 1;
    }
    assert(is_char_boundary(encode_utf8(s@), end as int));
    let (head, _) = s.split_at(end);
    assert(encode_utf8(head@) =~= encode_utf8(s@).subrange(0, end as int));
    head
}

/// Tells whether lines of a module overwrite each other: progress lines of
/// the content, assets and image passes do.
pub open spec fn is_inline_module(module: Seq<char>) -> bool {
    module == "content"@ || module == "assets"@ || module == "svg"@
}

/// Tells whether a log line ends in a line feed, not a carriage return.
pub fn uses_newline(module: &str, force_newline: bool) -> (b: bool)
    ensures
        b == (force_newline || !is_inline_module(module@)),
{
    force_newline || !(crate::text::same_text(module, "content") || crate::text::same_text(
        module,
        "assets",
    ) || crate::text::same_text(module, "svg"))
}

} // verus!
