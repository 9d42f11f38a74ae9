//! What a command printed, and which of it is shown.
//!
//! Known, harmless warnings of the markup compiler are taken out before its
//! diagnostics are surfaced.

use vstd::prelude::*;
use crate::publish::without_carriage_return;
use crate::slug::{trim_chars, trimmed};
use crate::text::{arg_views, chars_of, has_prefix, slice_chars, split, split_chars, string_of, views};
use vstd::string::*;

verus! {

/// `s` without every leading copy of `prefix`.
pub open spec fn without_leading(s: Seq<char>, prefix: Seq<char>) -> Seq<char>
    decreases s.len(),
{
    if prefix.len() > 0 && prefix.is_prefix_of(s) {
        without_leading(s.subrange(prefix.len() as int, s.len() as int), prefix)
    } else {
        s
    }
}

/// Tells whether `needle` occurs in `s`.
pub open spec fn occurs_in(needle: Seq<char>, s: Seq<char>) -> bool {
    exists|i: int|
        0 <= i <= s.len() - needle.len() && #[trigger] s.subrange(i, i + needle.len()) == needle
}

/// The characters of `v` without every leading copy of `prefix`.
pub fn strip_leading(v: &Vec<char>, prefix: &Vec<char>) -> (out: Vec<char>)
    ensures
        out@ == without_leading(v@, prefix@),
{
    let mut start: usize = 0;
    assert(v@.subrange(0, v.len() as int) =~= v@);
    if prefix.len() == 0 {
        return slice_chars(v, 0, v.len());
    }
    loop
        invariant
            start <= v.len(),
            prefix.len() > 0,
            without_leading(v@, prefix@) == without_leading(
                v@.subrange(start as int, v.len() as int),
                prefix@,
            ),
        decreases v.len() - start,
    {
        let rest = slice_chars(v, start, v.len());
        if !has_prefix(&rest, prefix) {
            return rest;
        }
        assert(rest@.subrange(prefix.len() as int, rest.len() as int) =~= v@.subrange(
            start + prefix.len(),
            v.len() as int,
        ));
        start = start + prefix.len();
    }
}

/// Tells whether `needle` occurs in `v`.
pub fn contains_chars(v: &Vec<char>, needle: &Vec<char>) -> (b: bool)
    ensures
        b == occurs_in(needle@, v@),
{
    if needle.len() > v.len() {
        return false;
    }
    let last: usize = v.len() - needle.len();
    let mut i: usize = 0;
    loop
        invariant
            i <= last,
            last == v.len() - needle.len(),
            forall|k: int| 0 <= k < i ==> #[trigger] v@.subrange(k, k + needle.len()) != needle@,
        decreases last - i,
    {
        let window = slice_chars(v, i, i + needle.len());
        if crate::text::same_chars(&window, needle) {
            return true;
        }
        if i == last {
            return false;
        }
        i = i + 1;
    }
}

/// The warning that the markup compiler prints on every HTML export.
pub open spec fn export_warning() -> Seq<char> {
    "warning: html export is under active development and incomplete\n = hint: its behaviour may change at any time\n = hint: do not rely on this feature for production use cases\n = hint: see https://github.com/typst/typst/issues/5512 for more information\n"@
}

/// The diagnostics of a failed compilation as they are surfaced: trimmed,
/// and without the export warning in front.
pub open spec fn surfaced_diagnostics(stderr: Seq<char>) -> Seq<char> {
    without_leading(trimmed(stderr), export_warning())
}

/// Filters the diagnostics of a failed compilation.
pub fn filter_diagnostics(stderr: &str) -> (out: String)
    ensures
        out@ == surfaced_diagnostics(stderr@),
{
    let warning = chars_of(
        "warning: html export is under active development and incomplete\n = hint: its behaviour may change at any time\n = hint: do not rely on this feature for production use cases\n = hint: see https://github.com/typst/typst/issues/5512 for more information\n",
    );
    let body = trim_chars(&chars_of(stderr));
    string_of(&strip_leading(&body, &warning))
}

/// Tells whether a warning of the compiler is one of the known, harmless
/// ones.
pub open spec fn is_suppressed(message: Seq<char>) -> bool {
    occurs_in("html export is under active development"@, message)
}

/// The warnings that are shown among the first `n`: those that are not
/// suppressed, in order.
pub open spec fn shown_warnings(messages: Seq<Seq<char>>, n: int) -> Seq<Seq<char>>
    decreases n,
{
    if n <= 0 {
        Seq::<Seq<char>>::empty()
    } else if is_suppressed(messages[n - 1]) {
        shown_warnings(messages, n - 1)
    } else {
        shown_warnings(messages, n - 1).push(messages[n - 1])
    }
}

/// Picks the warnings of a compilation that are shown to the user.
pub fn log_warnings(warnings: &Vec<String>) -> (shown: Vec<String>)
    ensures
        arg_views(shown@) == shown_warnings(arg_views(warnings@), warnings.len() as int),
{
    let marker = chars_of("html export is under active development");
    let ghost all = arg_views(warnings@);
    let mut shown: Vec<String> = Vec::new();
    let mut i: usize = 0;
    assert(arg_views(shown@) =~= shown_warnings(all, 0));
    while i < warnings.len()
        invariant
            i <= warnings.len(),
            all == arg_views(warnings@),
            marker@ == "html export is under active development"@,
            arg_views(shown@) == shown_warnings(all, i as int),
        decreases warnings.len() - i,
    {
        let ghost before = arg_views(shown@);
        assert(all[i as int] == warnings@[i as int]@);
        if !contains_chars(&chars_of(warnings[i].as_str()), &marker) {
            let message = warnings[i].clone();
            shown.push(message);
            assert(arg_views(shown@) =~= before.push(all[i as int]));
        }
        i = i + 1;
    }
    shown
}

/// What is told where a required command is missing.
pub fn not_found_message(command: &str) -> (message: String)
    ensures
        message@ == "[checker] `"@ + command@ + "` not found. Please install `"@ + command@
            + "` first."@,
{
    let mut message = "[checker] `".to_owned();
    message.append(command);
    message.append("` not found. Please install `");
    message.append(command);
    message.append("` first.");
    message
}

/// Tells whether a text starts with one of the prefixes.
pub open spec fn starts_with_any(text: Seq<char>, prefixes: Seq<Seq<char>>) -> bool {
    exists|i: int| 0 <= i < prefixes.len() && (#[trigger] prefixes[i]).is_prefix_of(text)
}

/// The lines among the first `n` that are logged: each without a trailing
/// carriage return, where it holds more than white space.
pub open spec fn filled_lines(lines: Seq<Seq<char>>, n: int) -> Seq<Seq<char>>
    decreases n,
{
    if n <= 0 {
        Seq::<Seq<char>>::empty()
    } else if trimmed(without_carriage_return(lines[n - 1])).len() > 0 {
        filled_lines(lines, n - 1).push(without_carriage_return(lines[n - 1]))
    } else {
        filled_lines(lines, n - 1)
    }
}

/// The lines of a stream that are logged: none where the trimmed stream
/// starts with a prefix that is passed over; else its lines that hold more
/// than white space.
pub open spec fn logged_lines(stream: Seq<char>, ignored: Seq<Seq<char>>) -> Seq<Seq<char>> {
    if starts_with_any(trimmed(stream), ignored) {
        Seq::<Seq<char>>::empty()
    } else {
        filled_lines(split(trimmed(stream), '\n'), split(trimmed(stream), '\n').len() as int)
    }
}

/// Picks the lines of what a command printed that are logged.
pub fn lines_to_log(stream: &str, ignored: &Vec<String>) -> (shown: Vec<String>)
    ensures
        arg_views(shown@) == logged_lines(stream@, arg_views(ignored@)),
{
    let text = trim_chars(&chars_of(stream));
    let ghost prefixes = arg_views(ignored@);
    let mut shown: Vec<String> = Vec::new();
    let mut k: usize = 0;
    while k < ignored.len()
        invariant
            k <= ignored.len(),
            prefixes == arg_views(ignored@),
            text@ == trimmed(stream@),
            shown@.len() == 0,
            forall|i: int| 0 <= i < k ==> !(#[trigger] prefixes[i]).is_prefix_of(text@),
        decreases ignored.len() - k,
    {
        assert(prefixes[k as int] == ignored@[k as int]@);
        if has_prefix(&text, &chars_of(ignored[k].as_str())) {
            assert(prefixes[k as int].is_prefix_of(text@));
            assert(arg_views(shown@) =~= Seq::<Seq<char>>::empty());
            return shown;
        }
        k = k + 1;
    }
    let lines = split_chars(&text, '\n');
    let ghost all = views(lines@);
    let mut i: usize = 0;
    assert(arg_views(shown@) =~= filled_lines(all, 0));
    while i < lines.len()
        invariant
            i <= lines.len(),
            all == views(lines@),
            arg_views(shown@) == filled_lines(all, i as int),
        decreases lines.len() - i,
    {
        let raw = &lines[i];
        assert(all[i as int] == raw@);
        let line = if raw.len() > 0 && raw[raw.len() - 1] == '\r' {
            slice_chars(raw, 0, raw.len() - 1)
        } else {
            slice_chars(raw, 0, raw.len())
        };
        assert(line@ =~= without_carriage_return(raw@));
        if trim_chars(&line).len() > 0 {
            let ghost before = arg_views(shown@);
            let text_line = string_of(&line);
            shown.push(text_line);
            assert(arg_views(shown@) =~= before.push(line@));
        }
        i = i + 1;
    }
    shown
}

} // verus!
