//! URL slugs for path segments and fragment identifiers.
//!
//! Three policies exist: leave the text alone, make it safe by stripping the
//! characters that file systems and URLs forbid, or normalise it fully to the
//! lower-case ASCII form.

use vstd::prelude::*;
use crate::config::{SiteConfig, SlugMode};
use crate::text::{
    chars_of, join, join_chars, slice_chars, split, split_chars, string_of, views,
};

verus! {

/// Characters that never appear in a safe slug.
pub open spec fn is_forbidden(c: char) -> bool {
    c == '<' || c == '>' || c == ':' || c == '|' || c == '?' || c == '*' || c == '#' || c == '\\'
        || c == '(' || c == ')' || c == '[' || c == ']' || c == '\t' || c == '\r' || c == '\n'
}

/// Characters with the Unicode `White_Space` property.
pub open spec fn is_white_space(c: char) -> bool {
    let n = c as u32;
    (0x09 <= n <= 0x0D) || n == 0x20 || n == 0x85 || n == 0xA0 || n == 0x1680 || (0x2000 <= n
        <= 0x200A) || n == 0x2028 || n == 0x2029 || n == 0x202F || n == 0x205F || n == 0x3000
}

/// `s` without its leading white space.
pub open spec fn skip_leading_space(s: Seq<char>) -> Seq<char>
    decreases s.len(),
{
    if s.len() > 0 && is_white_space(s[0]) {
        skip_leading_space(s.drop_first())
    } else {
        s
    }
}

/// `s` without its trailing white space.
pub open spec fn skip_trailing_space(s: Seq<char>) -> Seq<char>
    decreases s.len(),
{
    if s.len() > 0 && is_white_space(s.last()) {
        skip_trailing_space(s.drop_last())
    } else {
        s
    }
}

/// `s` without white space at either end.
pub open spec fn trimmed(s: Seq<char>) -> Seq<char> {
    skip_trailing_space(skip_leading_space(s))
}

/// What a kept character becomes in a safe slug.
pub open spec fn safe_char(c: char) -> char {
    if is_white_space(c) {
        '_'
    } else {
        c
    }
}

/// The safe form of a text: trimmed, forbidden characters dropped, and each
/// remaining white-space character replaced by an underscore.
pub open spec fn sanitized(s: Seq<char>) -> Seq<char> {
    trimmed(s).filter(|c: char| !is_forbidden(c)).map_values(|c: char| safe_char(c))
}

/// A safe slug holds no forbidden character and no white space.
pub proof fn lemma_sanitized_is_clean(s: Seq<char>)
    ensures
        forall|i: int|
            0 <= i < sanitized(s).len() ==> !is_forbidden(#[trigger] sanitized(s)[i])
                && !is_white_space(sanitized(s)[i]),
{
    let keep = |c: char| !is_forbidden(c);
    let kept = trimmed(s).filter(keep);
    assert forall|i: int| 0 <= i < sanitized(s).len() implies !is_forbidden(
        #[trigger] sanitized(s)[i],
    ) && !is_white_space(sanitized(s)[i]) by {
        trimmed(s).lemma_filter_pred(keep, i);
        assert(keep(kept[i]));
        assert(sanitized(s)[i] == safe_char(kept[i]));
    }
}

/// The fully normalised form of a text, as the `slug` crate computes it.
pub uninterp spec fn slugified(s: Seq<char>) -> Seq<char>;

/// The slug of `s` under a policy.
pub open spec fn slug_under(mode: SlugMode, s: Seq<char>) -> Seq<char> {
    match mode {
        SlugMode::Safe => sanitized(s),
        SlugMode::On => slugified(s),
        SlugMode::No => s,
    }
}

/// Tells whether `c` is forbidden in a safe slug.
pub fn forbidden(c: char) -> (b: bool)
    ensures
        b == is_forbidden(c),
{
    c == '<' || c == '>' || c == ':' || c == '|' || c == '?' || c == '*' || c == '#' || c == '\\'
        || c == '(' || c == ')' || c == '[' || c == ']' || c == '\t' || c == '\r' || c == '\n'
}

/// Tells whether `c` is a white-space character.
pub fn white_space(c: char) -> (b: bool)
    ensures
        b == is_white_space(c),
{
    let n: u32 = c as u32;
    (0x09 <= n && n <= 0x0D) || n == 0x20 || n == 0x85 || n == 0xA0 || n == 0x1680 || (0x2000 <= n
        && n <= 0x200A) || n == 0x2028 || n == 0x2029 || n == 0x202F || n == 0x205F || n == 0x3000
}

/// The characters of `v` without white space at either end.
pub fn trim_chars(v: &Vec<char>) -> (out: Vec<char>)
    ensures
        out@ == trimmed(v@),
{
    let mut start: usize = 0;
    assert(v@.subrange(0, v.len() as int) =~= v@);
    while start < v.len() && white_space(v[start])
        invariant
            start <= v.len(),
            skip_leading_space(v@) == skip_leading_space(v@.subrange(start as int, v.len() as int)),
        decreases v.len() - start,
    {
        assert(v@.subrange(start as int, v.len() as int).drop_first() =~= v@.subrange(
            start + 1,
            v.len() as int,
        ));
        start = start + 1;
    }
    let mut end: usize = v.len();
    while end > start && white_space(v[end - 1])
        invariant
            start <= end <= v.len(),
            skip_leading_space(v@) == v@.subrange(start as int, v.len() as int),
            skip_trailing_space(v@.subrange(start as int, v.len() as int)) == skip_trailing_space(
                v@.subrange(start as int, end as int),
            ),
        decreases end - start,
    {
        assert(v@.subrange(start as int, end as int).drop_last() =~= v@.subrange(
            start as int,
            end - 1,
        ));
        end = end - 1;
    }
    slice_chars(v, start, end)
}

/// The safe form of a character sequence.
pub fn sanitize_chars(v: &Vec<char>) -> (out: Vec<char>)
    ensures
        out@ == sanitized(v@),
{
    let body = trim_chars(v);
    let ghost keep = |c: char| !is_forbidden(c);
    let ghost turn = |c: char| safe_char(c);
    let mut out: Vec<char> = Vec::new();
    let mut i: usize = 0;
    proof {
        reveal(Seq::filter);
        assert(body@.subrange(0, 0).filter(keep) =~= Seq::<char>::empty());
    }
    while i < body.len()
        invariant
            i <= body.len(),
            keep == (|c: char| !is_forbidden(c)),
            turn == (|c: char| safe_char(c)),
            out@ == body@.subrange(0, i as int).filter(keep).map_values(turn),
        decreases body.len() - i,
    {
        let c = body[i];
        proof {
            let before = body@.subrange(0, i as int);
            assert(body@.subrange(0, i + 1) =~= before.push(c));
            before.lemma_filter_push(c, keep);
        }
        if !forbidden(c) {
            if white_space(c) {
                out.push('_');
            } else {
                out.push(c);
            }
            assert(out@ =~= body@.subrange(0, i + 1).filter(keep).map_values(turn));
        }
        i = i + 1;
    }
    assert(body@.subrange(0, body.len() as int) =~= body@);
    out
}

/// Removes forbidden characters from a text and replaces white space by
/// underscores, after trimming it.
pub fn sanitize_text(text: &str) -> (out: String)
    ensures
        out@ == sanitized(text@),
{
    let v = chars_of(text);
    let cleaned = sanitize_chars(&v);
    string_of(&cleaned)
}

/// The sanitized, non-empty components among the first `n` pieces of a path.
///
/// Empty pieces vanish, and so does a piece `.` anywhere but in front; a
/// component that sanitizes to nothing vanishes too.
pub open spec fn clean_components(parts: Seq<Seq<char>>, n: int) -> Seq<Seq<char>>
    decreases n,
{
    if n <= 0 {
        Seq::<Seq<char>>::empty()
    } else {
        let rest = clean_components(parts, n - 1);
        let piece = parts[n - 1];
        if piece.len() == 0 || (n > 1 && piece == seq!['.']) || sanitized(piece).len() == 0 {
            rest
        } else {
            rest.push(sanitized(piece))
        }
    }
}

/// The safe form of a `/`-separated path: each component sanitized, a leading
/// `/` kept, no empty component and no trailing `/`.
pub open spec fn sanitized_path(p: Seq<char>) -> Seq<char> {
    let parts = split(p, '/');
    let body = join(clean_components(parts, parts.len() as int), '/');
    if p.len() > 0 && p[0] == '/' {
        seq!['/'] + body
    } else {
        body
    }
}

/// The slug of a path under a policy.
pub open spec fn path_slug_under(mode: SlugMode, p: Seq<char>) -> Seq<char> {
    match mode {
        SlugMode::Safe => sanitized_path(p),
        SlugMode::On => slugified(p),
        SlugMode::No => p,
    }
}

/// The safe form of a path given as characters.
pub fn sanitize_path_chars(v: &Vec<char>) -> (out: Vec<char>)
    ensures
        out@ == sanitized_path(v@),
{
    let parts = split_chars(v, '/');
    let ghost all = views(parts@);
    let mut kept: Vec<Vec<char>> = Vec::new();
    let mut i: usize = 0;
    while i < parts.len()
        invariant
            i <= parts.len(),
            all == views(parts@),
            views(kept@) == clean_components(all, i as int),
        decreases parts.len() - i,
    {
        let piece = &parts[i];
        let ghost before = views(kept@);
        assert(all[i as int] == piece@);
        let is_dot = piece.len() == 1 && piece[0] == '.';
        assert(is_dot == (piece@ == seq!['.'])) by {
            if is_dot {
                assert(piece@ =~= seq!['.']);
            } else if piece@ == seq!['.'] {
                assert(seq!['.'].len() == 1);
                assert(seq!['.'][0] == '.');
            }
        }
        if piece.len() > 0 && !(i > 0 && is_dot) {
            let cleaned = sanitize_chars(piece);
            if cleaned.len() > 0 {
                kept.push(cleaned);
                assert(views(kept@) =~= before.push(sanitized(piece@)));
            }
        }
        i = i + 1;
    }
    let body = join_chars(&kept, '/');
    if v.len() > 0 && v[0] == '/' {
        let mut out: Vec<char> = Vec::new();
        out.push('/');
        crate::text::append_chars(&mut out, &body);
        assert(out@ =~= seq!['/'] + body@);
        out
    } else {
        body
    }
}

/// Sanitizes each component of a `/`-separated path.
pub fn sanitize_path(path: &str) -> (out: String)
    ensures
        out@ == sanitized_path(path@),
{
    let v = chars_of(path);
    let cleaned = sanitize_path_chars(&v);
    string_of(&cleaned)
}

/// Normalises a text to lower-case ASCII words joined by hyphens.
///
/// Trusted: the result of `slug::slugify` depends on its argument alone; it
/// is given the name [`slugified`].
#[verifier::external_body]
pub(crate) fn slugify_full(text: &str) -> (out: String)
    ensures
        out@ == slugified(text@),
{
    slug::slugify(text)
}

/// Converts the text of a fragment identifier to its slug under the
/// configured policy for fragments.
pub fn slugify_fragment(text: &str, config: &SiteConfig) -> (out: String)
    ensures
        out@ == slug_under(config.build.slug.fragment, text@),
{
    slug_text(text, config.build.slug.fragment)
}

/// Converts a path to its slug under the configured policy for paths.
pub fn slugify_path(path: &str, config: &SiteConfig) -> (out: String)
    ensures
        out@ == path_slug_under(config.build.slug.path, path@),
{
    slug_path(path, config.build.slug.path)
}

/// Converts a text to its slug under `mode`.
pub fn slug_text(text: &str, mode: SlugMode) -> (out: String)
    ensures
        out@ == slug_under(mode, text@),
{
    match mode {
        SlugMode::Safe => sanitize_text(text),
        SlugMode::On => slugify_full(text),
        SlugMode::No => text.to_owned(),
    }
}

/// Converts a path to its slug under `mode`.
pub fn slug_path(path: &str, mode: SlugMode) -> (out: String)
    ensures
        out@ == path_slug_under(mode, path@),
{
    match mode {
        SlugMode::Safe => sanitize_path(path),
        SlugMode::On => slugify_full(path),
        SlugMode::No => path.to_owned(),
    }
}

} // verus!
