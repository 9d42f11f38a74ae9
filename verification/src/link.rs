//! Resolution of `href` and `src` values.
//!
//! Every page is written as `<slug>/index.html` below the base path, so a link
//! found in a page is classified by its shape and rewritten to point at the
//! place its target is published at.

use vstd::prelude::*;
use crate::config::SlugMode;
use crate::slug::{path_slug_under, sanitize_chars, sanitize_path_chars, slug_under, slugify_full};
use crate::text::{
    append_chars, chars_of, drop_empty, find_char, join, join_chars, nonempty_pieces, position,
    same_chars, slice_chars, split, split_chars, string_of,
};

verus! {

/// What the rewriting of a link depends on besides the link itself.
#[derive(Debug, Clone)]
pub struct LinkContext {
    /// URL prefix under which the site is served.
    pub base_path: String,
    /// Policy for the path part of a link.
    pub path_mode: SlugMode,
    /// Policy for the fragment part of a link.
    pub fragment_mode: SlugMode,
    /// Names of the entries directly below the assets root.
    pub asset_names: Vec<String>,
}

/// The names in `names`, as character sequences.
pub open spec fn name_views(names: Seq<String>) -> Seq<Seq<char>> {
    names.map_values(|n: String| n@)
}

/// The shapes a link value can have.
#[derive(Debug, Clone, Copy, PartialEq, Eq, Structural)]
pub enum LinkKind {
    /// The empty value.
    Empty,
    /// Rooted at the site, first segment names a top-level asset.
    Asset,
    /// Rooted at the site, pointing at a page.
    Page,
    /// A fragment of the current page.
    Fragment,
    /// Carries a scheme: points outside the site.
    External,
    /// Relative to the current page.
    Relative,
}

/// Characters a URL scheme is made of.
pub open spec fn is_scheme_char(c: char) -> bool {
    ('a' <= c <= 'z') || ('A' <= c <= 'Z') || ('0' <= c <= '9') || c == '+' || c == '-' || c
        == '.'
}

/// A value is external when it holds a colon and only scheme characters
/// stand before the first one.
pub open spec fn is_external(s: Seq<char>) -> bool {
    let colon = position(s, ':');
    colon < s.len() && forall|j: int| 0 <= j < colon ==> is_scheme_char(#[trigger] s[j])
}

/// The first segment of a rooted value: what stands between the leading `/`
/// and the next one.
pub open spec fn first_segment(s: Seq<char>) -> Seq<char> {
    let rest = s.drop_first();
    rest.subrange(0, position(rest, '/'))
}

/// The shape of a link value, given the top-level asset names.
pub open spec fn kind_of(s: Seq<char>, assets: Seq<Seq<char>>) -> LinkKind {
    if s.len() == 0 {
        LinkKind::Empty
    } else if s[0] == '/' {
        if assets.contains(first_segment(s)) {
            LinkKind::Asset
        } else {
            LinkKind::Page
        }
    } else if s[0] == '#' {
        LinkKind::Fragment
    } else if is_external(s) {
        LinkKind::External
    } else {
        LinkKind::Relative
    }
}

/// The base path as a URL prefix: empty for the root of the host, else `/`
/// and the segments of the base path joined by `/`.
pub open spec fn base_prefix(base: Seq<char>) -> Seq<char> {
    let segments = nonempty_pieces(split(base, '/'));
    if segments.len() == 0 {
        Seq::<char>::empty()
    } else {
        seq!['/'] + join(segments, '/')
    }
}

/// `p` with a leading `/`, added where it has none.
pub open spec fn rooted(p: Seq<char>) -> Seq<char> {
    if p.len() > 0 && p[0] == '/' {
        p
    } else {
        seq!['/'] + p
    }
}

/// The part of a value before its first `#`.
pub open spec fn path_part(s: Seq<char>) -> Seq<char> {
    s.subrange(0, position(s, '#'))
}

/// The part of a value after its first `#`; empty where there is none.
pub open spec fn fragment_part(s: Seq<char>) -> Seq<char> {
    let cut = position(s, '#');
    if cut < s.len() {
        s.subrange(cut + 1, s.len() as int)
    } else {
        Seq::<char>::empty()
    }
}

/// `#` and the slug of a fragment; nothing for the empty fragment.
pub open spec fn fragment_suffix(mode: SlugMode, fragment: Seq<char>) -> Seq<char> {
    if fragment.len() == 0 {
        Seq::<char>::empty()
    } else {
        seq!['#'] + slug_under(mode, fragment)
    }
}

/// A relative value without a leading `./`.
pub open spec fn without_dot_slash(s: Seq<char>) -> Seq<char> {
    if s.len() >= 2 && s[0] == '.' && s[1] == '/' {
        s.subrange(2, s.len() as int)
    } else {
        s
    }
}

/// Where a page link points after rewriting: the base prefix, the slug of
/// the path, and the slug of the fragment.
pub open spec fn page_target(
    s: Seq<char>,
    base: Seq<char>,
    path_mode: SlugMode,
    fragment_mode: SlugMode,
) -> Seq<char> {
    base_prefix(base) + rooted(path_slug_under(path_mode, path_part(s))) + fragment_suffix(
        fragment_mode,
        fragment_part(s),
    )
}

/// The rewritten form of a link value.
pub open spec fn resolved(
    s: Seq<char>,
    base: Seq<char>,
    path_mode: SlugMode,
    fragment_mode: SlugMode,
    assets: Seq<Seq<char>>,
) -> Seq<char> {
    match kind_of(s, assets) {
        LinkKind::Empty => s,
        LinkKind::Asset => base_prefix(base) + s,
        LinkKind::Page => page_target(s, base, path_mode, fragment_mode),
        LinkKind::Fragment => seq!['#'] + slug_under(fragment_mode, s.drop_first()),
        LinkKind::External => s,
        LinkKind::Relative => seq!['.', '.', '/'] + without_dot_slash(s),
    }
}

/// Tells whether `c` may stand in a URL scheme.
fn scheme_char(c: char) -> (b: bool)
    ensures
        b == is_scheme_char(c),
{
    ('a' <= c && c <= 'z') || ('A' <= c && c <= 'Z') || ('0' <= c && c <= '9') || c == '+' || c
        == '-' || c == '.'
}

/// Tells whether the characters form an external link.
pub fn is_external_chars(v: &Vec<char>) -> (b: bool)
    ensures
        b == is_external(v@),
{
    let colon = find_char(v, ':');
    if colon >= v.len() {
        return false;
    }
    let mut j: usize = 0;
    while j < colon
        invariant
            j <= colon < v.len(),
            colon == position(v@, ':'),
            forall|k: int| 0 <= k < j ==> is_scheme_char(#[trigger] v@[k]),
        decreases colon - j,
    {
        if !scheme_char(v[j]) {
            assert(!is_scheme_char(v@[j as int]));
            return false;
        }
        j = j + 1;
    }
    true
}

/// Tells whether a link carries a scheme and so points outside the site.
pub fn is_external_link(link: &str) -> (b: bool)
    ensures
        b == is_external(link@),
{
    let v = chars_of(link);
    is_external_chars(&v)
}

/// Tells whether the first segment of a rooted value is one of the names.
fn names_first_segment(v: &Vec<char>, names: &Vec<String>) -> (b: bool)
    requires
        v.len() > 0,
    ensures
        b == name_views(names@).contains(first_segment(v@)),
{
    let rest = slice_chars(v, 1, v.len());
    assert(rest@ =~= v@.drop_first());
    let end = find_char(&rest, '/');
    let segment = slice_chars(&rest, 0, end);
    assert(segment@ == first_segment(v@));
    let ghost all = name_views(names@);
    let mut i: usize = 0;
    while i < names.len()
        invariant
            i <= names.len(),
            all == name_views(names@),
            segment@ == first_segment(v@),
            forall|j: int| 0 <= j < i ==> all[j] != segment@,
        decreases names.len() - i,
    {
        let name = chars_of(names[i].as_str());
        if same_chars(&name, &segment) {
            assert(all[i as int] == segment@);
            assert(all.contains(segment@));
            return true;
        }
        i = i + 1;
    }
    false
}

/// Tells whether a rooted link points below a top-level asset.
pub fn is_asset_link(link: &str, asset_names: &Vec<String>) -> (b: bool)
    ensures
        b == (kind_of(link@, name_views(asset_names@)) == LinkKind::Asset),
{
    let v = chars_of(link);
    if v.len() == 0 || v[0] != '/' {
        return false;
    }
    names_first_segment(&v, asset_names)
}

/// The shape of a link value.
pub fn classify(v: &Vec<char>, asset_names: &Vec<String>) -> (kind: LinkKind)
    ensures
        kind == kind_of(v@, name_views(asset_names@)),
{
    if v.len() == 0 {
        LinkKind::Empty
    } else if v[0] == '/' {
        if names_first_segment(v, asset_names) {
            LinkKind::Asset
        } else {
            LinkKind::Page
        }
    } else if v[0] == '#' {
        LinkKind::Fragment
    } else if is_external_chars(v) {
        LinkKind::External
    } else {
        LinkKind::Relative
    }
}

/// The URL prefix of a base path.
pub fn base_prefix_chars(base: &Vec<char>) -> (out: Vec<char>)
    ensures
        out@ == base_prefix(base@),
{
    let segments = drop_empty(split_chars(base, '/'));
    let mut out: Vec<char> = Vec::new();
    if segments.len() > 0 {
        out.push('/');
        let joined = join_chars(&segments, '/');
        append_chars(&mut out, &joined);
        assert(out@ =~= seq!['/'] + joined@);
    }
    out
}

/// The slug of a text given as characters.
pub fn slug_chars(mode: SlugMode, v: &Vec<char>) -> (out: Vec<char>)
    ensures
        out@ == slug_under(mode, v@),
{
    match mode {
        SlugMode::Safe => sanitize_chars(v),
        SlugMode::On => {
            let text = string_of(v);
            chars_of(slugify_full(text.as_str()).as_str())
        },
        SlugMode::No => slice_chars(v, 0, v.len()),
    }
}

/// The slug of a path given as characters.
pub fn path_slug_chars(mode: SlugMode, v: &Vec<char>) -> (out: Vec<char>)
    ensures
        out@ == path_slug_under(mode, v@),
{
    match mode {
        SlugMode::Safe => sanitize_path_chars(v),
        SlugMode::On => {
            let text = string_of(v);
            chars_of(slugify_full(text.as_str()).as_str())
        },
        SlugMode::No => slice_chars(v, 0, v.len()),
    }
}

/// Rewrites a page link: slug of the path, slug of the fragment, base prefix
/// in front.
fn page_target_chars(v: &Vec<char>, base: &Vec<char>, path_mode: SlugMode, fragment_mode: SlugMode) -> (out:
    Vec<char>)
    ensures
        out@ == page_target(v@, base@, path_mode, fragment_mode),
{
    let cut = find_char(v, '#');
    let path = slice_chars(v, 0, cut);
    let slug = path_slug_chars(path_mode, &path);
    let mut out = base_prefix_chars(base);
    if !(slug.len() > 0 && slug[0] == '/') {
        out.push('/');
    }
    append_chars(&mut out, &slug);
    assert(out@ =~= base_prefix(base@) + rooted(slug@));
    if cut < v.len() {
        let fragment = slice_chars(v, cut + 1, v.len());
        if fragment.len() > 0 {
            let fragment_slug = slug_chars(fragment_mode, &fragment);
            out.push('#');
            append_chars(&mut out, &fragment_slug);
            assert(out@ =~= base_prefix(base@) + rooted(slug@) + (seq!['#'] + fragment_slug@));
        }
    }
    out
}

/// Rewrites a link value given as characters.
pub fn resolve_chars(v: &Vec<char>, ctx: &LinkContext) -> (out: Vec<char>)
    ensures
        out@ == resolved(
            v@,
            ctx.base_path@,
            ctx.path_mode,
            ctx.fragment_mode,
            name_views(ctx.asset_names@),
        ),
{
    let base = chars_of(ctx.base_path.as_str());
    match classify(v, &ctx.asset_names) {
        LinkKind::Empty => Vec::new(),
        LinkKind::Asset => {
            let mut out = base_prefix_chars(&base);
            append_chars(&mut out, v);
            out
        },
        LinkKind::Page => page_target_chars(v, &base, ctx.path_mode, ctx.fragment_mode),
        LinkKind::Fragment => {
            let fragment = slice_chars(v, 1, v.len());
            assert(fragment@ =~= v@.drop_first());
            let slug = slug_chars(ctx.fragment_mode, &fragment);
            let mut out: Vec<char> = Vec::new();
            out.push('#');
            append_chars(&mut out, &slug);
            assert(out@ =~= seq!['#'] + slug@);
            out
        },
        LinkKind::External => slice_chars(v, 0, v.len()),
        LinkKind::Relative => {
            let mut out: Vec<char> = Vec::new();
            out.push('.');
            out.push('.');
            out.push('/');
            let rest = if v.len() >= 2 && v[0] == '.' && v[1] == '/' {
                slice_chars(v, 2, v.len())
            } else {
                slice_chars(v, 0, v.len())
            };
            append_chars(&mut out, &rest);
            assert(out@ =~= seq!['.', '.', '/'] + without_dot_slash(v@));
            out
        },
    }
}

/// Rewrites the value of an `href` or `src` attribute.
pub fn resolve_link(value: &str, ctx: &LinkContext) -> (out: String)
    ensures
        out@ == resolved(
            value@,
            ctx.base_path@,
            ctx.path_mode,
            ctx.fragment_mode,
            name_views(ctx.asset_names@),
        ),
{
    let v = chars_of(value);
    let out = resolve_chars(&v, ctx);
    string_of(&out)
}

} // verus!
