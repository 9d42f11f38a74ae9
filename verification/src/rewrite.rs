//! The rewriting of a compiled page: one forward pass over its events.
//!
//! The pass injects the language and the head metadata, turns heading ids
//! and links into their published form, and lifts vector images out of the
//! page so that each can be stored in the encoding that suits it.

use vstd::prelude::*;

use crate::link::{name_views, resolve_link, resolved, LinkContext};
use crate::markup::{
    attr_views, escape_attribute_value, escape_text, escaped_attribute, escaped_text,
    event_views, is_terminal, next_event, open_reader, parsed_events, pending, render_start,
    start_markup, well_terminated, Attr, EventModel, HtmlEvent,
};
use crate::slug::{slug_text, slug_under};
use crate::text::same_text;
use vstd::string::*;

verus! {

/// What the rewriting of a page depends on besides the page itself.
#[derive(Debug, Clone)]
pub struct RewriteContext {
    /// Language tag put on the root element.
    pub language: String,
    /// Title of the site; empty for none.
    pub title: String,
    /// Description of the site; empty for none.
    pub description: String,
    /// Published location of the stylesheet, where one is configured.
    pub stylesheet: Option<String>,
    /// Whether vector images are lifted out of the page.
    pub extract_images: bool,
    /// What link resolution depends on.
    pub links: LinkContext,
}

/// A vector image lifted out of a page.
#[derive(Debug, Clone, PartialEq, Eq)]
pub struct RawSvg {
    /// Attributes of its start tag.
    pub attrs: Vec<Attr>,
    /// Everything after the start tag, through the end tag.
    pub inner: String,
}

/// One piece of a rewritten page.
#[derive(Debug, Clone, PartialEq, Eq)]
pub enum Piece {
    /// Markup to be written as it is.
    Markup(String),
    /// The place of a vector image.
    Image(RawSvg),
}

/// The mathematical value of a piece.
pub enum PieceModel {
    /// Markup to be written as it is.
    Markup(Seq<char>),
    /// The place of a vector image.
    Image { attrs: Seq<(Seq<char>, Seq<char>)>, inner: Seq<char> },
}

impl View for Piece {
    type V = PieceModel;

    open spec fn view(&self) -> PieceModel {
        match self {
            Piece::Markup(text) => PieceModel::Markup(text@),
            Piece::Image(svg) => PieceModel::Image { attrs: attr_views(svg.attrs@), inner: svg.inner@ },
        }
    }
}

/// The pieces in `pieces`, as mathematical values.
pub open spec fn piece_views(pieces: Seq<Piece>) -> Seq<PieceModel> {
    pieces.map_values(|p: Piece| p@)
}

/// Why a page could not be rewritten.
#[derive(Debug, Clone, Copy, PartialEq, Eq, Structural)]
pub enum RewriteError {
    /// The page could not be parsed to its end.
    Malformed,
    /// A vector image was still open at the end of the page.
    UnclosedSvg,
}

/// The state of the pass.
pub struct RewriteModel {
    /// The pieces written so far.
    pub pieces: Seq<PieceModel>,
    /// The vector image being collected: the attributes of its start tag and
    /// what followed it so far.
    pub open_svg: Option<(Seq<(Seq<char>, Seq<char>)>, Seq<char>)>,
    /// Whether a terminal event was seen.
    pub ended: bool,
    /// Whether that event was an error.
    pub malformed: bool,
}

/// The state before the first event.
pub open spec fn initial() -> RewriteModel {
    RewriteModel {
        pieces: Seq::<PieceModel>::empty(),
        open_svg: None,
        ended: false,
        malformed: false,
    }
}

/// Names of the heading elements.
pub open spec fn is_heading(name: Seq<char>) -> bool {
    name == "h1"@ || name == "h2"@ || name == "h3"@ || name == "h4"@ || name == "h5"@ || name
        == "h6"@
}

/// Keys of the attributes that hold links.
pub open spec fn is_link_key(key: Seq<char>) -> bool {
    key == "href"@ || key == "src"@
}

/// A heading attribute after rewriting: the `id` becomes its fragment slug.
pub open spec fn heading_attr(a: (Seq<char>, Seq<char>), ctx: RewriteContext) -> (
    Seq<char>,
    Seq<char>,
) {
    if a.0 == "id"@ {
        (a.0, slug_under(ctx.links.fragment_mode, a.1))
    } else {
        a
    }
}

/// An attribute of any other element after rewriting: a link is resolved.
pub open spec fn link_attr(a: (Seq<char>, Seq<char>), ctx: RewriteContext) -> (
    Seq<char>,
    Seq<char>,
) {
    if is_link_key(a.0) {
        (
            a.0,
            resolved(
                a.1,
                ctx.links.base_path@,
                ctx.links.path_mode,
                ctx.links.fragment_mode,
                name_views(ctx.links.asset_names@),
            ),
        )
    } else {
        a
    }
}

/// The attribute that carries the language.
pub open spec fn lang_attr(ctx: RewriteContext) -> (Seq<char>, Seq<char>) {
    ("lang"@, escaped_attribute(ctx.language@))
}

/// What is written for a start tag outside a lifted image.
pub open spec fn start_output(
    name: Seq<char>,
    attrs: Seq<(Seq<char>, Seq<char>)>,
    raw: Seq<char>,
    ctx: RewriteContext,
) -> Seq<char> {
    if name == "html"@ {
        start_markup(name, attrs.push(lang_attr(ctx)))
    } else if is_heading(name) {
        start_markup(name, attrs.map_values(|a: (Seq<char>, Seq<char>)| heading_attr(a, ctx)))
    } else if name == "svg"@ {
        raw
    } else {
        start_markup(name, attrs.map_values(|a: (Seq<char>, Seq<char>)| link_attr(a, ctx)))
    }
}

/// The title element; nothing for an empty title.
pub open spec fn title_markup(ctx: RewriteContext) -> Seq<char> {
    if ctx.title@.len() == 0 {
        Seq::<char>::empty()
    } else {
        "<title>"@ + escaped_text(ctx.title@) + "</title>"@
    }
}

/// The description element; nothing for an empty description.
pub open spec fn description_markup(ctx: RewriteContext) -> Seq<char> {
    if ctx.description@.len() == 0 {
        Seq::<char>::empty()
    } else {
        start_markup(
            "meta"@,
            seq![("name"@, "description"@), ("content"@, escaped_attribute(ctx.description@))],
        ) + "</meta>"@
    }
}

/// The stylesheet link; nothing where no stylesheet is configured.
pub open spec fn stylesheet_markup(ctx: RewriteContext) -> Seq<char> {
    match ctx.stylesheet {
        Some(href) => start_markup(
            "link"@,
            seq![("rel"@, "stylesheet"@), ("href"@, escaped_attribute(href@))],
        ),
        None => Seq::<char>::empty(),
    }
}

/// What is written in place of the end tag of the head: the title, the
/// description, the stylesheet link, and the end tag.
pub open spec fn head_markup(ctx: RewriteContext) -> Seq<char> {
    title_markup(ctx) + description_markup(ctx) + stylesheet_markup(ctx) + "</head>"@
}

/// The text an event is written back as when it is left unchanged.
pub open spec fn raw_of(e: EventModel) -> Seq<char> {
    match e {
        EventModel::Start { name, attrs, raw } => raw,
        EventModel::End { name, raw } => raw,
        EventModel::Other { raw } => raw,
        EventModel::Eof => Seq::<char>::empty(),
        EventModel::Malformed => Seq::<char>::empty(),
    }
}

/// Tells whether an event is the end tag of a vector image.
pub open spec fn closes_svg(e: EventModel) -> bool {
    e matches EventModel::End { name, .. } && name == "svg"@
}

/// The state with one more piece of markup.
pub open spec fn with_markup(st: RewriteModel, text: Seq<char>) -> RewriteModel {
    RewriteModel { pieces: st.pieces.push(PieceModel::Markup(text)), ..st }
}

/// The state after one more event.
pub open spec fn step(st: RewriteModel, e: EventModel, ctx: RewriteContext) -> RewriteModel {
    if st.ended {
        st
    } else if e is Eof {
        RewriteModel { ended: true, ..st }
    } else if e is Malformed {
        RewriteModel { ended: true, malformed: true, ..st }
    } else if st.open_svg is Some {
        let svg = st.open_svg->0;
        let inner = svg.1 + raw_of(e);
        if closes_svg(e) {
            RewriteModel {
                pieces: st.pieces.push(PieceModel::Image { attrs: svg.0, inner }),
                open_svg: None,
                ..st
            }
        } else {
            RewriteModel { open_svg: Some((svg.0, inner)), ..st }
        }
    } else {
        match e {
            EventModel::Start { name, attrs, raw } => {
                if name == "svg"@ && ctx.extract_images {
                    RewriteModel { open_svg: Some((attrs, Seq::<char>::empty())), ..st }
                } else {
                    with_markup(st, start_output(name, attrs, raw, ctx))
                }
            },
            EventModel::End { name, raw } => {
                if name == "head"@ {
                    with_markup(st, head_markup(ctx))
                } else {
                    with_markup(st, raw)
                }
            },
            EventModel::Other { raw } => with_markup(st, raw),
            EventModel::Eof => st,
            EventModel::Malformed => st,
        }
    }
}

/// The state after a sequence of events.
pub open spec fn run(events: Seq<EventModel>, ctx: RewriteContext) -> RewriteModel
    decreases events.len(),
{
    if events.len() == 0 {
        initial()
    } else {
        step(run(events.drop_last(), ctx), events.last(), ctx)
    }
}

/// What the pass yields from its last state: the pieces, unless the page was
/// malformed or ended inside a vector image.
pub open spec fn outcome(st: RewriteModel) -> Result<Seq<PieceModel>, RewriteError> {
    if st.malformed {
        Err(RewriteError::Malformed)
    } else if st.open_svg is Some {
        Err(RewriteError::UnclosedSvg)
    } else {
        Ok(st.pieces)
    }
}

/// The rewritten form of a sequence of events.
pub open spec fn rewritten(events: Seq<EventModel>, ctx: RewriteContext) -> Result<
    Seq<PieceModel>,
    RewriteError,
> {
    outcome(run(events, ctx))
}

/// A heading and a link to it agree: the `id` of a heading is rewritten to
/// the slug of its text, and a link to the fragment of that text, on any
/// page, is rewritten to `#` and the same slug.
pub proof fn lemma_heading_id_and_fragment_link_agree(text: Seq<char>, ctx: RewriteContext)
    ensures
        heading_attr(("id"@, text), ctx).1 == slug_under(ctx.links.fragment_mode, text),
        link_attr(("href"@, seq!['#'] + text), ctx).1 == seq!['#'] + heading_attr(
            ("id"@, text),
            ctx,
        ).1,
{
    let link = seq!['#'] + text;
    assert(link[0] == '#');
    assert(link.drop_first() =~= text);
}

/// The state of the pass, as the pass holds it.
pub struct Rewriting {
    /// The pieces written so far.
    pub pieces: Vec<Piece>,
    /// The vector image being collected.
    pub open_svg: Option<RawSvg>,
    /// Whether a terminal event was seen.
    pub ended: bool,
    /// Whether that event was an error.
    pub malformed: bool,
}

impl View for Rewriting {
    type V = RewriteModel;

    open spec fn view(&self) -> RewriteModel {
        RewriteModel {
            pieces: piece_views(self.pieces@),
            open_svg: match self.open_svg {
                Some(svg) => Some((attr_views(svg.attrs@), svg.inner@)),
                None => None,
            },
            ended: self.ended,
            malformed: self.malformed,
        }
    }
}

/// Tells whether `name` names a heading element.
fn heading_name(name: &str) -> (b: bool)
    ensures
        b == is_heading(name@),
{
    same_text(name, "h1") || same_text(name, "h2") || same_text(name, "h3") || same_text(
        name,
        "h4",
    ) || same_text(name, "h5") || same_text(name, "h6")
}

/// Rewrites the `id` among the attributes of a heading.
fn rewrite_heading_attrs(attrs: Vec<Attr>, ctx: &RewriteContext) -> (out: Vec<Attr>)
    ensures
        attr_views(out@) == attr_views(attrs@).map_values(
            |a: (Seq<char>, Seq<char>)| heading_attr(a, *ctx),
        ),
{
    let ghost want = attr_views(attrs@).map_values(
        |a: (Seq<char>, Seq<char>)| heading_attr(a, *ctx),
    );
    let mut out: Vec<Attr> = Vec::new();
    let mut i: usize = 0;
    while i < attrs.len()
        invariant
            i <= attrs.len(),
            want == attr_views(attrs@).map_values(
                |a: (Seq<char>, Seq<char>)| heading_attr(a, *ctx),
            ),
            attr_views(out@) == want.subrange(0, i as int),
        decreases attrs.len() - i,
    {
        let attr = &attrs[i];
        let value = if same_text(attr.key.as_str(), "id") {
            slug_text(attr.value.as_str(), ctx.links.fragment_mode)
        } else {
            attr.value.clone()
        };
        let ghost before = attr_views(out@);
        let rewritten = Attr { key: attr.key.clone(), value };
        assert(rewritten@ == want[i as int]);
        out.push(rewritten);
        assert(attr_views(out@) =~= before.push(want[i as int]));
        i = i + 1;
        assert(attr_views(out@) =~= want.subrange(0, i as int));
    }
    assert(want.subrange(0, attrs.len() as int) =~= want);
    out
}

/// Resolves the links among the attributes of an element.
fn rewrite_link_attrs(attrs: Vec<Attr>, ctx: &RewriteContext) -> (out: Vec<Attr>)
    ensures
        attr_views(out@) == attr_views(attrs@).map_values(
            |a: (Seq<char>, Seq<char>)| link_attr(a, *ctx),
        ),
{
    let ghost want = attr_views(attrs@).map_values(
        |a: (Seq<char>, Seq<char>)| link_attr(a, *ctx),
    );
    let mut out: Vec<Attr> = Vec::new();
    let mut i: usize = 0;
    while i < attrs.len()
        invariant
            i <= attrs.len(),
            want == attr_views(attrs@).map_values(|a: (Seq<char>, Seq<char>)| link_attr(a, *ctx)),
            attr_views(out@) == want.subrange(0, i as int),
        decreases attrs.len() - i,
    {
        let attr = &attrs[i];
        let is_link = same_text(attr.key.as_str(), "href") || same_text(attr.key.as_str(), "src");
        let value = if is_link {
            resolve_link(attr.value.as_str(), &ctx.links)
        } else {
            attr.value.clone()
        };
        let ghost before = attr_views(out@);
        let rewritten = Attr { key: attr.key.clone(), value };
        assert(rewritten@ == want[i as int]);
        out.push(rewritten);
        assert(attr_views(out@) =~= before.push(want[i as int]));
        i = i + 1;
        assert(attr_views(out@) =~= want.subrange(0, i as int));
    }
    assert(want.subrange(0, attrs.len() as int) =~= want);
    out
}

/// The text written for a start tag outside a lifted image.
pub fn start_text(name: &str, attrs: Vec<Attr>, raw: String, ctx: &RewriteContext) -> (out: String)
    ensures
        out@ == start_output(name@, attr_views(attrs@), raw@, *ctx),
{
    if same_text(name, "html") {
        let ghost before = attr_views(attrs@);
        let mut attrs = attrs;
        let lang = Attr {
            key: "lang".to_owned(),
            value: escape_attribute_value(ctx.language.as_str()),
        };
        attrs.push(lang);
        assert(attr_views(attrs@) =~= before.push(lang_attr(*ctx)));
        render_start(name, &attrs)
    } else if heading_name(name) {
        let rewritten = rewrite_heading_attrs(attrs, ctx);
        render_start(name, &rewritten)
    } else if same_text(name, "svg") {
        raw
    } else {
        let rewritten = rewrite_link_attrs(attrs, ctx);
        render_start(name, &rewritten)
    }
}

/// The text written in place of the end tag of the head.
pub fn head_text(ctx: &RewriteContext) -> (out: String)
    ensures
        out@ == head_markup(*ctx),
{
    let mut out = String::new();
    if ctx.title.as_str().unicode_len() > 0 {
        out.append("<title>");
        out.append(escape_text(ctx.title.as_str()).as_str());
        out.append("</title>");
    }
    assert(out@ =~= title_markup(*ctx));
    if ctx.description.as_str().unicode_len() > 0 {
        let mut attrs: Vec<Attr> = Vec::new();
        attrs.push(Attr { key: "name".to_owned(), value: "description".to_owned() });
        attrs.push(
            Attr {
                key: "content".to_owned(),
                value: escape_attribute_value(ctx.description.as_str()),
            },
        );
        assert(attr_views(attrs@) =~= seq![
            ("name"@, "description"@),
            ("content"@, escaped_attribute(ctx.description@)),
        ]);
        out.append(render_start("meta", &attrs).as_str());
        out.append("</meta>");
    }
    assert(out@ =~= title_markup(*ctx) + description_markup(*ctx));
    match &ctx.stylesheet {
        Some(href) => {
            let mut attrs: Vec<Attr> = Vec::new();
            attrs.push(Attr { key: "rel".to_owned(), value: "stylesheet".to_owned() });
            attrs.push(
                Attr { key: "href".to_owned(), value: escape_attribute_value(href.as_str()) },
            );
            assert(attr_views(attrs@) =~= seq![
                ("rel"@, "stylesheet"@),
                ("href"@, escaped_attribute(href@)),
            ]);
            out.append(render_start("link", &attrs).as_str());
        },
        None => {},
    }
    assert(out@ =~= title_markup(*ctx) + description_markup(*ctx) + stylesheet_markup(*ctx));
    out.append("</head>");
    out
}

/// The state with one more piece of markup.
fn push_markup(st: Rewriting, text: String) -> (next: Rewriting)
    ensures
        next@ == with_markup(st@, text@),
{
    let ghost before = piece_views(st.pieces@);
    let mut st = st;
    st.pieces.push(Piece::Markup(text));
    assert(piece_views(st.pieces@) =~= before.push(PieceModel::Markup(text@)));
    st
}

/// Takes one event into the state of the pass.
pub fn apply_event(st: Rewriting, event: HtmlEvent, ctx: &RewriteContext) -> (next: Rewriting)
    ensures
        next@ == step(st@, event@, *ctx),
{
    if st.ended {
        return st;
    }
    let mut st = st;
    match event {
        HtmlEvent::Eof => {
            st.ended = true;
            st
        },
        HtmlEvent::Malformed => {
            st.ended = true;
            st.malformed = true;
            st
        },
        HtmlEvent::Start { name, attrs, raw } => {
            match st.open_svg.take() {
                Some(svg) => {
                    let mut svg = svg;
                    svg.inner.append(raw.as_str());
                    st.open_svg = Some(svg);
                    st
                },
                None => {
                    if ctx.extract_images && same_text(name.as_str(), "svg") {
                        st.open_svg = Some(RawSvg { attrs, inner: String::new() });
                        st
                    } else {
                        let text = start_text(name.as_str(), attrs, raw, ctx);
                        push_markup(st, text)
                    }
                },
            }
        },
        HtmlEvent::End { name, raw } => {
            match st.open_svg.take() {
                Some(svg) => {
                    let mut svg = svg;
                    svg.inner.append(raw.as_str());
                    if same_text(name.as_str(), "svg") {
                        let ghost before = piece_views(st.pieces@);
                        let ghost image = Piece::Image(svg)@;
                        st.pieces.push(Piece::Image(svg));
                        assert(piece_views(st.pieces@) =~= before.push(image));
                    } else {
                        st.open_svg = Some(svg);
                    }
                    st
                },
                None => {
                    if same_text(name.as_str(), "head") {
                        let text = head_text(ctx);
                        push_markup(st, text)
                    } else {
                        push_markup(st, raw)
                    }
                },
            }
        },
        HtmlEvent::Other { raw } => {
            match st.open_svg.take() {
                Some(svg) => {
                    let mut svg = svg;
                    svg.inner.append(raw.as_str());
                    st.open_svg = Some(svg);
                    st
                },
                None => push_markup(st, raw),
            }
        },
    }
}

/// What the pass yields from its last state.
fn finish(st: Rewriting) -> (r: Result<Vec<Piece>, RewriteError>)
    ensures
        match outcome(st@) {
            Ok(pieces) => r is Ok && piece_views(r->Ok_0@) == pieces,
            Err(e) => r == Err::<Vec<Piece>, RewriteError>(e),
        },
{
    if st.malformed {
        Err(RewriteError::Malformed)
    } else if st.open_svg.is_some() {
        Err(RewriteError::UnclosedSvg)
    } else {
        Ok(st.pieces)
    }
}

/// The state before the first event.
fn start() -> (st: Rewriting)
    ensures
        st@ == initial(),
{
    let st = Rewriting { pieces: Vec::new(), open_svg: None, ended: false, malformed: false };
    assert(piece_views(st.pieces@) =~= Seq::<PieceModel>::empty());
    st
}

/// Rewrites a page given as its events.
///
/// Events after the first terminal one are ignored; a list without a
/// terminal event is taken to end where it ends.
pub fn rewrite_events(events: Vec<HtmlEvent>, ctx: &RewriteContext) -> (r: Result<
    Vec<Piece>,
    RewriteError,
>)
    ensures
        match rewritten(event_views(events@), *ctx) {
            Ok(pieces) => r is Ok && piece_views(r->Ok_0@) == pieces,
            Err(e) => r == Err::<Vec<Piece>, RewriteError>(e),
        },
{
    let ghost all = event_views(events@);
    let mut st = start();
    assert(all.subrange(0, 0) =~= Seq::<EventModel>::empty());
    for event in it: events
        invariant
            all == event_views(it.seq()),
            st@ == run(all.subrange(0, it.index() as int), *ctx),
    {
        proof {
            let i = it.index() as int;
            assert(all.subrange(0, i + 1).drop_last() =~= all.subrange(0, i));
            assert(all.subrange(0, i + 1).last() == event@);
        }
        st = apply_event(st, event, ctx);
    }
    assert(all.subrange(0, all.len() as int) =~= all);
    finish(st)
}

/// Rewrites a compiled page.
///
/// The page is read as a stream of events; the result is that of
/// [`rewrite_events`] on the events the page parses to.
pub fn rewrite_html(content: &[u8], ctx: &RewriteContext) -> (r: Result<Vec<Piece>, RewriteError>)
    ensures
        match rewritten(parsed_events(content@), *ctx) {
            Ok(pieces) => r is Ok && piece_views(r->Ok_0@) == pieces,
            Err(e) => r == Err::<Vec<Piece>, RewriteError>(e),
        },
{
    let ghost all = parsed_events(content@);
    let mut reader = open_reader(content);
    let mut st = start();
    let ghost mut seen: int = 0;
    assert(all.subrange(0, 0) =~= Seq::<EventModel>::empty());
    assert(all.subrange(0, all.len() as int) =~= all);
    while !st.ended
        invariant
            well_terminated(all),
            0 <= seen <= all.len(),
            pending(&reader) == all.subrange(seen, all.len() as int),
            st@ == run(all.subrange(0, seen), *ctx),
            st.ended <==> seen == all.len(),
        decreases all.len() - seen,
    {
        let event = next_event(&mut reader);
        proof {
            assert(event@ == all[seen]);
            assert(all.subrange(seen, all.len() as int).drop_first() =~= all.subrange(
                seen + 1,
                all.len() as int,
            ));
            assert(all.subrange(0, seen + 1).drop_last() =~= all.subrange(0, seen));
            assert(all.subrange(0, seen + 1).last() == event@);
            assert(is_terminal(all[seen]) <==> seen == all.len() - 1);
        }
        st = apply_event(st, event, ctx);
        proof {
            seen = seen + 1;
        }
    }
    assert(all.subrange(0, all.len() as int) =~= all);
    finish(st)
}

} // verus!
