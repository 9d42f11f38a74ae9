use tola::config::SlugMode;
use tola::link::{is_asset_link, is_external_link, resolve_link, LinkContext};
use tola::markup::{Attr, HtmlEvent};
use tola::rewrite::{
    head_text, rewrite_events, rewrite_html, Piece, RawSvg, RewriteContext, RewriteError,
};

fn links(base: &str) -> LinkContext {
    LinkContext {
        base_path: base.to_string(),
        path_mode: SlugMode::Safe,
        fragment_mode: SlugMode::Safe,
        asset_names: vec!["images".to_string(), "styles".to_string()],
    }
}

fn context(base: &str, extract: bool) -> RewriteContext {
    RewriteContext {
        language: "en".to_string(),
        title: "My <Site>".to_string(),
        description: "A \"quoted\" site".to_string(),
        stylesheet: Some("/blog/styles/main.css".to_string()),
        extract_images: extract,
        links: links(base),
    }
}

fn markup_of(pieces: &[Piece]) -> String {
    let mut out = String::new();
    for piece in pieces {
        match piece {
            Piece::Markup(text) => out.push_str(text),
            Piece::Image(_) => out.push_str("[image]"),
        }
    }
    out
}

#[test]
fn page_link_gets_base_path_and_slugs() {
    assert_eq!(resolve_link("/posts/b#intro", &links("blog")), "/blog/posts/b#intro");
    assert_eq!(resolve_link("/posts/my post#My Heading!", &links("blog")), "/blog/posts/my_post#My_Heading!");
    assert_eq!(resolve_link("/posts/b", &links("")), "/posts/b");
    assert_eq!(resolve_link("/posts/b#", &links("blog")), "/blog/posts/b");
}

#[test]
fn relative_link_moves_up_one_level() {
    assert_eq!(resolve_link("./pic.png", &links("blog")), "../pic.png");
    assert_eq!(resolve_link("pic.png", &links("blog")), "../pic.png");
    assert_eq!(resolve_link("../pic.png", &links("blog")), "../../pic.png");
}

#[test]
fn asset_link_keeps_its_path() {
    assert_eq!(resolve_link("/images/a b.png", &links("blog")), "/blog/images/a b.png");
    assert_eq!(resolve_link("/images", &links("/blog/")), "/blog/images");
    assert!(is_asset_link("/images/x.png", &links("").asset_names));
    assert!(!is_asset_link("/posts/x", &links("").asset_names));
    assert!(!is_asset_link("images/x.png", &links("").asset_names));
}

#[test]
fn fragment_link_is_slugged() {
    assert_eq!(resolve_link("#My Heading!", &links("blog")), "#My_Heading!");
    let mut ctx = links("blog");
    ctx.fragment_mode = SlugMode::On;
    assert_eq!(resolve_link("#My Heading!", &ctx), "#my-heading");
}

#[test]
fn external_link_is_untouched() {
    assert_eq!(resolve_link("https://example.com/a b", &links("blog")), "https://example.com/a b");
    assert_eq!(resolve_link("mailto:me@example.com", &links("blog")), "mailto:me@example.com");
    assert!(is_external_link("git+ssh://host/x"));
    assert!(!is_external_link("a/b:c"));
    assert!(!is_external_link("plain"));
    assert_eq!(resolve_link("", &links("blog")), "");
}

#[test]
fn heading_id_and_fragment_link_agree() {
    let ctx = context("blog", false);
    let page = b"<h2 id=\"My Heading!\">x</h2><a href=\"#My Heading!\">y</a>";
    let pieces = rewrite_html(page, &ctx).unwrap();
    assert_eq!(
        markup_of(&pieces),
        "<h2 id=\"My_Heading!\">x</h2><a href=\"#My_Heading!\">y</a>"
    );
}

#[test]
fn html_gets_language_and_head_gets_metadata() {
    let ctx = context("blog", false);
    let page = b"<!DOCTYPE html><html><head><meta charset=\"utf-8\"/></head><body>hi &amp; bye</body></html>";
    let pieces = rewrite_html(page, &ctx).unwrap();
    assert_eq!(
        markup_of(&pieces),
        "<!DOCTYPE html><html lang=\"en\"><head><meta charset=\"utf-8\"/>\
<title>My &lt;Site&gt;</title>\
<meta name=\"description\" content=\"A &quot;quoted&quot; site\"></meta>\
<link rel=\"stylesheet\" href=\"/blog/styles/main.css\"></head><body>hi &amp; bye</body></html>"
    );
}

#[test]
fn head_text_leaves_out_what_is_not_configured() {
    let mut ctx = context("", false);
    ctx.title = String::new();
    ctx.description = String::new();
    ctx.stylesheet = None;
    assert_eq!(head_text(&ctx), "</head>");
}

#[test]
fn links_and_sources_are_rewritten() {
    let ctx = context("blog", false);
    let page = b"<p class=\"a\"><a href=\"/posts/b#intro\">b</a><img src=\"./pic.png\"></img></p>";
    let pieces = rewrite_html(page, &ctx).unwrap();
    assert_eq!(
        markup_of(&pieces),
        "<p class=\"a\"><a href=\"/blog/posts/b#intro\">b</a><img src=\"../pic.png\"></img></p>"
    );
}

#[test]
fn svg_is_lifted_out_when_extracting() {
    let ctx = context("", true);
    let page = b"<p><svg width=\"10pt\" height=\"5pt\"><path d=\"M0 0\"/><a href=\"/x\">t</a></svg></p>";
    let pieces = rewrite_html(page, &ctx).unwrap();
    assert_eq!(pieces.len(), 3);
    assert_eq!(pieces[0], Piece::Markup("<p>".to_string()));
    assert_eq!(
        pieces[1],
        Piece::Image(RawSvg {
            attrs: vec![
                Attr { key: "width".to_string(), value: "10pt".to_string() },
                Attr { key: "height".to_string(), value: "5pt".to_string() },
            ],
            inner: "<path d=\"M0 0\"/><a href=\"/x\">t</a></svg>".to_string(),
        })
    );
    assert_eq!(pieces[2], Piece::Markup("</p>".to_string()));
}

#[test]
fn svg_stays_inline_when_not_extracting() {
    let ctx = context("", false);
    let page = b"<svg  width='10pt'><g/></svg>";
    let pieces = rewrite_html(page, &ctx).unwrap();
    assert_eq!(markup_of(&pieces), "<svg  width='10pt'><g/></svg>");
}

#[test]
fn unclosed_svg_is_an_error() {
    let ctx = context("", true);
    assert_eq!(rewrite_html(b"<p><svg><g/>", &ctx), Err(RewriteError::UnclosedSvg));
}

#[test]
fn malformed_page_is_an_error() {
    let ctx = context("", false);
    assert_eq!(rewrite_html(b"<p>text</p><a href=\"x\"", &ctx), Err(RewriteError::Malformed));
}

#[test]
fn events_after_the_end_are_ignored() {
    let ctx = context("", false);
    let events = vec![
        HtmlEvent::Other { raw: "a".to_string() },
        HtmlEvent::Eof,
        HtmlEvent::Other { raw: "b".to_string() },
    ];
    assert_eq!(rewrite_events(events, &ctx), Ok(vec![Piece::Markup("a".to_string())]));
    let events = vec![HtmlEvent::Other { raw: "a".to_string() }, HtmlEvent::Malformed];
    assert_eq!(rewrite_events(events, &ctx), Err(RewriteError::Malformed));
}
