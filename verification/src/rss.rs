//! The items of the feed: what each post contributes, and where it links.

use vstd::prelude::*;
use crate::config::{SiteConfig, SlugMode};
use crate::content::{is_index, is_index_source, logical_slug, logical_slug_of, PathError};
use crate::date::{feed_date, parse_date};
use crate::link::path_slug_chars;
use crate::slug::path_slug_under;
use crate::text::{
    append_chars, chars_of, join, join_chars, slice_chars, split, split_chars, string_of, views,
};
use vstd::string::*;
use vstd::utf8::encode_utf8;
use crate::markup::{escape_text, escaped_text};
use crate::text::arg_views;

verus! {

/// The character of a hexadecimal digit, in upper case.
pub open spec fn hex_digit(d: u8) -> char {
    if d < 10 {
        (48 + d) as char
    } else {
        (55 + d) as char
    }
}

/// What a byte is written as in a URL: itself where it is a letter, a
/// digit, `-`, `.`, `_` or `~`; else `%` and its two hexadecimal digits.
pub open spec fn percent_byte(b: u8) -> Seq<char> {
    if (48 <= b <= 57) || (65 <= b <= 90) || (97 <= b <= 122) || b == 45 || b == 46 || b == 95
        || b == 126 {
        seq![b as char]
    } else {
        seq!['%', hex_digit(b / 16), hex_digit(b % 16)]
    }
}

/// A text as it is written in a URL: each byte of its UTF-8 form on its
/// own.
pub open spec fn percent_encoded(text: Seq<char>) -> Seq<char> {
    encode_utf8(text).map_values(|b: u8| percent_byte(b)).flatten()
}

/// Writes a text as it stands in a URL.
///
/// Trusted: `urlencoding::encode` keeps letters, digits, `-`, `.`, `_` and
/// `~`, and writes every other byte as `%` and two upper-case hexadecimal
/// digits.
#[verifier::external_body]
pub(crate) fn percent_encode(text: &str) -> (out: String)
    ensures
        out@ == percent_encoded(text@),
{
    urlencoding::encode(text).into_owned()
}

/// Whether a text matches a regular expression, as the `regex` crate
/// decides it; an expression that does not compile matches nothing.
pub uninterp spec fn regex_matches(pattern: Seq<char>, text: Seq<char>) -> bool;

/// Matches a text against a regular expression.
///
/// Trusted: whether `regex::Regex::is_match` holds depends on the
/// expression and the text alone; it is given the name [`regex_matches`].
#[verifier::external_body]
pub(crate) fn is_match(pattern: &str, text: &str) -> (m: bool)
    ensures
        m == regex_matches(pattern@, text@),
{
    regex::Regex::new(pattern).map(|re| re.is_match(text)).unwrap_or(false)
}

/// The pieces, each as it is written in a URL.
pub open spec fn encoded_pieces(pieces: Seq<Seq<char>>) -> Seq<Seq<char>> {
    pieces.map_values(|p: Seq<char>| percent_encoded(p))
}

/// `s` without its trailing `/` characters.
pub open spec fn without_trailing_slashes(s: Seq<char>) -> Seq<char>
    decreases s.len(),
{
    if s.len() > 0 && s.last() == '/' {
        without_trailing_slashes(s.drop_last())
    } else {
        s
    }
}

/// The file of a page below the site, before it is slugged: `index.html`
/// for the index of the site, else the logical slug and `/index.html`.
pub open spec fn guid_file(slug: Seq<char>, index: bool) -> Seq<char> {
    if index {
        "index.html"@
    } else {
        slug + "/index.html"@
    }
}

/// The permanent link of a post: the base URL without trailing `/`, a `/`,
/// and the slug of its page file with each component written as it stands
/// in a URL.
pub open spec fn guid_of(
    content_root: Seq<char>,
    base_url: Seq<char>,
    mode: SlugMode,
    path: Seq<char>,
) -> Result<Seq<char>, PathError> {
    match logical_slug(content_root, path) {
        Err(e) => Err(e),
        Ok(slug) => Ok(
            without_trailing_slashes(base_url) + seq!['/'] + join(
                encoded_pieces(split(path_slug_under(mode, guid_file(slug, is_index(path))), '/')),
                '/',
            ),
        ),
    }
}

/// The permanent link of the post at `content_path`.
pub fn get_guid_from_content_output_path(content_path: &str, config: &SiteConfig) -> (r: Result<
    String,
    PathError,
>)
    ensures
        match guid_of(
            config.build.content@,
            match config.base.url {
                Some(url) => url@,
                None => Seq::<char>::empty(),
            },
            config.build.slug.path,
            content_path@,
        ) {
            Ok(guid) => r is Ok && r->Ok_0@ == guid,
            Err(e) => r == Err::<String, PathError>(e),
        },
{
    let slug = match logical_slug_of(config.build.content.as_str(), content_path) {
        Err(e) => {
            return Err(e);
        },
        Ok(slug) => slug,
    };
    let file = if is_index_source(content_path) {
        chars_of("index.html")
    } else {
        let mut file = chars_of(slug.as_str());
        append_chars(&mut file, &chars_of("/index.html"));
        file
    };
    let slugged = path_slug_chars(config.build.slug.path, &file);
    let pieces = split_chars(&slugged, '/');
    let ghost all = views(pieces@);
    let mut encoded: Vec<Vec<char>> = Vec::new();
    let mut i: usize = 0;
    while i < pieces.len()
        invariant
            i <= pieces.len(),
            all == views(pieces@),
            views(encoded@) == encoded_pieces(all).subrange(0, i as int),
        decreases pieces.len() - i,
    {
        let ghost before = views(encoded@);
        let piece = chars_of(percent_encode(string_of(&pieces[i]).as_str()).as_str());
        assert(piece@ == encoded_pieces(all)[i as int]);
        encoded.push(piece);
        assert(views(encoded@) =~= before.push(encoded_pieces(all)[i as int]));
        i = i + 1;
        assert(views(encoded@) =~= encoded_pieces(all).subrange(0, i as int));
    }
    assert(encoded_pieces(all).subrange(0, pieces.len() as int) =~= encoded_pieces(all));
    let base = match &config.base.url {
        Some(url) => chars_of(url.as_str()),
        None => Vec::new(),
    };
    let mut end: usize = base.len();
    assert(base@.subrange(0, base.len() as int) =~= base@);
    while end > 0 && base[end - 1] == '/'
        invariant
            end <= base.len(),
            without_trailing_slashes(base@) == without_trailing_slashes(
                base@.subrange(0, end as int),
            ),
        decreases end,
    {
        assert(base@.subrange(0, end as int).drop_last() =~= base@.subrange(0, end - 1));
        end = end - 1;
    }
    let mut guid = slice_chars(&base, 0, end);
    guid.push('/');
    append_chars(&mut guid, &join_chars(&encoded, '/'));
    Ok(string_of(&guid))
}

/// What the metadata of a post says.
#[derive(Debug, Clone, PartialEq, Eq)]
pub struct PostMeta {
    pub title: Option<String>,
    pub summary: Option<String>,
    pub date: Option<String>,
    pub update: Option<String>,
    pub link: Option<String>,
    pub author: Option<String>,
}

/// One item of the feed.
#[derive(Debug, Clone, PartialEq, Eq)]
pub struct FeedItem {
    pub title: String,
    pub link: String,
    pub description: Option<String>,
    pub pub_date: String,
    pub author: Option<String>,
}

/// Tells whether a post gives an item: it has a date that is written in a
/// known form and exists, a title, and a link.
pub open spec fn gives_item(meta: PostMeta) -> bool {
    meta.date is Some && feed_date(meta.date->0@) is Some && meta.title is Some && meta.link
        is Some
}

/// The item of a post, where it gives one.
pub fn feed_item(meta: PostMeta) -> (r: Option<FeedItem>)
    ensures
        r is Some <==> gives_item(meta),
        r matches Some(item) ==> {
            &&& item.title == meta.title->0
            &&& item.link == meta.link->0
            &&& item.description == meta.summary
            &&& item.author == meta.author
            &&& item.pub_date@ == feed_date(meta.date->0@)->0
        },
{
    let pub_date = match parse_date(meta.date) {
        None => {
            return None;
        },
        Some(d) => d,
    };
    match (meta.title, meta.link) {
        (Some(title), Some(link)) => Some(
            FeedItem { title, link, description: meta.summary, pub_date, author: meta.author },
        ),
        _ => None,
    }
}

/// The form an author must have in a feed: an address, then a name in round
/// brackets.
pub open spec fn author_pattern() -> Seq<char> {
    "^[A-Za-z0-9._%+-]+@[A-Za-z0-9.-]+\\.[A-Za-z]{2,}\\s*\\([^)]+\\)$"@
}

/// The author of a feed item: the author of the post where that has the
/// form of a feed author, else the author of the site; where that one has
/// not the form either, the address of the site and the name in round
/// brackets.
pub open spec fn feed_author(author: Seq<char>, site_author: Seq<char>, site_email: Seq<char>) -> Seq<
    char,
> {
    let name = if regex_matches(author_pattern(), author) {
        author
    } else {
        site_author
    };
    if regex_matches(author_pattern(), name) {
        name
    } else {
        site_email + " ("@ + name + ")"@
    }
}

/// Puts the author of a post into the form a feed asks for; a post without
/// an author has none.
pub fn correct_rss_author(author: Option<&String>, config: &SiteConfig) -> (r: Option<String>)
    ensures
        author is None ==> r is None,
        author is Some ==> r is Some && r->0@ == feed_author(
            author->0@,
            config.base.author@,
            config.base.email@,
        ),
{
    let pattern = "^[A-Za-z0-9._%+-]+@[A-Za-z0-9.-]+\\.[A-Za-z]{2,}\\s*\\([^)]+\\)$";
    match author {
        None => None,
        Some(author) => {
            let name = if is_match(pattern, author.as_str()) {
                author.clone()
            } else {
                config.base.author.clone()
            };
            if is_match(pattern, name.as_str()) {
                Some(name)
            } else {
                let mut out = config.base.email.clone();
                out.append(" (");
                out.append(name.as_str());
                out.append(")");
                Some(out)
            }
        },
    }
}

/// A piece of the content of a post, as the compiler reports it.
#[derive(Debug, PartialEq, Eq)]
pub enum TypstElement {
    /// A space.
    Space,
    /// A line break.
    Linebreak,
    /// Plain text.
    Text { text: String },
    /// Struck-out text.
    Strike { text: String },
    /// A link with its body.
    Link { dest: String, body: Box<TypstElement> },
    /// A sequence of pieces.
    Sequence { children: Vec<TypstElement> },
    /// Anything else; it leaves no trace.
    OtherIgnored,
}

/// `s` without its leading `.` and `/` characters.
pub open spec fn without_leading_dots_and_slashes(s: Seq<char>) -> Seq<char>
    decreases s.len(),
{
    if s.len() > 0 && (s[0] == '.' || s[0] == '/') {
        without_leading_dots_and_slashes(s.drop_first())
    } else {
        s
    }
}

/// Where a link in a feed points: a destination that starts with `.` or
/// `/` lies on the site and is put below the base URL; any other is kept.
pub open spec fn feed_href(dest: Seq<char>, base_url: Seq<char>) -> Seq<char> {
    if dest.len() > 0 && (dest[0] == '.' || dest[0] == '/') {
        base_url + seq!['/'] + without_leading_dots_and_slashes(dest)
    } else {
        dest
    }
}

/// The markup of a piece of content.
pub open spec fn html_of(e: TypstElement, base_url: Seq<char>) -> Seq<char>
    decreases e, 0nat,
{
    match e {
        TypstElement::Space => " "@,
        TypstElement::Linebreak => "<br/>"@,
        TypstElement::Text { text } => text@,
        TypstElement::Strike { text } => "<strike>"@ + text@ + "</strike>"@,
        TypstElement::Link { dest, body } => "<a href=\""@ + feed_href(dest@, base_url) + "\">"@
            + html_of(*body, base_url) + "</a>"@,
        TypstElement::Sequence { children } => html_of_first(
            children,
            children.len() as nat,
            base_url,
        ),
        TypstElement::OtherIgnored => Seq::<char>::empty(),
    }
}

/// The markup of the first `n` pieces of a sequence, one after the other.
pub open spec fn html_of_first(children: Vec<TypstElement>, n: nat, base_url: Seq<char>) -> Seq<
    char,
>
    decreases children, n,
{
    if n == 0 || n > children.len() {
        Seq::<char>::empty()
    } else {
        html_of_first(children, (n - 1) as nat, base_url) + html_of(children[n - 1], base_url)
    }
}

/// The base URL of the site; empty where none is configured.
pub open spec fn base_url_of(config: SiteConfig) -> Seq<char> {
    match config.base.url {
        Some(url) => url@,
        None => Seq::<char>::empty(),
    }
}

impl TypstElement {
    /// Writes the piece as markup for the summary of a feed item.
    pub fn into_html_tag(&self, config: &SiteConfig) -> (out: String)
        ensures
            out@ == html_of(*self, base_url_of(*config)),
        decreases self,
    {
        match self {
            TypstElement::Space => " ".to_owned(),
            TypstElement::Linebreak => "<br/>".to_owned(),
            TypstElement::Text { text } => text.clone(),
            TypstElement::Strike { text } => {
                let mut out = "<strike>".to_owned();
                out.append(text.as_str());
                out.append("</strike>");
                out
            },
            TypstElement::Link { dest, body } => {
                let target = chars_of(dest.as_str());
                let href = if target.len() > 0 && (target[0] == '.' || target[0] == '/') {
                    let mut start: usize = 0;
                    assert(target@.subrange(0, target.len() as int) =~= target@);
                    while start < target.len() && (target[start] == '.' || target[start] == '/')
                        invariant
                            start <= target.len(),
                            without_leading_dots_and_slashes(target@)
                                == without_leading_dots_and_slashes(
                                target@.subrange(start as int, target.len() as int),
                            ),
                        decreases target.len() - start,
                    {
                        assert(target@.subrange(start as int, target.len() as int).drop_first()
                            =~= target@.subrange(start + 1, target.len() as int));
                        start = start + 1;
                    }
                    let mut href = match &config.base.url {
                        Some(url) => url.clone(),
                        None => String::new(),
                    };
                    href.append("/");
                    proof {
                        reveal_strlit("/");
                        assert("/"@ =~= seq!['/']);
                    }
                    href.append(string_of(&slice_chars(&target, start, target.len())).as_str());
                    href
                } else {
                    dest.clone()
                };
                let mut out = "<a href=\"".to_owned();
                out.append(href.as_str());
                out.append("\">");
                out.append(body.into_html_tag(config).as_str());
                out.append("</a>");
                out
            },
            TypstElement::Sequence { children } => {
                let mut out = String::new();
                let mut i: usize = 0;
                while i < children.len()
                    invariant
                        i <= children.len(),
                        *self is Sequence,
                        self->children == *children,
                        out@ == html_of_first(*children, i as nat, base_url_of(*config)),
                    decreases children.len() - i,
                {
                    out.append(children[i].into_html_tag(config).as_str());
                    i = i + 1;
                }
                out
            },
            TypstElement::OtherIgnored => String::new(),
        }
    }
}

/// The feed of a site: what the channel says, and the posts.
#[derive(Debug, Clone, PartialEq, Eq)]
pub struct RSSFeed {
    pub title: String,
    pub description: String,
    pub base_url: String,
    pub language: String,
    pub generator: String,
    pub posts_meta: Vec<PostMeta>,
}

/// An element that holds text.
pub open spec fn text_element(name: Seq<char>, text: Seq<char>) -> Seq<char> {
    seq!['<'] + name + seq!['>'] + escaped_text(text) + seq!['<', '/'] + name + seq!['>']
}

/// An element that holds text; nothing where there is no text.
pub open spec fn optional_element(name: Seq<char>, text: Option<String>) -> Seq<char> {
    match text {
        Some(t) => text_element(name, t@),
        None => Seq::<char>::empty(),
    }
}

/// The element of a post in the feed; nothing for a post that gives no
/// item.
pub open spec fn item_xml(meta: PostMeta) -> Seq<char> {
    if gives_item(meta) {
        "<item>"@ + text_element("title"@, meta.title->0@) + text_element("link"@, meta.link->0@)
            + optional_element("description"@, meta.summary) + optional_element(
            "author"@,
            meta.author,
        ) + "<guid isPermaLink=\"true\">"@ + escaped_text(meta.link->0@) + "</guid>"@
            + text_element("pubDate"@, feed_date(meta.date->0@)->0) + "</item>"@
    } else {
        Seq::<char>::empty()
    }
}

/// The elements of the first `n` posts, one after the other.
pub open spec fn items_xml(posts: Seq<PostMeta>, n: int) -> Seq<char>
    decreases n,
{
    if n <= 0 {
        Seq::<char>::empty()
    } else {
        items_xml(posts, n - 1) + item_xml(posts[n - 1])
    }
}

/// The XML of a feed: the declaration, the channel with what it says, and
/// an item for each post that gives one.
pub open spec fn feed_xml(feed: RSSFeed) -> Seq<char> {
    "<?xml version=\"1.0\" encoding=\"UTF-8\"?><rss version=\"2.0\"><channel>"@ + text_element(
        "title"@,
        feed.title@,
    ) + text_element("link"@, feed.base_url@) + text_element("description"@, feed.description@)
        + text_element("language"@, feed.language@) + text_element("generator"@, feed.generator@)
        + items_xml(feed.posts_meta@, feed.posts_meta@.len() as int) + "</channel></rss>"@
}

/// Writes an element that holds text.
fn write_element(out: &mut String, name: &str, text: &str)
    ensures
        final(out)@ == old(out)@ + text_element(name@, text@),
{
    proof {
        reveal_strlit("<");
        reveal_strlit(">");
        reveal_strlit("</");
        assert("<"@ =~= seq!['<']);
        assert(">"@ =~= seq!['>']);
        assert("</"@ =~= seq!['<', '/']);
    }
    let ghost before = out@;
    out.append("<");
    out.append(name);
    out.append(">");
    out.append(escape_text(text).as_str());
    out.append("</");
    out.append(name);
    out.append(">");
    assert(out@ =~= before + text_element(name@, text@));
}

/// Writes an element that holds text, where there is text.
fn write_optional(out: &mut String, name: &str, text: &Option<String>)
    ensures
        final(out)@ == old(out)@ + optional_element(name@, *text),
{
    match text {
        Some(t) => write_element(out, name, t.as_str()),
        None => {
            assert(out@ =~= out@ + Seq::<char>::empty());
        },
    }
}

/// Writes the element of a post, where the post gives an item.
fn write_item(out: &mut String, meta: PostMeta)
    ensures
        final(out)@ == old(out)@ + item_xml(meta),
{
    let ghost before = out@;
    let summary = meta.summary;
    let author = meta.author;
    let pub_date = parse_date(meta.date);
    match (pub_date, meta.title, meta.link) {
        (Some(date), Some(title), Some(link)) => {
            out.append("<item>");
            let ghost opened = out@;
            write_element(out, "title", title.as_str());
            write_element(out, "link", link.as_str());
            write_optional(out, "description", &summary);
            write_optional(out, "author", &author);
            let ghost fields = out@;
            assert(fields == opened + text_element("title"@, title@) + text_element(
                "link"@,
                link@,
            ) + optional_element("description"@, summary) + optional_element("author"@, author));
            out.append("<guid isPermaLink=\"true\">");
            out.append(escape_text(link.as_str()).as_str());
            out.append("</guid>");
            let ghost guid = out@;
            write_element(out, "pubDate", date.as_str());
            out.append("</item>");
            assert(gives_item(meta));
            assert(out@ == guid + text_element("pubDate"@, date@) + "</item>"@);
            assert(out@ =~= before + item_xml(meta));
        },
        _ => {
            assert(!gives_item(meta));
            assert(out@ =~= before + Seq::<char>::empty());
        },
    }
}

impl RSSFeed {
    /// The feed of a site with the given posts.
    pub fn new(config: &SiteConfig, posts_meta: Vec<PostMeta>) -> (feed: RSSFeed)
        ensures
            feed.title@ == config.base.title@,
            feed.description@ == config.base.description@,
            feed.base_url@ == base_url_of(*config),
            feed.language@ == config.base.language@,
            feed.generator@ == "tola-ssg"@,
            feed.posts_meta == posts_meta,
    {
        RSSFeed {
            title: config.base.title.clone(),
            description: config.base.description.clone(),
            base_url: match &config.base.url {
                Some(url) => url.clone(),
                None => String::new(),
            },
            language: config.base.language.clone(),
            generator: "tola-ssg".to_owned(),
            posts_meta,
        }
    }

    /// Writes the feed as XML.
    pub fn into_rss_xml(self) -> (xml: String)
        ensures
            xml@ == feed_xml(self),
    {
        let mut out = "<?xml version=\"1.0\" encoding=\"UTF-8\"?><rss version=\"2.0\"><channel>".to_owned();
        write_element(&mut out, "title", self.title.as_str());
        write_element(&mut out, "link", self.base_url.as_str());
        write_element(&mut out, "description", self.description.as_str());
        write_element(&mut out, "language", self.language.as_str());
        write_element(&mut out, "generator", self.generator.as_str());
        let ghost head = out@;
        let ghost posts = self.posts_meta@;
        assert(out@ =~= head + items_xml(posts, 0));
        for meta in it: self.posts_meta
            invariant
                posts == it.seq(),
                out@ == head + items_xml(posts, it.index() as int),
        {
            write_item(&mut out, meta);
        }
        out.append("</channel></rss>");
        out
    }
}

/// The command line that asks the compiler for the metadata of a post: the
/// configured compiler, the fixed options, the project root as font path
/// and as root, the source, the tag of the metadata, and the field asked
/// for.
pub open spec fn query_args(config: SiteConfig, source: Seq<char>) -> Seq<Seq<char>> {
    let root = match config.build.root {
        Some(p) => p@,
        None => "./"@,
    };
    arg_views(config.build.typst.command@) + seq![
        "query"@,
        "--features"@,
        "html"@,
        "--format"@,
        "json"@,
        "--font-path"@,
        root,
        "--root"@,
        root,
        source,
        "<tola-meta>"@,
        "--field"@,
        "value"@,
        "--one"@,
    ]
}

/// The command line that asks the compiler for the metadata of a post.
pub fn query_command(config: &SiteConfig, source: &str) -> (args: Vec<String>)
    ensures
        arg_views(args@) == query_args(*config, source@),
{
    let mut args = crate::content::copy_args(&config.build.typst.command);
    let root = config.get_root();
    args.push("query".to_owned());
    args.push("--features".to_owned());
    args.push("html".to_owned());
    args.push("--format".to_owned());
    args.push("json".to_owned());
    args.push("--font-path".to_owned());
    args.push(root.to_owned());
    args.push("--root".to_owned());
    args.push(root.to_owned());
    args.push(source.to_owned());
    args.push("<tola-meta>".to_owned());
    args.push("--field".to_owned());
    args.push("value".to_owned());
    args.push("--one".to_owned());
    assert(arg_views(args@) =~= query_args(*config, source@));
    args
}

} // verus!
