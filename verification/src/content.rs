//! Where a source file is published: the page of a markup source, and the
//! copy of an asset.

use vstd::prelude::*;
use crate::config::{ExtractSvgType, SiteConfig, SlugMode};
use crate::image::ImageSettings;
use crate::link::{
    base_prefix, base_prefix_chars, kind_of, path_slug_chars, resolved, rooted, LinkContext,
    LinkKind,
};
use crate::rewrite::RewriteContext;
use crate::slug::path_slug_under;
use crate::text::{
    append_chars, chars_of, has_prefix, has_suffix, lemma_position_is, same_chars, slice_chars,
    split, split_chars, string_of, views,
};
use vstd::string::*;
use crate::text::arg_views;
use crate::text::same_text;

verus! {

/// Why a source path cannot be published.
#[derive(Debug, Clone, Copy, PartialEq, Eq, Structural)]
pub enum PathError {
    /// The path does not lie below the root it was found under.
    OutsideRoot,
    /// The path does not end in the extension of markup sources.
    NotMarkup,
}

/// The part of `path` below the directory `root`: what follows `root` and a
/// `/`. None where the path does not lie below it.
pub open spec fn below(root: Seq<char>, path: Seq<char>) -> Option<Seq<char>> {
    if (root + seq!['/']).is_prefix_of(path) {
        Some(path.subrange(root.len() as int + 1, path.len() as int))
    } else {
        None
    }
}

/// The logical slug of a markup source: its path below the content root,
/// without the extension `.typ`.
pub open spec fn logical_slug(content_root: Seq<char>, path: Seq<char>) -> Result<
    Seq<char>,
    PathError,
> {
    match below(content_root, path) {
        None => Err(PathError::OutsideRoot),
        Some(relative) => if ".typ"@.is_suffix_of(relative) {
            Ok(relative.subrange(0, relative.len() - ".typ"@.len()))
        } else {
            Err(PathError::NotMarkup)
        },
    }
}

/// The URL of the directory a page with the given logical slug is published
/// in: the base prefix and the slug of the rooted logical slug.
pub open spec fn page_url(slug: Seq<char>, base: Seq<char>, mode: SlugMode) -> Seq<char> {
    base_prefix(base) + rooted(path_slug_under(mode, seq!['/'] + slug))
}

/// Tells whether a source is the index of the site: its file is named
/// `index.typ`.
pub open spec fn is_index(path: Seq<char>) -> bool {
    split(path, '/').last() == "index.typ"@
}

/// The file a page is written to: `index.html` in the output root for the
/// index of the site, else `index.html` in the directory of the page.
pub open spec fn page_file(
    content_root: Seq<char>,
    output_root: Seq<char>,
    base: Seq<char>,
    mode: SlugMode,
    path: Seq<char>,
) -> Result<Seq<char>, PathError> {
    match logical_slug(content_root, path) {
        Err(e) => Err(e),
        Ok(slug) => if is_index(path) {
            Ok(output_root + "/index.html"@)
        } else {
            Ok(output_root + page_url(slug, base, mode) + "/index.html"@)
        },
    }
}

/// The file an asset is copied to: its path below the assets root, mirrored
/// below the output root and the base path.
pub open spec fn asset_file(
    assets_root: Seq<char>,
    output_root: Seq<char>,
    base: Seq<char>,
    path: Seq<char>,
) -> Result<Seq<char>, PathError> {
    match below(assets_root, path) {
        None => Err(PathError::OutsideRoot),
        Some(relative) => Ok(output_root + base_prefix(base) + seq!['/'] + relative),
    }
}

/// The part of a path below a root.
pub fn strip_root(root: &Vec<char>, path: &Vec<char>) -> (r: Option<Vec<char>>)
    ensures
        match below(root@, path@) {
            Some(relative) => r is Some && r->0@ == relative,
            None => r is None,
        },
{
    let mut prefix: Vec<char> = Vec::new();
    append_chars(&mut prefix, root);
    prefix.push('/');
    assert(prefix@ =~= root@ + seq!['/']);
    if has_prefix(path, &prefix) {
        Some(slice_chars(path, prefix.len(), path.len()))
    } else {
        None
    }
}

/// The logical slug of a markup source.
pub fn logical_slug_of(content_root: &str, path: &str) -> (r: Result<String, PathError>)
    ensures
        match logical_slug(content_root@, path@) {
            Ok(slug) => r is Ok && r->Ok_0@ == slug,
            Err(e) => r == Err::<String, PathError>(e),
        },
{
    match strip_root(&chars_of(content_root), &chars_of(path)) {
        None => Err(PathError::OutsideRoot),
        Some(relative) => {
            let extension = chars_of(".typ");
            if has_suffix(&relative, &extension) {
                Ok(string_of(&slice_chars(&relative, 0, relative.len() - extension.len())))
            } else {
                Err(PathError::NotMarkup)
            }
        },
    }
}

/// The URL of the directory a page is published in.
pub fn page_url_of(slug: &str, base: &str, mode: SlugMode) -> (url: String)
    ensures
        url@ == page_url(slug@, base@, mode),
{
    let mut rooted_slug: Vec<char> = Vec::new();
    rooted_slug.push('/');
    append_chars(&mut rooted_slug, &chars_of(slug));
    assert(rooted_slug@ =~= seq!['/'] + slug@);
    let slugged = path_slug_chars(mode, &rooted_slug);
    let mut out = base_prefix_chars(&chars_of(base));
    if !(slugged.len() > 0 && slugged[0] == '/') {
        out.push('/');
    }
    append_chars(&mut out, &slugged);
    assert(out@ =~= base_prefix(base@) + rooted(slugged@));
    string_of(&out)
}

/// Tells whether a source is the index of the site.
pub fn is_index_source(path: &str) -> (b: bool)
    ensures
        b == is_index(path@),
{
    let pieces = split_chars(&chars_of(path), '/');
    proof {
        crate::text::lemma_split_nonempty(path@, '/');
    }
    let name = &pieces[pieces.len() - 1];
    assert(name@ == views(pieces@).last());
    same_chars(name, &chars_of("index.typ"))
}

/// The file that the page of a markup source is written to.
pub fn page_file_of(path: &str, config: &SiteConfig) -> (r: Result<String, PathError>)
    ensures
        match page_file(
            config.build.content@,
            config.build.output@,
            config.build.base_path@,
            config.build.slug.path,
            path@,
        ) {
            Ok(file) => r is Ok && r->Ok_0@ == file,
            Err(e) => r == Err::<String, PathError>(e),
        },
{
    match logical_slug_of(config.build.content.as_str(), path) {
        Err(e) => Err(e),
        Ok(slug) => {
            let mut file = config.build.output.clone();
            if !is_index_source(path) {
                let url = page_url_of(
                    slug.as_str(),
                    config.build.base_path.as_str(),
                    config.build.slug.path,
                );
                file.append(url.as_str());
            }
            file.append("/index.html");
            Ok(file)
        },
    }
}

/// The file that an asset is copied to.
pub fn asset_file_of(path: &str, config: &SiteConfig) -> (r: Result<String, PathError>)
    ensures
        match asset_file(
            config.build.assets@,
            config.build.output@,
            config.build.base_path@,
            path@,
        ) {
            Ok(file) => r is Ok && r->Ok_0@ == file,
            Err(e) => r == Err::<String, PathError>(e),
        },
{
    match strip_root(&chars_of(config.build.assets.as_str()), &chars_of(path)) {
        None => Err(PathError::OutsideRoot),
        Some(relative) => {
            let mut file = config.build.output.clone();
            let prefix = string_of(&base_prefix_chars(&chars_of(config.build.base_path.as_str())));
            file.append(prefix.as_str());
            file.append("/");
            proof {
                reveal_strlit("/");
                assert("/"@ =~= seq!['/']);
            }
            file.append(string_of(&relative).as_str());
            Ok(file)
        },
    }
}

/// Every page is reachable by the link that names its source: a rooted
/// link to the logical slug of a page, one that holds no `#` and does not
/// start with the name of a top-level asset, is rewritten to the URL of the
/// directory the page is published in.
pub proof fn lemma_link_reaches_page(
    slug: Seq<char>,
    base: Seq<char>,
    path_mode: SlugMode,
    fragment_mode: SlugMode,
    assets: Seq<Seq<char>>,
)
    requires
        !slug.contains('#'),
        kind_of(seq!['/'] + slug, assets) != LinkKind::Asset,
    ensures
        resolved(seq!['/'] + slug, base, path_mode, fragment_mode, assets) == page_url(
            slug,
            base,
            path_mode,
        ),
{
    let link = seq!['/'] + slug;
    assert(link[0] == '/');
    assert forall|j: int| 0 <= j < link.len() implies link[j] != '#' by {
        if j > 0 {
            assert(link[j] == slug[j - 1]);
            assert(slug.contains(slug[j - 1]));
        }
    }
    lemma_position_is(link, '#', link.len() as int);
    assert(link.subrange(0, link.len() as int) =~= link);
    assert(page_url(slug, base, path_mode) + Seq::<char>::empty() =~= page_url(
        slug,
        base,
        path_mode,
    ));
}

/// The published location of the stylesheet: where the CSS build is on and
/// its entry point lies below the assets root, the base prefix, `/`, and
/// the path of the entry point below that root.
pub open spec fn stylesheet_location(config: SiteConfig) -> Option<Seq<char>> {
    if config.build.tailwind.enable && config.build.tailwind.input is Some {
        match below(config.build.assets@, config.build.tailwind.input->0@) {
            Some(relative) => Some(base_prefix(config.build.base_path@) + seq!['/'] + relative),
            None => None,
        }
    } else {
        None
    }
}

/// The published location of the stylesheet.
pub fn stylesheet_href(config: &SiteConfig) -> (href: Option<String>)
    ensures
        match stylesheet_location(*config) {
            Some(location) => href is Some && href->0@ == location,
            None => href is None,
        },
{
    if !config.build.tailwind.enable {
        return None;
    }
    match &config.build.tailwind.input {
        None => None,
        Some(input) => {
            match strip_root(&chars_of(config.build.assets.as_str()), &chars_of(input.as_str())) {
                None => None,
                Some(relative) => {
                    let mut href = base_prefix_chars(&chars_of(config.build.base_path.as_str()));
                    href.push('/');
                    append_chars(&mut href, &relative);
                    Some(string_of(&href))
                },
            }
        },
    }
}

/// What the rewriting of the pages of a site depends on, taken from its
/// configuration and the names of the entries directly below its assets
/// root.
pub fn rewrite_context(config: &SiteConfig, asset_names: Vec<String>) -> (ctx: RewriteContext)
    ensures
        ctx.language@ == config.base.language@,
        ctx.title@ == config.base.title@,
        ctx.description@ == config.base.description@,
        match stylesheet_location(*config) {
            Some(location) => ctx.stylesheet is Some && ctx.stylesheet->0@ == location,
            None => ctx.stylesheet is None,
        },
        ctx.extract_images == (config.build.typst.svg.extract_type != ExtractSvgType::Embedded),
        ctx.links.base_path@ == config.build.base_path@,
        ctx.links.path_mode == config.build.slug.path,
        ctx.links.fragment_mode == config.build.slug.fragment,
        ctx.links.asset_names == asset_names,
{
    let extract_images = match config.build.typst.svg.extract_type {
        ExtractSvgType::Embedded => false,
        _ => true,
    };
    RewriteContext {
        language: config.base.language.clone(),
        title: config.base.title.clone(),
        description: config.base.description.clone(),
        stylesheet: stylesheet_href(config),
        extract_images,
        links: LinkContext {
            base_path: config.build.base_path.clone(),
            path_mode: config.build.slug.path,
            fragment_mode: config.build.slug.fragment,
            asset_names,
        },
    }
}

/// The URL of the directory a page file lies in: the file without the
/// output root in front and `/index.html` behind. None for a file that is
/// not `index.html` below the output root.
pub open spec fn directory_url(output_root: Seq<char>, page_file: Seq<char>) -> Option<Seq<char>> {
    if output_root.is_prefix_of(page_file) && "/index.html"@.is_suffix_of(page_file)
        && page_file.len() >= output_root.len() + "/index.html"@.len() {
        Some(page_file.subrange(output_root.len() as int, page_file.len() - "/index.html"@.len()))
    } else {
        None
    }
}

/// What the placing of the images of a page depends on.
///
/// None for a page file that is not `index.html` below the output root.
pub fn image_settings(config: &SiteConfig, page_file: &str) -> (r: Option<ImageSettings>)
    ensures
        match directory_url(config.build.output@, page_file@) {
            Some(url) => {
                &&& r matches Some(settings)
                &&& settings.page_url@ == url
                &&& settings.policy == config.build.typst.svg.extract_type
                &&& settings.threshold == config.get_inline_max_size_spec()
            },
            None => r is None,
        },
{
    let root = chars_of(config.build.output.as_str());
    let file = chars_of(page_file);
    let tail = chars_of("/index.html");
    if has_prefix(&file, &root) && has_suffix(&file, &tail) && file.len() - root.len()
        >= tail.len() {
        Some(
            ImageSettings {
                policy: config.build.typst.svg.extract_type,
                threshold: config.get_inline_max_size(),
                page_url: string_of(&slice_chars(&file, root.len(), file.len() - tail.len())),
            },
        )
    } else {
        None
    }
}

/// The command line that compiles a markup source to HTML on its standard
/// output: the configured compiler, the fixed options, the project root as
/// font path and as root, the source, and `-`.
pub open spec fn compile_args(config: SiteConfig, source: Seq<char>) -> Seq<Seq<char>> {
    let root = match config.build.root {
        Some(p) => p@,
        None => "./"@,
    };
    arg_views(config.build.typst.command@) + seq![
        "compile"@,
        "--features"@,
        "html"@,
        "--format"@,
        "html"@,
        "--font-path"@,
        root,
        "--root"@,
        root,
        source,
        "-"@,
    ]
}

/// Copies a list of strings.
pub fn copy_args(args: &Vec<String>) -> (out: Vec<String>)
    ensures
        arg_views(out@) == arg_views(args@),
{
    let mut out: Vec<String> = Vec::new();
    let mut i: usize = 0;
    while i < args.len()
        invariant
            i <= args.len(),
            arg_views(out@) == arg_views(args@).subrange(0, i as int),
        decreases args.len() - i,
    {
        let ghost before = arg_views(out@);
        let item = args[i].clone();
        out.push(item);
        assert(arg_views(out@) =~= before.push(args@[i as int]@));
        i = i + 1;
        assert(arg_views(out@) =~= arg_views(args@).subrange(0, i as int));
    }
    assert(arg_views(args@).subrange(0, args.len() as int) =~= arg_views(args@));
    out
}

/// The command line that compiles a markup source.
pub fn compile_command(config: &SiteConfig, source: &str) -> (args: Vec<String>)
    ensures
        arg_views(args@) == compile_args(*config, source@),
{
    let mut args = copy_args(&config.build.typst.command);
    let ghost command = arg_views(args@);
    let root = config.get_root();
    args.push("compile".to_owned());
    args.push("--features".to_owned());
    args.push("html".to_owned());
    args.push("--format".to_owned());
    args.push("html".to_owned());
    args.push("--font-path".to_owned());
    args.push(root.to_owned());
    args.push("--root".to_owned());
    args.push(root.to_owned());
    args.push(source.to_owned());
    args.push("-".to_owned());
    assert(arg_views(args@) =~= compile_args(*config, source@));
    args
}

/// What is done with an asset.
#[derive(Debug, Clone, PartialEq, Eq)]
pub enum AssetAction {
    /// It is copied byte for byte.
    Copy,
    /// The CSS build tool is run with these arguments.
    BuildCss(Vec<String>),
}

/// Tells whether an asset is built by the CSS tool: the tool is on, and the
/// asset is its entry point, a file that ends in `.css`.
pub open spec fn is_css_entry(config: SiteConfig, asset: Seq<char>) -> bool {
    &&& config.build.tailwind.enable
    &&& ".css"@.is_suffix_of(asset)
    &&& config.build.tailwind.input is Some
    &&& config.build.tailwind.input->0@ == asset
}

/// The command line of the CSS build: the configured tool, the entry point
/// as input, the output file, and `--minify` where pages are minified.
pub open spec fn css_args(config: SiteConfig, asset: Seq<char>, output_file: Seq<char>) -> Seq<
    Seq<char>,
> {
    let fixed = arg_views(config.build.tailwind.command@) + seq![
        "-i"@,
        asset,
        "-o"@,
        output_file,
    ];
    if config.build.minify {
        fixed.push("--minify"@)
    } else {
        fixed
    }
}

/// Decides what is done with an asset that goes to `output_file`.
pub fn asset_action(config: &SiteConfig, asset: &str, output_file: &str) -> (action: AssetAction)
    ensures
        is_css_entry(*config, asset@) ==> (action matches AssetAction::BuildCss(args) && arg_views(
            args@,
        ) == css_args(*config, asset@, output_file@)),
        !is_css_entry(*config, asset@) ==> action == AssetAction::Copy,
{
    let is_entry = config.build.tailwind.enable && has_suffix(&chars_of(asset), &chars_of(".css"))
        && match &config.build.tailwind.input {
        Some(input) => same_text(input.as_str(), asset),
        None => false,
    };
    if !is_entry {
        return AssetAction::Copy;
    }
    let mut args = copy_args(&config.build.tailwind.command);
    args.push("-i".to_owned());
    args.push(asset.to_owned());
    args.push("-o".to_owned());
    args.push(output_file.to_owned());
    if config.build.minify {
        args.push("--minify".to_owned());
    }
    assert(arg_views(args@) =~= css_args(*config, asset@, output_file@));
    AssetAction::BuildCss(args)
}

/// The minified form of a page, as `minify_html` computes it.
pub uninterp spec fn minified(html: Seq<u8>) -> Seq<u8>;

/// Minifies a page.
///
/// Trusted: the result of `minify_html::minify` under the default
/// configuration depends on the page alone; it is given the name
/// [`minified`].
#[verifier::external_body]
pub(crate) fn minify(html: &[u8]) -> (out: Vec<u8>)
    ensures
        out@ == minified(html@),
{
    minify_html::minify(html, &minify_html::Cfg::new())
}

/// The bytes a page is written as: minified where the configuration says
/// so, else as they are.
pub fn page_bytes(html: &str, config: &SiteConfig) -> (out: Vec<u8>)
    ensures
        out@ == if config.build.minify {
            minified(vstd::utf8::encode_utf8(html@))
        } else {
            vstd::utf8::encode_utf8(html@)
        },
{
    if config.build.minify {
        minify(html.as_bytes())
    } else {
        vstd::slice::slice_to_vec(html.as_bytes())
    }
}

} // verus!
