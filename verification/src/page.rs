//! The transform of one source file: a markup source becomes a page, an
//! asset becomes a copy or a built stylesheet.

use vstd::prelude::*;
use crate::config::SiteConfig;
use crate::content::{
    asset_action, asset_file, asset_file_of, css_args, directory_url, image_settings, is_css_entry,
    minified, page_bytes, page_file, page_file_of, AssetAction, PathError,
};
use crate::text::arg_views;
use crate::diagnostics::{filter_diagnostics, surfaced_diagnostics};
use crate::image::{
    assemble, extracted, image_count, image_views, page_text, ExtractedImage, ImageSettings,
    Measured,
};
use crate::markup::parsed_events;
use crate::rewrite::{piece_views, rewrite_html, rewritten, Piece, RewriteContext, RewriteError};
use vstd::utf8::encode_utf8;

verus! {

/// Why the transform of a file failed.
#[derive(Debug, Clone, PartialEq, Eq)]
pub enum TransformError {
    /// The path of the source has not the expected shape.
    Path(PathError),
    /// The compiler failed; the text is what it printed, filtered.
    Compile(String),
    /// The compiled page could not be rewritten.
    Rewrite(RewriteError),
    /// The images handed back are not those of the page.
    Images,
}

/// What the compiler left: whether it succeeded, and its two streams.
#[derive(Debug, Clone, PartialEq, Eq)]
pub struct Compiled {
    /// Whether the compiler exited with success.
    pub success: bool,
    /// The compiled page.
    pub stdout: Vec<u8>,
    /// Its diagnostics.
    pub stderr: String,
}

/// A page after rewriting, before its images are measured.
#[derive(Debug, Clone, PartialEq, Eq)]
pub struct PageDraft {
    /// The markup source.
    pub source: String,
    /// The file the page is written to.
    pub output: String,
    /// The rewritten page, with a place for each lifted image.
    pub pieces: Vec<Piece>,
}

/// A page ready to be written.
#[derive(Debug, Clone, PartialEq, Eq)]
pub struct PageResult {
    /// The markup source.
    pub source: String,
    /// The file the page is written to.
    pub output: String,
    /// The bytes of the page.
    pub bytes: Vec<u8>,
    /// The images to be written beside it.
    pub images: Vec<ExtractedImage>,
}

/// Takes a markup source and what the compiler made of it to a draft of
/// its page: resolves the output file, surfaces a compiler failure with its
/// filtered diagnostics, and rewrites the compiled page.
pub fn draft_page(path: &str, compiled: &Compiled, config: &SiteConfig, ctx: &RewriteContext) -> (r:
    Result<PageDraft, TransformError>)
    ensures
        ({
            let file = page_file(
                config.build.content@,
                config.build.output@,
                config.build.base_path@,
                config.build.slug.path,
                path@,
            );
            let pieces = rewritten(parsed_events(compiled.stdout@), *ctx);
            if file is Err {
                r == Err::<PageDraft, TransformError>(TransformError::Path(file->Err_0))
            } else if !compiled.success {
                r matches Err(TransformError::Compile(text)) && text@ == surfaced_diagnostics(
                    compiled.stderr@,
                )
            } else if pieces is Err {
                r == Err::<PageDraft, TransformError>(TransformError::Rewrite(pieces->Err_0))
            } else {
                &&& r matches Ok(draft)
                &&& draft.source@ == path@
                &&& draft.output@ == file->Ok_0
                &&& piece_views(draft.pieces@) == pieces->Ok_0
            }
        }),
{
    let output = match page_file_of(path, config) {
        Err(e) => {
            return Err(TransformError::Path(e));
        },
        Ok(output) => output,
    };
    if !compiled.success {
        return Err(TransformError::Compile(filter_diagnostics(compiled.stderr.as_str())));
    }
    match rewrite_html(compiled.stdout.as_slice(), ctx) {
        Err(e) => Err(TransformError::Rewrite(e)),
        Ok(pieces) => Ok(PageDraft { source: path.to_owned(), output, pieces }),
    }
}

/// Takes a draft and its measured images to the page that is written:
/// fills the image places, lists the images that leave the page, and
/// minifies the page where the configuration says so.
///
/// Fails where the measured images are not as many as the image places, or
/// the output file of the draft is not the `index.html` of a directory
/// below the output root.
pub fn finish_page(draft: PageDraft, measured: &Vec<Measured>, config: &SiteConfig) -> (r: Result<
    PageResult,
    TransformError,
>)
    ensures
        ({
            let url = directory_url(config.build.output@, draft.output@);
            let complete = url is Some && measured@.len() == image_count(
                piece_views(draft.pieces@),
            );
            &&& !complete ==> r == Err::<PageResult, TransformError>(TransformError::Images)
            &&& complete ==> {
                &&& r matches Ok(page)
                &&& page.source == draft.source
                &&& page.output == draft.output
                &&& exists|settings: ImageSettings|
                    {
                        &&& settings.page_url@ == url->0
                        &&& settings.policy == config.build.typst.svg.extract_type
                        &&& settings.threshold == config.get_inline_max_size_spec()
                        &&& image_views(page.images@) == extracted(
                            piece_views(draft.pieces@),
                            measured@,
                            settings,
                        )
                        &&& page.bytes@ == if config.build.minify {
                            minified(
                                encode_utf8(
                                    page_text(piece_views(draft.pieces@), measured@, settings),
                                ),
                            )
                        } else {
                            encode_utf8(page_text(piece_views(draft.pieces@), measured@, settings))
                        }
                    }
            }
        }),
{
    let settings = match image_settings(config, draft.output.as_str()) {
        None => {
            return Err(TransformError::Images);
        },
        Some(settings) => settings,
    };
    match assemble(&draft.pieces, measured, &settings) {
        None => Err(TransformError::Images),
        Some((html, images)) => {
            let bytes = page_bytes(html.as_str(), config);
            Ok(PageResult { source: draft.source, output: draft.output, bytes, images })
        },
    }
}

/// What is done with one asset.
#[derive(Debug, Clone, PartialEq, Eq)]
pub struct AssetPlan {
    /// The file the asset goes to; a file that is there already is removed
    /// first.
    pub output: String,
    /// Whether to wait until the source has stopped growing.
    pub wait_until_stable: bool,
    /// Whether the asset is copied or built.
    pub action: AssetAction,
}

/// Plans the transform of one asset: its output file mirrors its path below
/// the assets root; the source is waited for where the transform was
/// started by a change of the file; the CSS entry point is built, any other
/// asset copied.
pub fn plan_asset(path: &str, config: &SiteConfig, should_wait_until_stable: bool) -> (r: Result<
    AssetPlan,
    PathError,
>)
    ensures
        ({
            let file = asset_file(
                config.build.assets@,
                config.build.output@,
                config.build.base_path@,
                path@,
            );
            match file {
                Err(e) => r == Err::<AssetPlan, PathError>(e),
                Ok(output) => {
                    &&& r matches Ok(plan)
                    &&& plan.output@ == output
                    &&& plan.wait_until_stable == should_wait_until_stable
                    &&& is_css_entry(*config, path@) ==> (plan.action matches AssetAction::BuildCss(
                        args,
                    ) && arg_views(args@) == css_args(*config, path@, output))
                    &&& !is_css_entry(*config, path@) ==> plan.action == AssetAction::Copy
                },
            }
        }),
{
    match asset_file_of(path, config) {
        Err(e) => Err(e),
        Ok(output) => {
            let action = asset_action(config, path, output.as_str());
            Ok(AssetPlan { output, wait_until_stable: should_wait_until_stable, action })
        },
    }
}

/// The names of the entries directly below the assets root, read once and
/// kept for every page.
#[derive(Debug, Clone)]
pub struct TopLevelAssetNames {
    names: Option<Vec<String>>,
}

impl TopLevelAssetNames {
    /// The names, once they were read.
    pub closed spec fn names(&self) -> Option<Vec<String>> {
        self.names
    }

    /// A cache that holds no names yet.
    pub fn new() -> (cache: Self)
        ensures
            cache.names() is None,
    {
        TopLevelAssetNames { names: None }
    }

    /// Tells whether the names were read.
    pub fn is_ready(&self) -> (b: bool)
        ensures
            b == (self.names() is Some),
    {
        self.names.is_some()
    }

    /// Hands the names that were read to the cache. The first reading
    /// stays: a later one changes nothing.
    pub fn fill(&mut self, found: Vec<String>)
        ensures
            old(self).names() is Some ==> final(self).names() == old(self).names(),
            old(self).names() is None ==> final(self).names() == Some(found),
    {
        if self.names.is_none() {
            self.names = Some(found);
        }
    }

    /// The names that were read.
    pub fn get(&self) -> (names: &Vec<String>)
        requires
            self.names() is Some,
        ensures
            *names == self.names()->0,
    {
        self.names.as_ref().unwrap()
    }
}

/// What to do with the output directory before a build.
#[derive(Debug, Clone, Copy, PartialEq, Eq, Structural)]
pub enum RepoAction {
    /// Remove the directory and create a repository in its place.
    ClearAndCreate,
    /// Open the repository that is there, and create one where there is
    /// none.
    OpenOrCreate,
    /// Create the directory with a repository in it.
    Create,
}

/// Decides what to do with the output directory before a build.
pub fn repo_action(output_exists: bool, should_clear: bool) -> (action: RepoAction)
    ensures
        action == if !output_exists {
            RepoAction::Create
        } else if should_clear {
            RepoAction::ClearAndCreate
        } else {
            RepoAction::OpenOrCreate
        },
{
    if !output_exists {
        RepoAction::Create
    } else if should_clear {
        RepoAction::ClearAndCreate
    } else {
        RepoAction::OpenOrCreate
    }
}

} // verus!
