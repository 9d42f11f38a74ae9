//! Site configuration: the sections of the configuration file as plain data.

use vstd::prelude::*;
use crate::cli::Cli;
use crate::config_defaults;
use crate::size::{parse_size, size_bytes};

verus! {

/// How URL paths and fragments are turned into slugs.
#[derive(Debug, Clone, Copy, PartialEq, Eq, Structural)]
pub enum SlugMode {
    /// Normalise fully.
    On,
    /// Strip forbidden characters only.
    Safe,
    /// Leave the text as it is.
    No,
}

impl Default for SlugMode {
    fn default() -> (mode: SlugMode)
        ensures
            mode == SlugMode::Safe,
    {
        SlugMode::Safe
    }
}

/// How an embedded vector image leaves the page.
#[derive(Debug, Clone, Copy, PartialEq, Eq, Structural)]
pub enum ExtractSvgType {
    /// Rasterise with the built-in encoder.
    Builtin,
    /// Rasterise with ImageMagick.
    Magick,
    /// Rasterise with FFmpeg.
    Ffmpeg,
    /// Always keep a standalone vector file.
    JustSvg,
    /// Leave the image inline in the page.
    Embedded,
}

impl Default for ExtractSvgType {
    fn default() -> (kind: ExtractSvgType)
        ensures
            kind == ExtractSvgType::Embedded,
    {
        ExtractSvgType::Embedded
    }
}

/// The `[base]` section: what the site is and who writes it.
#[derive(Debug, Clone)]
pub struct BaseConfig {
    /// Site title.
    pub title: String,
    /// Author name.
    pub author: String,
    /// Author email.
    pub email: String,
    /// Site description.
    pub description: String,
    /// Base URL of the published site.
    pub url: Option<String>,
    /// Language tag of the pages.
    pub language: String,
    /// Copyright notice.
    pub copyright: String,
    /// Extra elements for the `<head>` of every page.
    pub head_extra: Vec<String>,
}

impl Default for BaseConfig {
    fn default() -> (r: BaseConfig)
        ensures
            default_base(r),
    {
        BaseConfig {
            title: String::new(),
            author: config_defaults::base::author(),
            email: config_defaults::base::email(),
            description: String::new(),
            url: config_defaults::base::url(),
            language: config_defaults::build::language(),
            copyright: String::new(),
            head_extra: Vec::new(),
        }
    }
}

/// The `[build.rss]` section.
#[derive(Debug, Clone)]
pub struct RssConfig {
    /// Whether a feed is generated.
    pub enable: bool,
    /// File the feed is written to.
    pub path: String,
}

impl Default for RssConfig {
    fn default() -> (r: RssConfig)
        ensures
            default_rss(r),
    {
        RssConfig { enable: config_defaults::disabled(), path: config_defaults::build::rss::path() }
    }
}

/// The `[build.slug]` section.
#[derive(Debug, Clone)]
pub struct SlugConfig {
    /// Policy for URL paths.
    pub path: SlugMode,
    /// Policy for fragments.
    pub fragment: SlugMode,
}

impl Default for SlugConfig {
    fn default() -> (r: SlugConfig)
        ensures
            default_slug(r),
    {
        SlugConfig {
            path: config_defaults::build::slug::default(),
            fragment: config_defaults::build::slug::on(),
        }
    }
}

/// The `[build.typst.svg]` section.
#[derive(Debug, Clone)]
pub struct TypstSvgConfig {
    /// How embedded vector images leave the page.
    pub extract_type: ExtractSvgType,
    /// Size below which an extracted image stays a vector file, such as
    /// `20KB` or `1MB`.
    pub inline_max_size: String,
}

impl Default for TypstSvgConfig {
    fn default() -> (r: TypstSvgConfig)
        ensures
            r.extract_type == ExtractSvgType::Embedded,
            r.inline_max_size@ == "20KB"@,
    {
        TypstSvgConfig {
            extract_type: config_defaults::build::typst::svg::extract_type(),
            inline_max_size: config_defaults::build::typst::svg::inline_max_size(),
        }
    }
}

/// The `[build.typst]` section.
#[derive(Debug, Clone)]
pub struct TypstConfig {
    /// Command line of the markup compiler.
    pub command: Vec<String>,
    /// Handling of embedded vector images.
    pub svg: TypstSvgConfig,
}

impl Default for TypstConfig {
    fn default() -> (r: TypstConfig)
        ensures
            default_typst(r),
    {
        TypstConfig {
            command: config_defaults::build::typst::command(),
            svg: TypstSvgConfig::default(),
        }
    }
}

/// The `[build.tailwind]` section.
#[derive(Debug, Clone)]
pub struct TailwindConfig {
    /// Whether the CSS build tool runs.
    pub enable: bool,
    /// The stylesheet entry point.
    pub input: Option<String>,
    /// Command line of the CSS build tool.
    pub command: Vec<String>,
}

impl Default for TailwindConfig {
    fn default() -> (r: TailwindConfig)
        ensures
            default_tailwind(r),
    {
        TailwindConfig {
            enable: false,
            input: config_defaults::build::tailwind::input(),
            command: config_defaults::build::tailwind::command(),
        }
    }
}

/// The `[build]` section.
#[derive(Debug, Clone)]
pub struct BuildConfig {
    /// Root directory of the project.
    pub root: Option<String>,
    /// URL prefix under which the site is served.
    pub base_path: String,
    /// Content directory.
    pub content: String,
    /// Output directory.
    pub output: String,
    /// Assets directory.
    pub assets: String,
    /// Whether pages are minified.
    pub minify: bool,
    /// Whether the output directory is cleared before a build.
    pub clear: bool,
    /// Feed settings.
    pub rss: RssConfig,
    /// Slug policies.
    pub slug: SlugConfig,
    /// Markup compiler settings.
    pub typst: TypstConfig,
    /// CSS build tool settings.
    pub tailwind: TailwindConfig,
}

impl Default for BuildConfig {
    fn default() -> (r: BuildConfig)
        ensures
            default_build(r),
    {
        let base_path = config_defaults::build::base_path();
        proof {
            reveal_strlit("");
        }
        BuildConfig {
            root: config_defaults::build::root(),
            base_path,
            content: config_defaults::build::content(),
            output: config_defaults::build::output(),
            assets: config_defaults::build::assets(),
            minify: true,
            clear: false,
            rss: RssConfig::default(),
            slug: SlugConfig::default(),
            typst: TypstConfig::default(),
            tailwind: TailwindConfig::default(),
        }
    }
}

/// The `[serve]` section.
#[derive(Debug, Clone)]
pub struct ServeConfig {
    /// Interface the preview server binds to.
    pub interface: String,
    /// Port the preview server listens on.
    pub port: u16,
    /// Whether sources are watched for changes.
    pub watch: bool,
}

impl Default for ServeConfig {
    fn default() -> (r: ServeConfig)
        ensures
            default_serve(r),
    {
        ServeConfig {
            interface: config_defaults::serve::interface(),
            port: config_defaults::serve::port(),
            watch: true,
        }
    }
}

/// The `[deploy.github]` section.
#[derive(Debug, Clone)]
pub struct GithubProvider {
    /// Repository URL.
    pub url: String,
    /// Branch to push to.
    pub branch: String,
    /// File that holds the access token.
    pub token_path: Option<String>,
}

impl Default for GithubProvider {
    fn default() -> (r: GithubProvider)
        ensures
            r.url@ == "https://github.com/alice/alice.github.io"@,
            r.branch@ == "main"@,
            r.token_path is None,
    {
        GithubProvider {
            url: config_defaults::deploy::github::url(),
            branch: config_defaults::deploy::github::branch(),
            token_path: config_defaults::deploy::github::token_path(),
        }
    }
}

/// The `[deploy.cloudflare]` section.
#[derive(Debug, Clone)]
pub struct CloudflareProvider {
    /// Provider identifier.
    pub provider: String,
}

impl Default for CloudflareProvider {
    fn default() -> (r: CloudflareProvider)
        ensures
            r.provider@ == "github"@,
    {
        CloudflareProvider { provider: config_defaults::deploy::provider() }
    }
}

/// The `[deploy.vercal]` section.
#[derive(Debug, Clone)]
pub struct VercalProvider {
    /// Provider identifier.
    pub provider: String,
}

impl Default for VercalProvider {
    fn default() -> (r: VercalProvider)
        ensures
            r.provider@ == "github"@,
    {
        VercalProvider { provider: config_defaults::deploy::provider() }
    }
}

/// The `[deploy]` section.
#[derive(Debug, Clone)]
pub struct DeployConfig {
    /// Name of the provider to publish to.
    pub provider: String,
    /// Whether the remote branch may be overwritten.
    pub force: bool,
    /// Settings for GitHub.
    pub github_provider: GithubProvider,
    /// Settings for Cloudflare.
    pub cloudflare_provider: CloudflareProvider,
    /// Settings for Vercel.
    pub vercal_provider: VercalProvider,
}

impl Default for DeployConfig {
    fn default() -> (r: DeployConfig)
        ensures
            default_deploy(r),
    {
        DeployConfig {
            provider: config_defaults::deploy::provider(),
            force: config_defaults::disabled(),
            github_provider: GithubProvider::default(),
            cloudflare_provider: CloudflareProvider::default(),
            vercal_provider: VercalProvider::default(),
        }
    }
}

/// The whole configuration of a site.
#[derive(Debug, Clone)]
pub struct SiteConfig {
    /// The command line this run was started with.
    pub cli: Option<Cli>,
    /// Basic information.
    pub base: BaseConfig,
    /// Build settings.
    pub build: BuildConfig,
    /// Preview server settings.
    pub serve: ServeConfig,
    /// Publishing settings.
    pub deploy: DeployConfig,
}

impl Default for SiteConfig {
    fn default() -> (r: SiteConfig)
        ensures
            default_site(r),
    {
        SiteConfig {
            cli: None,
            base: BaseConfig::default(),
            build: BuildConfig::default(),
            serve: ServeConfig::default(),
            deploy: DeployConfig::default(),
        }
    }
}

/// Tells whether a `[build.rss]` section holds the defaults.
pub open spec fn default_rss(c: RssConfig) -> bool {
    !c.enable && c.path@ == "feed.xml"@
}

/// Tells whether a `[build.slug]` section holds the defaults.
pub open spec fn default_slug(c: SlugConfig) -> bool {
    c.path == SlugMode::Safe && c.fragment == SlugMode::On
}

/// Tells whether a `[build.typst]` section holds the defaults.
pub open spec fn default_typst(c: TypstConfig) -> bool {
    &&& c.command@.len() == 1
    &&& c.command@[0]@ == "typst"@
    &&& c.svg.extract_type == ExtractSvgType::Embedded
    &&& c.svg.inline_max_size@ == "20KB"@
}

/// Tells whether a `[build.tailwind]` section holds the defaults.
pub open spec fn default_tailwind(c: TailwindConfig) -> bool {
    &&& !c.enable
    &&& c.input is None
    &&& c.command@.len() == 1
    &&& c.command@[0]@ == "tailwindcss"@
}

/// Tells whether a `[build]` section holds the defaults.
pub open spec fn default_build(c: BuildConfig) -> bool {
    &&& c.root is None
    &&& c.base_path@.len() == 0
    &&& c.content@ == "content"@
    &&& c.output@ == "public"@
    &&& c.assets@ == "assets"@
    &&& c.minify
    &&& !c.clear
    &&& default_rss(c.rss)
    &&& default_slug(c.slug)
    &&& default_typst(c.typst)
    &&& default_tailwind(c.tailwind)
}

/// Tells whether a `[serve]` section holds the defaults.
pub open spec fn default_serve(c: ServeConfig) -> bool {
    c.interface@ == "127.0.0.1"@ && c.port == 5277 && c.watch
}

/// Tells whether a `[deploy]` section holds the defaults.
pub open spec fn default_deploy(c: DeployConfig) -> bool {
    &&& c.provider@ == "github"@
    &&& !c.force
    &&& c.github_provider.url@ == "https://github.com/alice/alice.github.io"@
    &&& c.github_provider.branch@ == "main"@
    &&& c.github_provider.token_path is None
    &&& c.cloudflare_provider.provider@ == "github"@
    &&& c.vercal_provider.provider@ == "github"@
}

/// Tells whether a `[base]` section holds the defaults.
pub open spec fn default_base(c: BaseConfig) -> bool {
    &&& c.title@.len() == 0
    &&& c.author@ == "<YOUR_NAME>"@
    &&& c.email@ == "user@noreply.tola"@
    &&& c.description@.len() == 0
    &&& c.url is None
    &&& c.language@ == "zh-Hans"@
    &&& c.copyright@.len() == 0
    &&& c.head_extra@.len() == 0
}

/// Tells whether a configuration holds the defaults throughout.
pub open spec fn default_site(c: SiteConfig) -> bool {
    &&& c.cli is None
    &&& default_base(c.base)
    &&& default_build(c.build)
    &&& default_serve(c.serve)
    &&& default_deploy(c.deploy)
}

impl SiteConfig {
    /// The root directory of the project: the configured one, or the current
    /// directory.
    pub fn get_root(&self) -> (root: &str)
        ensures
            root@ == (match self.build.root {
                Some(p) => p@,
                None => "./"@,
            }),
    {
        match &self.build.root {
            Some(p) => p.as_str(),
            None => "./",
        }
    }

    /// Sets the root directory of the project.
    pub fn set_root(&mut self, path: &str)
        ensures
            final(self).build.root is Some,
            final(self).build.root->0@ == path@,
            *final(self) == (SiteConfig {
                build: BuildConfig { root: final(self).build.root, ..old(self).build },
                ..*old(self)
            }),
    {
        self.build.root = Some(path.to_owned());
    }

    /// The size from which an extracted image is rasterised, in bytes: the
    /// configured size, or the largest machine word where it exceeds that.
    pub open spec fn get_inline_max_size_spec(&self) -> usize {
        if size_bytes(self.build.typst.svg.inline_max_size@) <= usize::MAX {
            size_bytes(self.build.typst.svg.inline_max_size@) as usize
        } else {
            usize::MAX
        }
    }

    /// The size from which an extracted image is rasterised, in bytes.
    pub fn get_inline_max_size(&self) -> (bytes: usize)
        ensures
            bytes == self.get_inline_max_size_spec(),
    {
        parse_size(self.build.typst.svg.inline_max_size.as_str())
    }

    /// The command line this run was started with.
    pub fn get_cli(&self) -> (cli: &Cli)
        requires
            self.cli is Some,
        ensures
            *cli == self.cli->0,
    {
        self.cli.as_ref().unwrap()
    }
}

} // verus!
