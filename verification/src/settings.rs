//! Bringing the command line into the configuration, and checking the
//! result before a command runs.

use vstd::prelude::*;
use crate::cli::{Cli, Commands};
use crate::config::{
    BaseConfig, BuildConfig, DeployConfig, ServeConfig, SiteConfig, TailwindConfig, TypstConfig,
    TypstSvgConfig,
};
use crate::image::{decimal, decimal_chars};
use crate::text::{chars_of, has_prefix, has_suffix, string_of};
use vstd::string::*;

verus! {

/// A path below a directory, as paths are joined: an absolute path stays as
/// it is; a relative one follows the directory and a `/`.
pub open spec fn joined(root: Seq<char>, path: Seq<char>) -> Seq<char> {
    if path.len() > 0 && path[0] == '/' {
        path
    } else if root.len() == 0 {
        path
    } else if root.last() == '/' {
        root + path
    } else {
        root + seq!['/'] + path
    }
}

/// Joins a path to a directory.
pub fn join_path(root: &str, path: &str) -> (out: String)
    ensures
        out@ == joined(root@, path@),
{
    let r = chars_of(root);
    let p = chars_of(path);
    if p.len() > 0 && p[0] == '/' {
        path.to_owned()
    } else if r.len() == 0 {
        path.to_owned()
    } else {
        let mut out = root.to_owned();
        if r[r.len() - 1] != '/' {
            out.append("/");
            proof {
                reveal_strlit("/");
                assert("/"@ =~= seq!['/']);
            }
        }
        out.append(path);
        out
    }
}

/// The value an option of the command line gives a setting: its own where
/// it is given, else the one the setting has.
pub open spec fn picked(option: Option<String>, setting: Seq<char>) -> Seq<char> {
    match option {
        Some(value) => value@,
        None => setting,
    }
}

/// The upper-case form of a text, as the standard library computes it.
pub uninterp spec fn uppercased(s: Seq<char>) -> Seq<char>;

/// Turns a text to upper case.
///
/// Trusted: the result of `str::to_uppercase` depends on the text alone; it
/// is given the name [`uppercased`].
#[verifier::external_body]
pub(crate) fn uppercase(s: &str) -> (out: String)
    ensures
        out@ == uppercased(s@),
{
    s.to_uppercase()
}

/// What expanding a leading `~` may give: a path that does not start with
/// `~` is kept; one that does is kept too, or its `~` gives way to the home
/// directory.
pub open spec fn expands_to(path: Seq<char>, out: Seq<char>) -> bool {
    if path.len() > 0 && path[0] == '~' {
        out == path || path.drop_first().is_suffix_of(out)
    } else {
        out == path
    }
}

/// Expands a leading `~` to the home directory of the user.
///
/// Trusted: `shellexpand::tilde` keeps a path that does not start with `~`;
/// one that does it keeps as well, or it puts the home directory of the
/// user, whatever that is, in the place of the `~`.
#[verifier::external_body]
pub(crate) fn expand_tilde(path: &str) -> (out: String)
    ensures
        expands_to(path@, out@),
{
    shellexpand::tilde(path).into_owned()
}

/// Where an expanded token path lies: below the root where it is relative.
pub open spec fn placed(expanded: Seq<char>, root: Seq<char>) -> Seq<char> {
    joined(root, expanded)
}

/// Tells whether the parts of a configuration that no path setting touches
/// are the same in both.
pub open spec fn same_but_paths(a: SiteConfig, b: SiteConfig) -> bool {
    &&& a.cli == b.cli
    &&& a.base == b.base
    &&& a.serve == b.serve
    &&& a.build.base_path == b.build.base_path
    &&& a.build.minify == b.build.minify
    &&& a.build.clear == b.build.clear
    &&& a.build.rss.enable == b.build.rss.enable
    &&& a.build.slug == b.build.slug
    &&& a.build.typst == b.build.typst
    &&& a.build.tailwind.enable == b.build.tailwind.enable
    &&& a.build.tailwind.command == b.build.tailwind.command
    &&& a.deploy.provider == b.deploy.provider
    &&& a.deploy.force == b.deploy.force
    &&& a.deploy.github_provider.url == b.deploy.github_provider.url
    &&& a.deploy.github_provider.branch == b.deploy.github_provider.branch
    &&& a.deploy.cloudflare_provider == b.deploy.cloudflare_provider
    &&& a.deploy.vercal_provider == b.deploy.vercal_provider
}

/// Tells whether the paths of `after` are those of `before` put below
/// `root`, with the directories that the command line names in the place of
/// the configured ones.
pub open spec fn paths_rooted(before: SiteConfig, after: SiteConfig, cli: Cli, root: Seq<char>) -> bool {
    &&& after.build.root is Some
    &&& after.build.root->0@ == root
    &&& after.build.content@ == joined(root, picked(cli.content, before.build.content@))
    &&& after.build.assets@ == joined(root, picked(cli.assets, before.build.assets@))
    &&& after.build.output@ == joined(root, picked(cli.output, before.build.output@))
    &&& after.build.rss.path@ == joined(after.build.output@, before.build.rss.path@)
    &&& if before.build.tailwind.enable && before.build.tailwind.input is Some {
        after.build.tailwind.input is Some && after.build.tailwind.input->0@ == joined(
            root,
            before.build.tailwind.input->0@,
        )
    } else {
        after.build.tailwind.input == before.build.tailwind.input
    }
    &&& match before.deploy.github_provider.token_path {
        None => after.deploy.github_provider.token_path is None,
        Some(token) => after.deploy.github_provider.token_path is Some && exists|
            expanded: Seq<char>,
        |
            #[trigger] expands_to(token@, expanded) && after.deploy.github_provider.token_path->0@
                == placed(expanded, root),
    }
}

impl SiteConfig {
    /// Puts every path of the configuration below `root`, after the
    /// directories that the command line names have taken the place of the
    /// configured ones.
    pub fn update_path_with_root(&mut self, root: &str)
        requires
            old(self).cli is Some,
        ensures
            same_but_paths(*old(self), *final(self)),
            paths_rooted(*old(self), *final(self), old(self).cli->0, root@),
    {
        let ghost before = *self;
        self.build.root = Some(root.to_owned());
        let content = match &self.cli.as_ref().unwrap().content {
            Some(value) => join_path(root, value.as_str()),
            None => join_path(root, self.build.content.as_str()),
        };
        let assets = match &self.cli.as_ref().unwrap().assets {
            Some(value) => join_path(root, value.as_str()),
            None => join_path(root, self.build.assets.as_str()),
        };
        let output = match &self.cli.as_ref().unwrap().output {
            Some(value) => join_path(root, value.as_str()),
            None => join_path(root, self.build.output.as_str()),
        };
        let feed = join_path(output.as_str(), self.build.rss.path.as_str());
        self.build.content = content;
        self.build.assets = assets;
        self.build.output = output;
        self.build.rss.path = feed;
        if self.build.tailwind.enable {
            let input = match &self.build.tailwind.input {
                Some(input) => Some(join_path(root, input.as_str())),
                None => None,
            };
            self.build.tailwind.input = input;
        }
        let token = match &self.deploy.github_provider.token_path {
            Some(token) => {
                let expanded = expand_tilde(token.as_str());
                let at = join_path(root, expanded.as_str());
                assert(expands_to(token@, expanded@) && at@ == placed(expanded@, root@));
                Some(at)
            },
            None => None,
        };
        self.deploy.github_provider.token_path = token;
    }
}

/// The value a switch of the command line gives a setting.
pub open spec fn switched(option: Option<bool>, setting: bool) -> bool {
    match option {
        Some(value) => value,
        None => setting,
    }
}

/// The root a run starts from: that of the command line, else the
/// configured one, else the current directory.
pub open spec fn first_root(config: SiteConfig, cli: Cli) -> Seq<char> {
    match cli.root {
        Some(root) => root@,
        None => match config.build.root {
            Some(root) => root@,
            None => "./"@,
        },
    }
}

/// Tells whether `after` is `before` with the switches of the command line
/// applied and the size of inline images in upper case.
pub open spec fn switches_applied(before: SiteConfig, after: SiteConfig, cli: Cli) -> bool {
    &&& after == (SiteConfig {
        build: BuildConfig {
            minify: switched(cli.minify, before.build.minify),
            tailwind: TailwindConfig {
                enable: switched(cli.tailwind, before.build.tailwind.enable),
                ..before.build.tailwind
            },
            typst: TypstConfig {
                svg: TypstSvgConfig {
                    inline_max_size: after.build.typst.svg.inline_max_size,
                    ..before.build.typst.svg
                },
                ..before.build.typst
            },
            ..before.build
        },
        ..before
    })
    &&& after.build.typst.svg.inline_max_size@ == uppercased(
        before.build.typst.svg.inline_max_size@,
    )
}

/// The URL the preview server is reached at.
pub open spec fn preview_url(interface: Seq<char>, port: u16) -> Seq<char> {
    "http://"@ + interface + ":"@ + decimal(port as nat)
}

/// Tells whether `after` is `before` with the options of the command
/// applied: a named new site moves every path below its directory; the
/// preview server takes its interface, port and watch switch, and its URL
/// becomes the base URL; publishing takes its force switch.
pub open spec fn command_applied(before: SiteConfig, after: SiteConfig, cli: Cli) -> bool {
    match cli.command {
        Commands::Init { name: Some(name) } => {
            &&& before.build.root is Some
            &&& same_but_paths(before, after)
            &&& paths_rooted(before, after, cli, joined(before.build.root->0@, name@))
        },
        Commands::Serve { interface, port, watch } => {
            &&& after == (SiteConfig {
                serve: ServeConfig {
                    interface: after.serve.interface,
                    port: match port {
                        Some(p) => p,
                        None => before.serve.port,
                    },
                    watch: switched(watch, before.serve.watch),
                },
                base: BaseConfig { url: after.base.url, ..before.base },
                ..before
            })
            &&& after.serve.interface@ == picked(interface, before.serve.interface@)
            &&& after.base.url is Some
            &&& after.base.url->0@ == preview_url(after.serve.interface@, after.serve.port)
        },
        Commands::Deploy { force } => {
            after == (SiteConfig {
                deploy: DeployConfig {
                    force: switched(force, before.deploy.force),
                    ..before.deploy
                },
                ..before
            })
        },
        _ => after == before,
    }
}

impl SiteConfig {
    /// Applies the switches of the command line, and writes the size of
    /// inline images in upper case.
    pub fn apply_switches(&mut self)
        requires
            old(self).cli is Some,
        ensures
            switches_applied(*old(self), *final(self), old(self).cli->0),
    {
        let minify = self.cli.as_ref().unwrap().minify;
        let tailwind = self.cli.as_ref().unwrap().tailwind;
        match minify {
            Some(value) => {
                self.build.minify = value;
            },
            None => {},
        }
        match tailwind {
            Some(value) => {
                self.build.tailwind.enable = value;
            },
            None => {},
        }
        let size = uppercase(self.build.typst.svg.inline_max_size.as_str());
        self.build.typst.svg.inline_max_size = size;
    }

    /// Applies the options of the command.
    pub fn apply_command(&mut self)
        requires
            old(self).cli is Some,
            old(self).build.root is Some,
        ensures
            command_applied(*old(self), *final(self), old(self).cli->0),
    {
        let new_root: Option<String> = match &self.cli.as_ref().unwrap().command {
            Commands::Init { name: Some(name) } => Some(
                join_path(self.build.root.as_ref().unwrap().as_str(), name.as_str()),
            ),
            _ => None,
        };
        let serve: Option<(Option<String>, Option<u16>, Option<bool>)> = match &self.cli.as_ref().unwrap().command {
            Commands::Serve { interface, port, watch } => Some((interface.clone(), *port, *watch)),
            _ => None,
        };
        let force: Option<bool> = match &self.cli.as_ref().unwrap().command {
            Commands::Deploy { force } => *force,
            _ => None,
        };
        match new_root {
            Some(root) => {
                self.update_path_with_root(root.as_str());
            },
            None => {},
        }
        match serve {
            Some((interface, port, watch)) => {
                match interface {
                    Some(value) => {
                        self.serve.interface = value;
                    },
                    None => {},
                }
                match port {
                    Some(value) => {
                        self.serve.port = value;
                    },
                    None => {},
                }
                match watch {
                    Some(value) => {
                        self.serve.watch = value;
                    },
                    None => {},
                }
                let mut url = "http://".to_owned();
                url.append(self.serve.interface.as_str());
                url.append(":");
                url.append(string_of(&decimal_chars(self.serve.port as u64)).as_str());
                self.base.url = Some(url);
            },
            None => {},
        }
        match force {
            Some(value) => {
                self.deploy.force = value;
            },
            None => {},
        }
    }

    /// Brings the command line into the configuration: puts the paths below
    /// the root, applies the switches, and then the options of the command.
    pub fn update_with_cli(&mut self, cli: Cli)
        ensures
            exists|rooted: SiteConfig, switched: SiteConfig|
                {
                    &&& same_but_paths(
                        SiteConfig { cli: Some(cli), ..*old(self) },
                        rooted,
                    )
                    &&& paths_rooted(
                        SiteConfig { cli: Some(cli), ..*old(self) },
                        rooted,
                        cli,
                        first_root(*old(self), cli),
                    )
                    &&& switches_applied(rooted, switched, cli)
                    &&& command_applied(switched, *final(self), cli)
                },
    {
        let root = match &cli.root {
            Some(root) => root.clone(),
            None => self.get_root().to_owned(),
        };
        self.cli = Some(cli);
        self.update_path_with_root(root.as_str());
        let ghost rooted = *self;
        self.apply_switches();
        let ghost switched = *self;
        self.apply_command();
        assert(switches_applied(rooted, switched, cli));
        assert(command_applied(switched, *self, cli));
    }
}

/// What the file system and the search path say about a configuration.
#[derive(Debug, Clone, Copy, PartialEq, Eq, Structural)]
pub struct Probes {
    /// Whether the configuration file is there.
    pub config_file_exists: bool,
    /// Whether the first word of the compiler command is found.
    pub typst_found: bool,
    /// Whether the first word of the CSS tool command is found.
    pub tailwind_found: bool,
    /// Whether the CSS entry point is there.
    pub tailwind_input_exists: bool,
    /// Whether the CSS entry point is a file.
    pub tailwind_input_is_file: bool,
    /// Whether the root directory is there.
    pub root_exists: bool,
    /// Whether the token file is there.
    pub token_exists: bool,
    /// Whether the token file is a file.
    pub token_is_file: bool,
}

/// What is wrong with a configuration.
#[derive(Debug, Clone, Copy, PartialEq, Eq, Structural)]
pub enum ConfigIssue {
    /// The configuration file is not there.
    ConfigFileNotFound,
    /// A feed is asked for, but the site has no base URL.
    FeedNeedsUrl,
    /// The compiler command is empty.
    TypstCommandEmpty,
    /// The compiler is not installed.
    TypstNotFound,
    /// The base URL does not start with `http`.
    UrlScheme,
    /// The CSS tool command is empty.
    TailwindCommandEmpty,
    /// The CSS tool is not installed.
    TailwindNotFound,
    /// The CSS build is on, but has no entry point.
    TailwindInputUnset,
    /// The CSS entry point is not there.
    TailwindInputNotFound,
    /// The CSS entry point is not a file.
    TailwindInputNotFile,
    /// The size of inline images does not end in `B`, `KB` or `MB`.
    SizeSuffix,
    /// The directory of the new site is there already.
    PathExists,
    /// The token file is not there.
    TokenNotFound,
    /// The token file is not a file.
    TokenNotFile,
}

/// An error of the configuration.
#[derive(Debug, Clone, PartialEq, Eq)]
pub enum ConfigError {
    /// The file at the given path could not be read.
    Io(String),
    /// The file could not be parsed; the text says why.
    Toml(String),
    /// A setting is not valid; the text says which.
    Validation(String),
}

/// The first thing wrong with the tools of the CSS build, where it is on.
pub open spec fn tailwind_issue(config: SiteConfig, probes: Probes) -> Option<ConfigIssue> {
    if !config.build.tailwind.enable {
        None
    } else if config.build.tailwind.command@.len() == 0 {
        Some(ConfigIssue::TailwindCommandEmpty)
    } else if !probes.tailwind_found {
        Some(ConfigIssue::TailwindNotFound)
    } else if config.build.tailwind.input is None {
        Some(ConfigIssue::TailwindInputUnset)
    } else if !probes.tailwind_input_exists {
        Some(ConfigIssue::TailwindInputNotFound)
    } else if !probes.tailwind_input_is_file {
        Some(ConfigIssue::TailwindInputNotFile)
    } else {
        None
    }
}

/// The first thing wrong for the command that runs.
pub open spec fn command_issue(config: SiteConfig, cli: Cli, probes: Probes) -> Option<ConfigIssue> {
    match cli.command {
        Commands::Init { name } => if probes.root_exists {
            Some(ConfigIssue::PathExists)
        } else {
            None
        },
        Commands::Deploy { force } => if config.deploy.github_provider.token_path is Some
            && !probes.token_exists {
            Some(ConfigIssue::TokenNotFound)
        } else if config.deploy.github_provider.token_path is Some && !probes.token_is_file {
            Some(ConfigIssue::TokenNotFile)
        } else {
            None
        },
        _ => None,
    }
}

/// The first thing wrong with a configuration, in the order the checks are
/// made; none for a configuration that is valid.
pub open spec fn first_issue(config: SiteConfig, cli: Cli, probes: Probes) -> Option<ConfigIssue> {
    if !probes.config_file_exists {
        Some(ConfigIssue::ConfigFileNotFound)
    } else if config.build.rss.enable && config.base.url is None {
        Some(ConfigIssue::FeedNeedsUrl)
    } else if config.build.typst.command@.len() == 0 {
        Some(ConfigIssue::TypstCommandEmpty)
    } else if !probes.typst_found {
        Some(ConfigIssue::TypstNotFound)
    } else if config.base.url is Some && !"http"@.is_prefix_of(config.base.url->0@) {
        Some(ConfigIssue::UrlScheme)
    } else if tailwind_issue(config, probes) is Some {
        tailwind_issue(config, probes)
    } else if !"B"@.is_suffix_of(config.build.typst.svg.inline_max_size@) {
        Some(ConfigIssue::SizeSuffix)
    } else {
        command_issue(config, cli, probes)
    }
}

impl SiteConfig {
    /// Checks the configuration for the command that runs, given what the
    /// file system and the search path say.
    pub fn validate(&self, probes: &Probes) -> (r: Result<(), ConfigIssue>)
        requires
            self.cli is Some,
        ensures
            match first_issue(*self, self.cli->0, *probes) {
                Some(issue) => r == Err::<(), ConfigIssue>(issue),
                None => r is Ok,
            },
    {
        if !probes.config_file_exists {
            return Err(ConfigIssue::ConfigFileNotFound);
        }
        if self.build.rss.enable && self.base.url.is_none() {
            return Err(ConfigIssue::FeedNeedsUrl);
        }
        if self.build.typst.command.len() == 0 {
            return Err(ConfigIssue::TypstCommandEmpty);
        }
        if !probes.typst_found {
            return Err(ConfigIssue::TypstNotFound);
        }
        match &self.base.url {
            Some(url) => {
                if !has_prefix(&chars_of(url.as_str()), &chars_of("http")) {
                    return Err(ConfigIssue::UrlScheme);
                }
            },
            None => {},
        }
        if self.build.tailwind.enable {
            if self.build.tailwind.command.len() == 0 {
                return Err(ConfigIssue::TailwindCommandEmpty);
            }
            if !probes.tailwind_found {
                return Err(ConfigIssue::TailwindNotFound);
            }
            if self.build.tailwind.input.is_none() {
                return Err(ConfigIssue::TailwindInputUnset);
            }
            if !probes.tailwind_input_exists {
                return Err(ConfigIssue::TailwindInputNotFound);
            }
            if !probes.tailwind_input_is_file {
                return Err(ConfigIssue::TailwindInputNotFile);
            }
        }
        if !has_suffix(
            &chars_of(self.build.typst.svg.inline_max_size.as_str()),
            &chars_of("B"),
        ) {
            return Err(ConfigIssue::SizeSuffix);
        }
        let has_token = self.deploy.github_provider.token_path.is_some();
        match &self.cli.as_ref().unwrap().command {
            Commands::Init { .. } => {
                if probes.root_exists {
                    return Err(ConfigIssue::PathExists);
                }
            },
            Commands::Deploy { .. } => {
                if has_token && !probes.token_exists {
                    return Err(ConfigIssue::TokenNotFound);
                }
                if has_token && !probes.token_is_file {
                    return Err(ConfigIssue::TokenNotFile);
                }
            },
            _ => {},
        }
        Ok(())
    }
}

/// What the user is told about an issue.
pub open spec fn issue_text(issue: ConfigIssue) -> Seq<char> {
    match issue {
        ConfigIssue::ConfigFileNotFound => "Config file not found"@,
        ConfigIssue::FeedNeedsUrl => "[base.url] is required for RSS generation"@,
        ConfigIssue::TypstCommandEmpty => "[build.typst.command] must have at least one element"@,
        ConfigIssue::TypstNotFound => "[build.typst.command] not found. Please install it first."@,
        ConfigIssue::UrlScheme => "[base.url] must start with http:// or https://"@,
        ConfigIssue::TailwindCommandEmpty => "[build.tailwind.command] must have at least one element"@,
        ConfigIssue::TailwindNotFound => "[build.tailwind.command] not found. Please install it first."@,
        ConfigIssue::TailwindInputUnset => "[build.tailwind.enable] = true requires [build.tailwind.input] to be set"@,
        ConfigIssue::TailwindInputNotFound => "[build.tailwind.input] not found"@,
        ConfigIssue::TailwindInputNotFile => "[build.tailwind.input] is not a file"@,
        ConfigIssue::SizeSuffix => "[build.typst.svg.inline_max_size] must end with B, KB, or MB"@,
        ConfigIssue::PathExists => "Path already exists"@,
        ConfigIssue::TokenNotFound => "[deploy.github.token_path] not found"@,
        ConfigIssue::TokenNotFile => "[deploy.github.token_path] is not a file"@,
    }
}

/// The error that tells the user about an issue.
pub fn issue_error(issue: ConfigIssue) -> (error: ConfigError)
    ensures
        error matches ConfigError::Validation(text) && text@ == issue_text(issue),
{
    let text = match issue {
        ConfigIssue::ConfigFileNotFound => "Config file not found".to_owned(),
        ConfigIssue::FeedNeedsUrl => "[base.url] is required for RSS generation".to_owned(),
        ConfigIssue::TypstCommandEmpty => "[build.typst.command] must have at least one element".to_owned(),
        ConfigIssue::TypstNotFound => "[build.typst.command] not found. Please install it first.".to_owned(),
        ConfigIssue::UrlScheme => "[base.url] must start with http:// or https://".to_owned(),
        ConfigIssue::TailwindCommandEmpty => "[build.tailwind.command] must have at least one element".to_owned(),
        ConfigIssue::TailwindNotFound => "[build.tailwind.command] not found. Please install it first.".to_owned(),
        ConfigIssue::TailwindInputUnset => "[build.tailwind.enable] = true requires [build.tailwind.input] to be set".to_owned(),
        ConfigIssue::TailwindInputNotFound => "[build.tailwind.input] not found".to_owned(),
        ConfigIssue::TailwindInputNotFile => "[build.tailwind.input] is not a file".to_owned(),
        ConfigIssue::SizeSuffix => "[build.typst.svg.inline_max_size] must end with B, KB, or MB".to_owned(),
        ConfigIssue::PathExists => "Path already exists".to_owned(),
        ConfigIssue::TokenNotFound => "[deploy.github.token_path] not found".to_owned(),
        ConfigIssue::TokenNotFile => "[deploy.github.token_path] is not a file".to_owned(),
    };
    ConfigError::Validation(text)
}

} // verus!
