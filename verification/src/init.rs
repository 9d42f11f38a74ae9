//! The layout of a new site.

use vstd::prelude::*;
use crate::config::{default_build, default_deploy, default_serve, SiteConfig};
use crate::text::arg_views;
use crate::slug::trim_chars;
use crate::slug::trimmed;
use crate::text::{chars_of, has_prefix, join, join_chars, string_of, views};
use vstd::string::*;

verus! {

/// What the user says about a new site.
#[derive(Debug, Clone, PartialEq, Eq)]
pub struct SiteInfo {
    pub title: String,
    pub description: String,
    pub author: String,
    pub email: String,
    pub url: Option<String>,
}

/// The directories of a new site, below its root.
pub open spec fn site_dirs_spec() -> Seq<Seq<char>> {
    seq![
        "content"@,
        "assets/images"@,
        "assets/iconfonts"@,
        "assets/fonts"@,
        "assets/scripts"@,
        "assets/styles"@,
        "templates"@,
        "utils"@,
    ]
}

/// The directories of a new site, below its root.
pub fn site_dirs() -> (dirs: Vec<String>)
    ensures
        arg_views(dirs@) == site_dirs_spec(),
{
    let mut dirs: Vec<String> = Vec::new();
    dirs.push("content".to_owned());
    dirs.push("assets/images".to_owned());
    dirs.push("assets/iconfonts".to_owned());
    dirs.push("assets/fonts".to_owned());
    dirs.push("assets/scripts".to_owned());
    dirs.push("assets/styles".to_owned());
    dirs.push("templates".to_owned());
    dirs.push("utils".to_owned());
    assert(arg_views(dirs@) =~= site_dirs_spec());
    dirs
}

/// The files that take the ignore patterns of a new site.
pub fn ignore_files() -> (files: Vec<String>)
    ensures
        arg_views(files@) == seq![".gitignore"@, ".ignore"@],
{
    let mut files: Vec<String> = Vec::new();
    files.push(".gitignore".to_owned());
    files.push(".ignore".to_owned());
    assert(arg_views(files@) =~= seq![".gitignore"@, ".ignore"@]);
    files
}

/// The name of the configuration file of a new site.
pub fn config_file() -> (name: &'static str)
    ensures
        name@ == "tola.toml"@,
{
    "tola.toml"
}

/// The text of an ignore file: the paths, one on a line.
pub fn ignore_text(paths: &Vec<String>) -> (text: String)
    ensures
        text@ == join(arg_views(paths@), '\n'),
{
    let mut lines: Vec<Vec<char>> = Vec::new();
    let mut i: usize = 0;
    while i < paths.len()
        invariant
            i <= paths.len(),
            views(lines@) == arg_views(paths@).subrange(0, i as int),
        decreases paths.len() - i,
    {
        let ghost before = views(lines@);
        let line = chars_of(paths[i].as_str());
        lines.push(line);
        assert(views(lines@) =~= before.push(paths@[i as int]@));
        i = i + 1;
        assert(views(lines@) =~= arg_views(paths@).subrange(0, i as int));
    }
    assert(arg_views(paths@).subrange(0, paths.len() as int) =~= arg_views(paths@));
    string_of(&join_chars(&lines, '\n'))
}

/// Tells whether a title or a description is accepted: it holds more than
/// white space.
pub fn is_filled(input: &str) -> (b: bool)
    ensures
        b == (trimmed(input@).len() > 0),
{
    trim_chars(&chars_of(input)).len() > 0
}

/// Tells whether a base URL is accepted: it is empty, or starts with
/// `http://` or `https://`.
pub fn is_site_url(input: &str) -> (b: bool)
    ensures
        b == (input@.len() == 0 || "http://"@.is_prefix_of(input@) || "https://"@.is_prefix_of(
            input@,
        )),
{
    let text = chars_of(input);
    text.len() == 0 || has_prefix(&text, &chars_of("http://")) || has_prefix(
        &text,
        &chars_of("https://"),
    )
}

/// The first directory of the new site that is there already, by its index.
pub open spec fn first_existing(exists: Seq<bool>) -> Option<int>
    decreases exists.len(),
{
    if exists.len() == 0 {
        None
    } else if first_existing(exists.drop_last()) is Some {
        first_existing(exists.drop_last())
    } else if exists.last() {
        Some(exists.len() - 1)
    } else {
        None
    }
}

/// Finds the first directory of the new site that is there already; a new
/// site is laid out only where there is none.
pub fn find_existing(exists: &Vec<bool>) -> (r: Option<usize>)
    ensures
        match first_existing(exists@) {
            Some(i) => r == Some(i as usize) && 0 <= i < exists.len(),
            None => r is None,
        },
{
    let mut i: usize = 0;
    assert(exists@.subrange(0, 0) =~= Seq::<bool>::empty());
    while i < exists.len()
        invariant
            i <= exists.len(),
            first_existing(exists@.subrange(0, i as int)) is None,
        decreases exists.len() - i,
    {
        assert(exists@.subrange(0, i + 1).drop_last() =~= exists@.subrange(0, i as int));
        if exists[i] {
            proof {
                lemma_first_existing_stays(exists@, i + 1);
            }
            return Some(i);
        }
        i = i + 1;
    }
    assert(exists@.subrange(0, exists.len() as int) =~= exists@);
    None
}

/// What is found in a prefix is found in the whole.
proof fn lemma_first_existing_stays(exists: Seq<bool>, n: int)
    requires
        0 <= n <= exists.len(),
        first_existing(exists.subrange(0, n)) is Some,
    ensures
        first_existing(exists) == first_existing(exists.subrange(0, n)),
    decreases exists.len() - n,
{
    if n == exists.len() {
        assert(exists.subrange(0, n) =~= exists);
    } else {
        assert(exists.subrange(0, n + 1).drop_last() =~= exists.subrange(0, n));
        lemma_first_existing_stays(exists, n + 1);
    }
}

/// The configuration a new site starts with: the defaults, and what the
/// user said about the site.
pub fn init_config_with_info(info: SiteInfo) -> (config: SiteConfig)
    ensures
        config.base.title == info.title,
        config.base.description == info.description,
        config.base.author == info.author,
        config.base.email == info.email,
        config.base.url == info.url,
        config.base.language@ == "zh-Hans"@,
        config.base.copyright@.len() == 0,
        config.base.head_extra@.len() == 0,
        config.cli is None,
        default_build(config.build),
        default_serve(config.serve),
        default_deploy(config.deploy),
{
    let mut config = SiteConfig::default();
    config.base.title = info.title;
    config.base.description = info.description;
    config.base.author = info.author;
    config.base.email = info.email;
    config.base.url = info.url;
    config
}

} // verus!
