//! Changes of the sources while the site is served: which are taken up,
//! and what is rebuilt for them.

use vstd::prelude::*;
use crate::config::SiteConfig;
use crate::text::arg_views;
use crate::settings::joined;
use crate::text::{chars_of, has_prefix, same_text, slice_chars, string_of};
use vstd::string::*;

verus! {

/// Milliseconds within which a second change of the same file is passed
/// over.
pub const DEBOUNCE_MS: u64 = 50;

/// Entries from which the record of changes is thinned out.
pub const MAX_TRACKED: usize = 100;

/// Milliseconds after which a recorded change is forgotten.
pub const FORGET_AFTER_MS: u64 = 5000;

/// The kinds of change that the file system reports.
#[derive(Debug, Clone, Copy, PartialEq, Eq, Structural)]
pub enum ChangeKind {
    /// A file was created.
    Create,
    /// A file was changed.
    Modify,
    /// A file was removed.
    Remove,
    /// A file was read.
    Access,
    /// Anything else.
    Other,
}

/// Tells whether a change leads to a rebuild: creations and modifications
/// do.
pub fn should_process_event(kind: ChangeKind) -> (b: bool)
    ensures
        b == (kind == ChangeKind::Create || kind == ChangeKind::Modify),
{
    match kind {
        ChangeKind::Create => true,
        ChangeKind::Modify => true,
        _ => false,
    }
}

/// A file and the time of its last change that was taken up, in
/// milliseconds.
#[derive(Debug, Clone, PartialEq, Eq)]
pub struct Seen {
    pub path: String,
    pub at: u64,
}

/// The time of the last change of `path` that was taken up, among the first
/// `n` records; the last record of a path counts.
pub open spec fn last_seen(seen: Seq<Seen>, n: int, path: Seq<char>) -> Option<u64>
    decreases n,
{
    if n <= 0 {
        None
    } else if seen[n - 1].path@ == path {
        Some(seen[n - 1].at)
    } else {
        last_seen(seen, n - 1, path)
    }
}

/// Tells whether a change at time `now` is taken up: no change of the file
/// was taken up less than the debounce time before.
pub open spec fn is_fresh(seen: Seq<Seen>, path: Seq<char>, now: u64) -> bool {
    match last_seen(seen, seen.len() as int, path) {
        Some(at) => !(now >= at && now - at < DEBOUNCE_MS),
        None => true,
    }
}

/// Looks up the last change of a file that was taken up.
pub fn find_seen(seen: &Vec<Seen>, path: &str) -> (r: Option<u64>)
    ensures
        r == last_seen(seen@, seen.len() as int, path@),
{
    let mut i: usize = seen.len();
    while i > 0
        invariant
            i <= seen.len(),
            last_seen(seen@, seen.len() as int, path@) == last_seen(seen@, i as int, path@),
        decreases i,
    {
        if same_text(seen[i - 1].path.as_str(), path) {
            return Some(seen[i - 1].at);
        }
        i = i - 1;
    }
    None
}

/// Takes a change of a file at time `now`, in milliseconds: tells whether
/// it is taken up, and records it where it is.
pub fn take_change(seen: &mut Vec<Seen>, path: &str, now: u64) -> (fresh: bool)
    ensures
        fresh == is_fresh(old(seen)@, path@, now),
        fresh ==> final(seen)@.len() == old(seen)@.len() + 1 && final(seen)@.last().path@ == path@
            && final(seen)@.last().at == now && final(seen)@.drop_last() == old(seen)@,
        !fresh ==> final(seen)@ == old(seen)@,
{
    let fresh = match find_seen(seen, path) {
        Some(at) => !(now >= at && now - at < DEBOUNCE_MS),
        None => true,
    };
    if fresh {
        let ghost before = seen@;
        seen.push(Seen { path: path.to_owned(), at: now });
        assert(seen@.drop_last() =~= before);
    }
    fresh
}

/// Tells whether a record is kept when the records are thinned out: it is
/// younger than the time after which changes are forgotten.
pub open spec fn is_kept(record: Seen, now: u64) -> bool {
    now >= record.at && now - record.at < FORGET_AFTER_MS
}

/// Thins the records out once there are more than the bound: those that
/// are too old, or lie in the future, go.
pub fn forget_old(seen: Vec<Seen>, now: u64) -> (kept: Vec<Seen>)
    ensures
        seen@.len() <= MAX_TRACKED ==> kept@ == seen@,
        seen@.len() > MAX_TRACKED ==> kept@ == seen@.filter(|r: Seen| is_kept(r, now)),
{
    if seen.len() <= MAX_TRACKED {
        return seen;
    }
    let ghost all = seen@;
    let ghost keep = |r: Seen| is_kept(r, now);
    let mut kept: Vec<Seen> = Vec::new();
    proof {
        reveal(Seq::filter);
        assert(all.subrange(0, 0).filter(keep) =~= Seq::<Seen>::empty());
    }
    for record in it: seen
        invariant
            all == it.seq(),
            keep == (|r: Seen| is_kept(r, now)),
            kept@ == all.subrange(0, it.index() as int).filter(keep),
    {
        proof {
            let i = it.index() as int;
            assert(all.subrange(0, i + 1) =~= all.subrange(0, i).push(record));
            all.subrange(0, i).lemma_filter_push(record, keep);
        }
        if now >= record.at && now - record.at < FORGET_AFTER_MS {
            kept.push(record);
        }
    }
    assert(all.subrange(0, all.len() as int) =~= all);
    kept
}

/// A changed file as the watcher found it.
#[derive(Debug, Clone, PartialEq, Eq)]
pub struct Changed {
    /// Path of the file, as the project root sees it.
    pub path: String,
    /// Whether the file is there.
    pub exists: bool,
}

/// Tells whether a changed file is a markup source to compile: it is there
/// and ends in `.typ` after at least one other character.
pub open spec fn is_content_change(change: Changed) -> bool {
    change.exists && crate::orchestrate::has_extension(
        crate::orchestrate::file_name_of(change.path@),
        "typ"@,
    )
}

/// Tells whether a changed file is an asset to copy: it is there and lies
/// below the assets root.
pub open spec fn is_asset_change(change: Changed, assets_root: Seq<char>) -> bool {
    change.exists && (assets_root + seq!['/']).is_prefix_of(change.path@)
}

/// The paths among the first `n` changes that are markup sources.
pub open spec fn content_changes(changes: Seq<Changed>, n: int) -> Seq<Seq<char>>
    decreases n,
{
    if n <= 0 {
        Seq::<Seq<char>>::empty()
    } else if is_content_change(changes[n - 1]) {
        content_changes(changes, n - 1).push(changes[n - 1].path@)
    } else {
        content_changes(changes, n - 1)
    }
}

/// The paths among the first `n` changes that are assets.
pub open spec fn asset_changes(changes: Seq<Changed>, n: int, assets_root: Seq<char>) -> Seq<
    Seq<char>,
>
    decreases n,
{
    if n <= 0 {
        Seq::<Seq<char>>::empty()
    } else if is_asset_change(changes[n - 1], assets_root) {
        asset_changes(changes, n - 1, assets_root).push(changes[n - 1].path@)
    } else {
        asset_changes(changes, n - 1, assets_root)
    }
}

/// Sorts the changed files into markup sources to compile and assets to
/// copy; what is neither, or is gone, is passed over.
pub fn process_watched_files(changes: &Vec<Changed>, config: &SiteConfig) -> (r: (
    Vec<String>,
    Vec<String>,
))
    ensures
        arg_views(r.0@) == content_changes(changes@, changes.len() as int),
        arg_views(r.1@) == asset_changes(changes@, changes.len() as int, config.build.assets@),
{
    let mut content: Vec<String> = Vec::new();
    let mut assets: Vec<String> = Vec::new();
    let mut root = chars_of(config.build.assets.as_str());
    root.push('/');
    assert(root@ =~= config.build.assets@ + seq!['/']);
    let filter = crate::orchestrate::FileFilter::Extension("typ".to_owned());
    let mut i: usize = 0;
    assert(arg_views(content@) =~= content_changes(changes@, 0));
    assert(arg_views(assets@) =~= asset_changes(changes@, 0, config.build.assets@));
    while i < changes.len()
        invariant
            i <= changes.len(),
            root@ == config.build.assets@ + seq!['/'],
            filter matches crate::orchestrate::FileFilter::Extension(e) && e@ == "typ"@,
            arg_views(content@) == content_changes(changes@, i as int),
            arg_views(assets@) == asset_changes(changes@, i as int, config.build.assets@),
        decreases changes.len() - i,
    {
        let change = &changes[i];
        let ghost content_before = arg_views(content@);
        let ghost assets_before = arg_views(assets@);
        if change.exists && crate::orchestrate::filter_accepts(&filter, change.path.as_str()) {
            let path = change.path.clone();
            content.push(path);
            assert(arg_views(content@) =~= content_before.push(change.path@));
        }
        if change.exists && has_prefix(&chars_of(change.path.as_str()), &root) {
            let path = change.path.clone();
            assets.push(path);
            assert(arg_views(assets@) =~= assets_before.push(change.path@));
        }
        i = i + 1;
    }
    (content, assets)
}

/// The path of a changed file as the project root sees it: the part below
/// the working directory, after `./` where the root is written that way.
pub open spec fn normalized(path: Seq<char>, working_dir: Seq<char>, root: Seq<char>) -> Seq<char> {
    let stripped = if (working_dir + seq!['/']).is_prefix_of(path) {
        path.subrange(working_dir.len() as int + 1, path.len() as int)
    } else {
        path
    };
    if "./"@.is_prefix_of(root) {
        joined("./"@, stripped)
    } else {
        stripped
    }
}

/// Writes the path of a changed file as the project root sees it.
pub fn normalize_path(path: &str, working_dir: &str, config: &SiteConfig) -> (out: String)
    ensures
        out@ == normalized(
            path@,
            working_dir@,
            match config.build.root {
                Some(root) => root@,
                None => "./"@,
            },
        ),
{
    let full = chars_of(path);
    let mut prefix = chars_of(working_dir);
    prefix.push('/');
    assert(prefix@ =~= working_dir@ + seq!['/']);
    let stripped = if has_prefix(&full, &prefix) {
        string_of(&slice_chars(&full, prefix.len(), full.len()))
    } else {
        path.to_owned()
    };
    if has_prefix(&chars_of(config.get_root()), &chars_of("./")) {
        crate::settings::join_path("./", stripped.as_str())
    } else {
        stripped
    }
}

} // verus!
