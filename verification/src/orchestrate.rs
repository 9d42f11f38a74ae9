//! Running a handler over every matching file below a directory.
//!
//! The run is fail-slow: every file is handed to the handler, whatever
//! happened to the files before it, and the first error is reported once
//! all are through.

use vstd::prelude::*;
use crate::text::{chars_of, has_suffix, split, split_chars, views};

verus! {

/// What a directory listing holds: files, and directories with their own
/// listings.
#[derive(Debug)]
pub enum Found {
    /// A file, by its path.
    File { path: String },
    /// A directory and what was found in it.
    Dir { entries: Vec<Found> },
}

/// Which files a run takes.
#[derive(Debug, Clone, PartialEq, Eq)]
pub enum FileFilter {
    /// Every file.
    Any,
    /// Files whose name ends in a dot and this extension, after at least
    /// one other character.
    Extension(String),
}

/// The last component of a path.
pub open spec fn file_name_of(path: Seq<char>) -> Seq<char> {
    split(path, '/').last()
}

/// Tells whether a file name has the extension.
pub open spec fn has_extension(name: Seq<char>, extension: Seq<char>) -> bool {
    (seq!['.'] + extension).is_suffix_of(name) && name.len() > extension.len() + 1
}

/// Tells whether the filter takes the file at `path`.
pub open spec fn accepts(filter: FileFilter, path: Seq<char>) -> bool {
    match filter {
        FileFilter::Any => true,
        FileFilter::Extension(extension) => has_extension(file_name_of(path), extension@),
    }
}

/// The files that the filter takes among the first `n` entries of a listing
/// and below them, depth first, in listing order.
pub open spec fn discovered(entries: Vec<Found>, n: nat, filter: FileFilter) -> Seq<Seq<char>>
    decreases entries, n,
{
    if n == 0 || n > entries.len() {
        Seq::<Seq<char>>::empty()
    } else {
        let before = discovered(entries, (n - 1) as nat, filter);
        match entries[n - 1] {
            Found::File { path } => if accepts(filter, path@) {
                before.push(path@)
            } else {
                before
            },
            Found::Dir { entries: below } => before + discovered(
                below,
                below.len() as nat,
                filter,
            ),
        }
    }
}

/// The paths in `paths`, as character sequences.
pub open spec fn path_views(paths: Seq<String>) -> Seq<Seq<char>> {
    paths.map_values(|p: String| p@)
}

/// Tells whether the filter takes the file at `path`.
pub fn filter_accepts(filter: &FileFilter, path: &str) -> (b: bool)
    ensures
        b == accepts(*filter, path@),
{
    match filter {
        FileFilter::Any => true,
        FileFilter::Extension(extension) => {
            let pieces = split_chars(&chars_of(path), '/');
            proof {
                crate::text::lemma_split_nonempty(path@, '/');
            }
            let name = &pieces[pieces.len() - 1];
            assert(name@ == views(pieces@).last());
            let mut suffix: Vec<char> = Vec::new();
            suffix.push('.');
            crate::text::append_chars(&mut suffix, &chars_of(extension.as_str()));
            assert(suffix@ =~= seq!['.'] + extension@);
            has_suffix(name, &suffix) && name.len() > suffix.len()
        },
    }
}

/// Lists the files below a directory that the filter takes. Directories
/// without such files add nothing.
pub fn collect_files(entries: &Vec<Found>, filter: &FileFilter) -> (files: Vec<String>)
    ensures
        path_views(files@) == discovered(*entries, entries.len() as nat, *filter),
    decreases entries,
{
    let mut files: Vec<String> = Vec::new();
    let mut i: usize = 0;
    assert(path_views(files@) =~= Seq::<Seq<char>>::empty());
    while i < entries.len()
        invariant
            i <= entries.len(),
            path_views(files@) == discovered(*entries, i as nat, *filter),
        decreases entries.len() - i,
    {
        let ghost before = path_views(files@);
        match &entries[i] {
            Found::File { path } => {
                if filter_accepts(filter, path.as_str()) {
                    files.push(path.clone());
                    assert(path_views(files@) =~= before.push(path@));
                }
            },
            Found::Dir { entries: below } => {
                let mut inner = collect_files(below, filter);
                let ghost inner_paths = path_views(inner@);
                files.append(&mut inner);
                assert(path_views(files@) =~= before + inner_paths);
            },
        }
        i = i + 1;
    }
    files
}

/// What a run reports: the error of the first file that failed, in the
/// order of the files, or success where none did.
pub open spec fn first_failure<E>(outcomes: Seq<Result<(), E>>) -> Result<(), E>
    decreases outcomes.len(),
{
    if outcomes.len() == 0 {
        Ok(())
    } else {
        match first_failure(outcomes.drop_last()) {
            Err(e) => Err(e),
            Ok(_) => outcomes.last(),
        }
    }
}

/// The report of a run is the outcome of the first file that failed: no
/// file before it failed, and where the report is success, none failed.
pub proof fn lemma_first_failure<E>(outcomes: Seq<Result<(), E>>)
    ensures
        first_failure(outcomes) is Ok <==> forall|i: int|
            0 <= i < outcomes.len() ==> (#[trigger] outcomes[i]) is Ok,
        first_failure(outcomes) is Err ==> exists|i: int|
            0 <= i < outcomes.len() && #[trigger] outcomes[i] == first_failure(outcomes) && forall|
                j: int,
            |
                0 <= j < i ==> (#[trigger] outcomes[j]) is Ok,
    decreases outcomes.len(),
{
    if outcomes.len() > 0 {
        let head = outcomes.drop_last();
        lemma_first_failure(head);
        assert forall|i: int| 0 <= i < head.len() implies head[i] == outcomes[i] by {}
        if first_failure(head) is Err {
            let i = choose|i: int|
                0 <= i < head.len() && #[trigger] head[i] == first_failure(head) && forall|j: int|
                    0 <= j < i ==> (#[trigger] head[j]) is Ok;
            assert(outcomes[i] == first_failure(outcomes));
            assert forall|j: int| 0 <= j < i implies (#[trigger] outcomes[j]) is Ok by {
                assert(head[j] is Ok);
            }
        } else {
            assert forall|j: int| 0 <= j < head.len() implies (#[trigger] outcomes[j]) is Ok by {
                assert(head[j] is Ok);
            }
            if outcomes.last() is Err {
                assert(outcomes[outcomes.len() - 1] == first_failure(outcomes));
            }
        }
    }
}

/// Reports the outcomes of a run: the first error, or success.
pub fn report<E>(outcomes: Vec<Result<(), E>>) -> (r: Result<(), E>)
    ensures
        r == first_failure(outcomes@),
{
    let ghost all = outcomes@;
    let mut first: Result<(), E> = Ok(());
    assert(all.subrange(0, 0) =~= Seq::<Result<(), E>>::empty());
    for outcome in it: outcomes
        invariant
            all == it.seq(),
            first == first_failure(all.subrange(0, it.index() as int)),
    {
        proof {
            let i = it.index() as int;
            assert(all.subrange(0, i + 1).drop_last() =~= all.subrange(0, i));
            assert(all.subrange(0, i + 1).last() == outcome);
        }
        if first.is_ok() {
            first = outcome;
        }
    }
    assert(all.subrange(0, all.len() as int) =~= all);
    first
}

/// Hands every file to the handler and reports the first error.
///
/// Every file is handled, whether or not a file before it failed.
pub fn process_files<E, F: Fn(&String) -> Result<(), E>>(files: &Vec<String>, handler: F) -> (r:
    Result<(), E>)
    requires
        forall|i: int| 0 <= i < files.len() ==> call_requires(handler, (&#[trigger] files[i],)),
    ensures
        exists|outcomes: Seq<Result<(), E>>|
            {
                &&& outcomes.len() == files.len()
                &&& forall|i: int|
                    0 <= i < files.len() ==> call_ensures(
                        handler,
                        (&files[i],),
                        #[trigger] outcomes[i],
                    )
                &&& r == first_failure(outcomes)
            },
{
    let mut outcomes: Vec<Result<(), E>> = Vec::new();
    let mut i: usize = 0;
    while i < files.len()
        invariant
            i <= files.len(),
            outcomes.len() == i,
            forall|k: int| 0 <= k < files.len() ==> call_requires(handler, (&#[trigger] files[k],)),
            forall|k: int|
                0 <= k < i ==> call_ensures(handler, (&files[k],), #[trigger] outcomes@[k]),
        decreases files.len() - i,
    {
        let outcome = handler(&files[i]);
        outcomes.push(outcome);
        i = i + 1;
    }
    let ghost all = outcomes@;
    let r = report(outcomes);
    assert(all.len() == files.len());
    r
}

} // verus!
