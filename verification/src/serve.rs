//! What the preview server answers where no file matches a request.

use vstd::prelude::*;
use crate::text::arg_views;
use crate::text::same_text;
use vstd::string::*;

verus! {

/// What a request path leads to on disk.
#[derive(Debug, Clone, PartialEq, Eq)]
pub enum Lookup {
    /// A file that can be read, with its text.
    File(String),
    /// A directory with an `index.html` that can be read, with its text.
    DirWithIndex(String),
    /// A directory without one, with the names of its entries.
    Dir(Vec<String>),
    /// Nothing.
    Missing,
}

/// What the server answers.
#[derive(Debug, Clone, PartialEq, Eq)]
pub enum Answer {
    /// A page.
    Page(String),
    /// Not found.
    NotFound,
}

/// The text of the answer where nothing is found.
pub fn not_found_text() -> (text: &'static str)
    ensures
        text@ == "404 Not Found"@,
{
    "404 Not Found"
}

/// The entries of the first `n` names of a listing, one after the other.
pub open spec fn listing_items(request_path: Seq<char>, names: Seq<Seq<char>>, n: int) -> Seq<char>
    decreases n,
{
    if n <= 0 {
        Seq::<char>::empty()
    } else {
        listing_items(request_path, names, n - 1) + "<li><a href='"@ + request_path + "/"@ + names[n
            - 1] + "'>"@ + names[n - 1] + "</a></li>"@
    }
}

/// The page that lists a directory.
pub open spec fn listing_page(request_path: Seq<char>, names: Seq<Seq<char>>) -> Seq<char> {
    "\n        <html>\n            <head><style>\n                * { background: #273748; color: white; }\n                li { font-weight: bold; }\n                table { border-collapse: collapse; } td { padding: 8px; }\n            </style></head>\n            <body>\n                <h1>Directory: "@
        + request_path + "</h1>\n                "@ + listing_items(
        request_path,
        names,
        names.len() as int,
    ) + "\n            </body>\n        </html>\n        "@
}

/// Writes the page that lists a directory.
pub fn generate_directory_listing(names: &Vec<String>, request_path: &str) -> (page: String)
    ensures
        page@ == listing_page(request_path@, arg_views(names@)),
{
    let ghost all = arg_views(names@);
    let mut items = String::new();
    let mut i: usize = 0;
    assert(items@ =~= listing_items(request_path@, all, 0));
    while i < names.len()
        invariant
            i <= names.len(),
            all == arg_views(names@),
            items@ == listing_items(request_path@, all, i as int),
        decreases names.len() - i,
    {
        assert(all[i as int] == names@[i as int]@);
        items.append("<li><a href='");
        items.append(request_path);
        items.append("/");
        items.append(names[i].as_str());
        items.append("'>");
        items.append(names[i].as_str());
        items.append("</a></li>");
        i = i + 1;
    }
    let mut page = "\n        <html>\n            <head><style>\n                * { background: #273748; color: white; }\n                li { font-weight: bold; }\n                table { border-collapse: collapse; } td { padding: 8px; }\n            </style></head>\n            <body>\n                <h1>Directory: ".to_owned();
    page.append(request_path);
    page.append("</h1>\n                ");
    page.append(items.as_str());
    page.append("\n            </body>\n        </html>\n        ");
    page
}

/// Answers a request that no file served directly: a file or the index of
/// a directory is the page; a directory without index is listed; anything
/// else is not found.
pub fn handle_path(request_path: &str, lookup: Lookup) -> (answer: Answer)
    ensures
        match lookup {
            Lookup::File(text) => answer == Answer::Page(text),
            Lookup::DirWithIndex(text) => answer == Answer::Page(text),
            Lookup::Dir(names) => answer matches Answer::Page(page) && page@ == listing_page(
                request_path@,
                arg_views(names@),
            ),
            Lookup::Missing => answer == Answer::NotFound,
        },
{
    match lookup {
        Lookup::File(text) => Answer::Page(text),
        Lookup::DirWithIndex(text) => Answer::Page(text),
        Lookup::Dir(names) => Answer::Page(generate_directory_listing(&names, request_path)),
        Lookup::Missing => Answer::NotFound,
    }
}

/// Tells whether a failure to start the server ends the attempts: every
/// failure does but an address that is in use, after which the server tries
/// again.
pub fn is_nonrecoverable(error: &str) -> (b: bool)
    ensures
        b == (error@ != "address already in use"@),
{
    !same_text(error, "address already in use")
}

/// The seconds that are counted down before the next attempt: from the
/// wait down to zero.
pub fn retry_countdown(wait_secs: u64) -> (steps: Vec<u64>)
    ensures
        steps@.len() == wait_secs + 1,
        forall|i: int| 0 <= i < steps@.len() ==> steps@[i] == wait_secs - i,
{
    let mut steps: Vec<u64> = Vec::new();
    let mut left: u64 = wait_secs;
    while left > 0
        invariant
            left <= wait_secs,
            steps@.len() == wait_secs - left,
            forall|i: int| 0 <= i < steps@.len() ==> steps@[i] == wait_secs - i,
        decreases left,
    {
        steps.push(left);
        left = left - 1;
    }
    steps.push(0);
    steps
}

} // verus!
