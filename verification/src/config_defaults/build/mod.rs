//! Defaults of the `[build]` section.

use vstd::prelude::*;

pub mod rss;
pub mod slug;
pub mod tailwind;
pub mod typst;

verus! {

/// No root directory is set by default.
pub fn root() -> (r: Option<String>)
    ensures
        r is None,
{
    None
}

/// The site is served from the root of its host by default.
pub fn base_path() -> (r: String)
    ensures
        r@ == ""@,
{
    "".to_owned()
}

/// Default language tag of the pages.
pub fn language() -> (r: String)
    ensures
        r@ == "zh-Hans"@,
{
    "zh-Hans".to_owned()
}

/// Default content directory, relative to the root.
pub fn content() -> (r: String)
    ensures
        r@ == "content"@,
{
    "content".to_owned()
}

/// Default output directory, relative to the root.
pub fn output() -> (r: String)
    ensures
        r@ == "public"@,
{
    "public".to_owned()
}

/// Default assets directory, relative to the root.
pub fn assets() -> (r: String)
    ensures
        r@ == "assets"@,
{
    "assets".to_owned()
}

} // verus!
