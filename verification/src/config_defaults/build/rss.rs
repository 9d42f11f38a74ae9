//! Defaults of the `[build.rss]` section.

use vstd::prelude::*;

verus! {

/// Default file of the feed, relative to the output directory.
pub fn path() -> (r: String)
    ensures
        r@ == "feed.xml"@,
{
    "feed.xml".to_owned()
}

} // verus!
