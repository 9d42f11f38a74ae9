//! Defaults of the `[build.typst]` section.

use vstd::prelude::*;

pub mod svg;

verus! {

/// Default command line of the markup compiler.
pub fn command() -> (r: Vec<String>)
    ensures
        r@.len() == 1,
        r@[0]@ == "typst"@,
{
    vec!["typst".to_owned()]
}

} // verus!
