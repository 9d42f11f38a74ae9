//! Defaults of the `[build.tailwind]` section.

use vstd::prelude::*;

verus! {

/// No stylesheet entry point is set by default.
pub fn input() -> (r: Option<String>)
    ensures
        r is None,
{
    None
}

/// Default command line of the CSS build tool.
pub fn command() -> (r: Vec<String>)
    ensures
        r@.len() == 1,
        r@[0]@ == "tailwindcss"@,
{
    vec!["tailwindcss".to_owned()]
}

} // verus!
