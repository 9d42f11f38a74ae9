//! Defaults of the `[deploy.github]` section.

use vstd::prelude::*;

verus! {

/// Example repository URL.
pub fn url() -> (r: String)
    ensures
        r@ == "https://github.com/alice/alice.github.io"@,
{
    "https://github.com/alice/alice.github.io".to_owned()
}

/// Default branch to push to.
pub fn branch() -> (r: String)
    ensures
        r@ == "main"@,
{
    "main".to_owned()
}

/// No token file is set by default.
pub fn token_path() -> (r: Option<String>)
    ensures
        r is None,
{
    None
}

} // verus!
