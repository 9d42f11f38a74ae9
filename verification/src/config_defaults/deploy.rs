//! Defaults of the `[deploy]` section.

use vstd::prelude::*;

pub mod cloudflare;
pub mod github;
pub mod vercal;

verus! {

/// Default deployment provider.
pub fn provider() -> (r: String)
    ensures
        r@ == "github"@,
{
    "github".to_owned()
}

} // verus!
