//! Defaults of the `[deploy.cloudflare]` section.

use vstd::prelude::*;

verus! {

/// Example remote of the provider.
pub fn _remote() -> (r: String)
    ensures
        r@ == "https://alice.com"@,
{
    "https://alice.com".to_owned()
}

/// Default branch of the provider.
pub fn _branch() -> (r: String)
    ensures
        r@ == "main"@,
{
    "main".to_owned()
}

/// Example location of the token file.
pub fn _token_path() -> (r: String)
    ensures
        r@ == "~/xxx/xxx/.github-token-in-this-file"@,
{
    "~/xxx/xxx/.github-token-in-this-file".to_owned()
}

} // verus!
