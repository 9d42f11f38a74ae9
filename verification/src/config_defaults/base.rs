//! Defaults of the `[base]` section.

use vstd::prelude::*;

verus! {

/// No base URL is set by default.
pub fn url() -> (r: Option<String>)
    ensures
        r is None,
{
    None
}

/// Placeholder for the author name.
pub fn author() -> (r: String)
    ensures
        r@ == "<YOUR_NAME>"@,
{
    "<YOUR_NAME>".to_owned()
}

/// Placeholder for the author email.
pub fn email() -> (r: String)
    ensures
        r@ == "user@noreply.tola"@,
{
    "user@noreply.tola".to_owned()
}

} // verus!
