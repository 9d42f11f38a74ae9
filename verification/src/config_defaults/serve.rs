//! Defaults of the `[serve]` section.

use vstd::prelude::*;

verus! {

/// Default interface the preview server binds to.
pub fn interface() -> (r: String)
    ensures
        r@ == "127.0.0.1"@,
{
    "127.0.0.1".to_owned()
}

/// Default port of the preview server.
pub fn port() -> (r: u16)
    ensures
        r == 5277,
{
    5277
}

} // verus!
