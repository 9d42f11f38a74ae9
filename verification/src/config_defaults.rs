//! Values that configuration fields take when the file leaves them out.

use vstd::prelude::*;

pub mod base;
pub mod build;
pub mod deploy;
pub mod serve;

verus! {

/// Default of a switch that is on unless turned off.
pub fn enabled() -> (r: bool)
    ensures
        r,
{
    true
}

/// Default of a switch that is off unless turned on.
pub fn disabled() -> (r: bool)
    ensures
        !r,
{
    false
}

} // verus!
