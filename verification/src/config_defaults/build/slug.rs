//! Defaults of the `[build.slug]` section.

use vstd::prelude::*;
use crate::config::SlugMode;

verus! {

/// The policy used where none is chosen.
pub fn default() -> (r: SlugMode)
    ensures
        r == SlugMode::Safe,
{
    SlugMode::Safe
}

/// The policy that leaves text as it is.
pub fn no() -> (r: SlugMode)
    ensures
        r == SlugMode::No,
{
    SlugMode::No
}

/// The policy that strips forbidden characters.
pub fn safe() -> (r: SlugMode)
    ensures
        r == SlugMode::Safe,
{
    SlugMode::Safe
}

/// The policy that normalises fully.
pub fn on() -> (r: SlugMode)
    ensures
        r == SlugMode::On,
{
    SlugMode::On
}

} // verus!
