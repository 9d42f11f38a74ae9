//! Defaults of the `[build.typst.svg]` section.

use vstd::prelude::*;
use crate::config::ExtractSvgType;

verus! {

/// Embedded images stay inline by default.
pub fn extract_type() -> (r: ExtractSvgType)
    ensures
        r == ExtractSvgType::Embedded,
{
    ExtractSvgType::Embedded
}

/// Default size below which an extracted image stays a vector file.
pub fn inline_max_size() -> (r: String)
    ensures
        r@ == "20KB"@,
{
    "20KB".to_owned()
}

} // verus!
