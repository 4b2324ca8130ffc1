//! A style resolution and transformation engine: themed CSS-like rules plus
//! utility-class tokens are resolved into effective styles for a UI element,
//! emitted either as CSS text or as a flat map of native layout properties.

pub mod android;
pub mod api;
pub mod bridge;
pub mod classes;
pub mod color;
pub mod flatten;
pub mod laws;
pub mod ordmap;
pub mod palette;
pub mod selector;
pub mod strutil;
pub mod theme;
pub mod units;
pub mod value;
pub mod webcss;
pub mod varres;

use vstd::prelude::*;

verus! {

pub fn crate_marker() -> (r: bool)
    ensures
        r,
{
    true
}

} // verus!
