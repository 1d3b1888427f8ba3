//! Product name and version.

use vstd::prelude::*;

use crate::text::push_str;

verus! {

/// The product name.
pub const PRODUCT_NAME: &'static str = "FileGo";

/// The package version.
pub const VERSION: &'static str = "0.0.1";

/// The product name and version, separated by a space.
pub fn display() -> (r: String)
    ensures
        r@ == PRODUCT_NAME@ + " "@ + VERSION@,
{
    let mut r = String::new();
    push_str(&mut r, PRODUCT_NAME);
    push_str(&mut r, " ");
    push_str(&mut r, VERSION);
    r
}

} // verus!
