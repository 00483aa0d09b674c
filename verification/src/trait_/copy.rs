//! `Copy` implementation.

use vstd::prelude::*;

verus! {

/// Marker for the `Copy` implementation.
pub struct Copy;

} // verus!
