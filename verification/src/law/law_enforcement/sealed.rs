//! The seal that only generated descriptors carry.
use vstd::prelude::*;

verus! {

/// Marker implemented by generated contract images and kinds only.
pub trait Sealed {}

} // verus!
