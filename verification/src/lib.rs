//! smplcache: certified cache decisions for CDC-backed caches.
use vstd::prelude::*;

pub mod text;
pub mod colset;
pub mod evidence;
pub mod cert;
pub mod repair;
pub mod unionfind;
pub mod geometry;
pub mod lifts;
pub mod numeric;
pub mod law;

verus! {
} // verus!
