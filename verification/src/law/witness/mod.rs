//! Witnesses of laws.
pub mod capability;
pub mod directive;
pub mod empirical;
pub mod evidence;
