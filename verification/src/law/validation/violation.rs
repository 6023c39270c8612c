//! Violations reported by validators.
use vstd::prelude::*;

verus! {

/// A violation a validator reports, identified by its code.
pub trait ValidationViolation: core::fmt::Debug + 'static {
    fn code(&self) -> &'static str;
}

} // verus!
