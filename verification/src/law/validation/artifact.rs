//! The artifact a validator produces.
use vstd::prelude::*;

verus! {

/// A validation outcome with its evidence: witnesses when the property
/// holds, violations when it does not or when the subject is outside the
/// validator's domain.
#[derive(Debug, Clone)]
pub enum ValidationResult<W, V> {
    Valid(Vec<W>),
    Invalid(Vec<V>),
    DomainError(Vec<V>),
}

/// A validator's verdict on one property of one subject type.
#[derive(Debug, Clone)]
pub struct ValidationArtifact<W, V> {
    pub validator_id: &'static str,
    pub subject_type: &'static str,
    pub property: &'static str,
    pub result: ValidationResult<W, V>,
}

} // verus!
