//! The shape every validation artifact must have.
use vstd::prelude::*;
use crate::law::validation::artifact::{ValidationArtifact, ValidationResult};
use crate::law::validation::violation::ValidationViolation;
use crate::law::witness::evidence::ValidationWitness;

verus! {

/// An artifact names its validator, subject type and property, and its
/// result carries evidence: at least one witness or one violation.
pub open spec fn artifact_well_formed<W, V>(a: ValidationArtifact<W, V>) -> bool {
    &&& a.validator_id@.len() > 0
    &&& a.subject_type@.len() > 0
    &&& a.property@.len() > 0
    &&& match a.result {
        ValidationResult::Valid(ws) => ws@.len() > 0,
        ValidationResult::Invalid(vs) => vs@.len() > 0,
        ValidationResult::DomainError(vs) => vs@.len() > 0,
    }
}

/// The contract of validation artifacts, as a precondition: it can only be
/// called on a well-formed artifact.
pub fn assert_validation_artifact_contract<W: ValidationWitness, V: ValidationViolation>(
    artifact: &ValidationArtifact<W, V>,
)
    requires
        artifact_well_formed(*artifact),
{
}

} // verus!
