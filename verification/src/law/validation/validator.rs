//! Validators of one property of one subject type.
use vstd::prelude::*;
use crate::law::validation::artifact::ValidationArtifact;
use crate::law::validation::violation::ValidationViolation;
use crate::law::witness::evidence::ValidationWitness;

verus! {

/// Validates one property of subjects of type `S`.
pub trait Validator<S> {
    type Witness: ValidationWitness;
    type Violation: ValidationViolation;

    const VALIDATOR_ID: &'static str;
    const SUBJECT_TYPE: &'static str;
    const PROPERTY: &'static str;

    fn validate(subject: &S) -> ValidationArtifact<Self::Witness, Self::Violation>;
}

} // verus!
