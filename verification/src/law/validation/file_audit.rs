//! Audits of source files against the parts their declared kind requires.
use vstd::prelude::*;
use crate::law::validation::artifact::ValidationArtifact;
use crate::law::validation::violation::ValidationViolation;
use crate::law::witness::evidence::ValidationWitness;

verus! {

/// A source file, the kind it declares and the parts that kind requires.
pub struct FileAuditSubject {
    pub path: &'static str,
    pub declared_kind: &'static str,
    pub schema_hash: u64,
    pub parts: &'static [FilePart],
}

/// One part of a file, whether it is required, and what it is.
pub struct FilePart {
    pub name: &'static str,
    pub required: bool,
    pub kind: &'static str,
}

/// Validates files of one kind.
pub trait FileValidator {
    type Witness: ValidationWitness;
    type Violation: ValidationViolation;

    const FILE_KIND: &'static str;

    fn validate_file(subject: &FileAuditSubject) -> ValidationArtifact<Self::Witness, Self::Violation>;
}

} // verus!
