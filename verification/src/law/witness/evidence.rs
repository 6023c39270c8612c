//! Witnesses: the evidence that a law held, with its class and strength.
use vstd::prelude::*;

verus! {

/// How a witness was obtained.
#[derive(Debug, Clone, Copy, PartialEq, Eq, Structural)]
pub enum WitnessClass {
    StructuralEvidence,
    Behavioral,
    Empirical,
}

/// How strong a witness is.
#[derive(Debug, Clone, Copy, PartialEq, Eq, Structural)]
pub enum EvidenceLevel {
    StructuralProof,
    PropertyWitness,
    ExhaustiveFiniteProof,
    StatisticalWitness,
    HumanDeclared,
}

/// A law found broken: the property and what was observed.
#[derive(Debug, Clone, PartialEq)]
pub struct LawViolation {
    pub property: &'static str,
    pub description: String,
}

/// A witness of a validated property.
pub trait ValidationWitness: core::fmt::Debug + 'static {
    fn property(&self) -> &'static str;
    fn class(&self) -> WitnessClass;
    fn evidence_level(&self) -> EvidenceLevel;
}

/// Sampled evidence that a reducer is idempotent.
#[derive(Debug, Clone, PartialEq)]
pub struct IdempotenceWitness {
    pub contract_id: String,
    pub schema_hash: String,
    pub samples_verified: usize,
}

impl ValidationWitness for IdempotenceWitness {
    fn property(&self) -> (r: &'static str)
        ensures r@ == "idempotence"@,
    {
        "idempotence"
    }

    fn class(&self) -> (r: WitnessClass)
        ensures r == WitnessClass::Empirical,
    {
        WitnessClass::Empirical
    }

    fn evidence_level(&self) -> (r: EvidenceLevel)
        ensures r == EvidenceLevel::StatisticalWitness,
    {
        EvidenceLevel::StatisticalWitness
    }
}

/// Sampled evidence that a transform is deterministic.
#[derive(Debug, Clone, PartialEq)]
pub struct DeterminismWitness {
    pub contract_id: String,
    pub schema_hash: String,
    pub samples_verified: usize,
}

impl ValidationWitness for DeterminismWitness {
    fn property(&self) -> (r: &'static str)
        ensures r@ == "determinism"@,
    {
        "determinism"
    }

    fn class(&self) -> (r: WitnessClass)
        ensures r == WitnessClass::Empirical,
    {
        WitnessClass::Empirical
    }

    fn evidence_level(&self) -> (r: EvidenceLevel)
        ensures r == EvidenceLevel::StatisticalWitness,
    {
        EvidenceLevel::StatisticalWitness
    }
}

/// Produces a witness for a subject.
pub trait WitnessProducer<S> {
    type Witness: ValidationWitness;
    fn produce(subject: &S) -> Self::Witness;
}

/// Structural evidence that a vector lives in an admissible vector space.
#[derive(Debug, Clone, PartialEq)]
pub struct VectorSpaceAdmissibilityWitness {
    pub dimension: usize,
    pub basis_hash: String,
    pub operations_verified: bool,
}

impl ValidationWitness for VectorSpaceAdmissibilityWitness {
    fn property(&self) -> (r: &'static str)
        ensures r@ == "vector_space_admissibility"@,
    {
        "vector_space_admissibility"
    }

    fn class(&self) -> (r: WitnessClass)
        ensures r == WitnessClass::StructuralEvidence,
    {
        WitnessClass::StructuralEvidence
    }

    fn evidence_level(&self) -> (r: EvidenceLevel)
        ensures r == EvidenceLevel::StructuralProof,
    {
        EvidenceLevel::StructuralProof
    }
}

/// Structural evidence that a basis is linearly independent.
#[derive(Debug, Clone, PartialEq)]
pub struct BasisLinearIndependenceWitness {
    pub dimension: usize,
    pub basis_hash: String,
    pub rank_verified: bool,
}

impl ValidationWitness for BasisLinearIndependenceWitness {
    fn property(&self) -> (r: &'static str)
        ensures r@ == "basis_linear_independence"@,
    {
        "basis_linear_independence"
    }

    fn class(&self) -> (r: WitnessClass)
        ensures r == WitnessClass::StructuralEvidence,
    {
        WitnessClass::StructuralEvidence
    }

    fn evidence_level(&self) -> (r: EvidenceLevel)
        ensures r == EvidenceLevel::StructuralProof,
    {
        EvidenceLevel::StructuralProof
    }
}

} // verus!
