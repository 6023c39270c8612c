//! Kind markers: what a type is allowed to be and do.
use vstd::prelude::*;
use crate::law::law_enforcement::sealed::Sealed;

verus! {

// ─── base ──────────────────────────────────────────────────────

/// A reference to a schema by name.
#[derive(Debug, Clone, PartialEq, Eq)]
pub struct SchemaRef(pub &'static str);

/// Evidence that a base value passed its validation.
#[derive(Debug, Clone, PartialEq, Eq)]
pub struct BaseValidationWitness {
    pub validation_id: &'static str,
}

/// Why a base value failed its validation.
#[derive(Debug, Clone, PartialEq, Eq)]
pub struct BaseValidationViolation {
    pub message: String,
}

/// Whether a value may change after construction, and which fields may.
#[derive(Debug, Clone, PartialEq, Eq)]
pub enum MutabilityMode {
    Immutable,
    Controlled { allowed_fields: &'static [&'static str] },
}

/// A validated internal value type.
pub trait BaseType: Sealed {
    fn schema() -> &'static SchemaRef;
    fn validate(&self) -> Result<BaseValidationWitness, BaseValidationViolation>;
}

// ─── operators ─────────────────────────────────────────────────
pub trait LambdaKind: Sealed {}
pub trait ReducerKind: Sealed {}
pub trait TransformKind: Sealed {}
pub trait AdapterKind: Sealed {}
pub trait ConstructorKind: Sealed {}

// ─── algebraic operators ───────────────────────────────────────
pub trait BoundaryKind: Sealed {}
pub trait CoboundaryKind: Sealed {}

// ─── observers ─────────────────────────────────────────────────
pub trait ValidationKind: Sealed {}
pub trait AnalysisUnitKind: Sealed {}
pub trait MetaKind: Sealed {}

// ─── algebra ───────────────────────────────────────────────────
pub trait AlgebraLawKind: Sealed {}

// ─── execution ─────────────────────────────────────────────────
pub trait EngineKind: Sealed {}
pub trait PipelineKind: Sealed {}
pub trait PipelineAdapterKind: Sealed {}
pub trait ReportProjectionAdapterKind: Sealed {}
pub trait EgressAdapterKind: Sealed {}
pub trait RuntimeKind: Sealed {}
pub trait ActionExecutorKind: Sealed {}

// ─── artifacts ─────────────────────────────────────────────────
pub trait TraceKind: Sealed {}
pub trait PolicyArtifactKind: Sealed {}
pub trait ValidationArtifactKind: Sealed {}
pub trait AnalysisArtifactKind: Sealed {}
pub trait DecisionArtifactKind: Sealed {}
pub trait ActionResultArtifactKind: Sealed {}
pub trait OrchestrationArtifactKind: Sealed {}

// ─── law policy ────────────────────────────────────────────────
pub trait MayCarryLaws: Sealed {}
pub trait MustNotCarryLaws: Sealed {}
pub trait MayExecuteOperators: Sealed {}
pub trait MustNotExecuteOperators: Sealed {}
pub trait MayMutateState: Sealed {}
pub trait MustNotMutateState: Sealed {}
pub trait MayOrchestrateRuntime: Sealed {}
pub trait MustNotOrchestrateRuntime: Sealed {}

/// Declares the subject kind of a type.
pub trait DeclaresSubjectKind {
    const SUBJECT_KIND: crate::law::law_enforcement::contracts_contract::SubjectKind;
}

// ─── further kinds ─────────────────────────────────────────────
pub trait FunctionalKind: Sealed {}
pub trait DiagnosticKind: Sealed {}
pub trait EvaluatorKind: Sealed {}
pub trait PolicyUnitKind: Sealed {}
pub trait SearchKind: Sealed {}
pub trait SolverKind: Sealed {}

/// Marker for witnesses of a validation.
pub trait ValidationWitness {}

} // verus!
