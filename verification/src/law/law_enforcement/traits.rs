//! The behavioural traits of the layer: operators, adapters, engines,
//! pipelines, runtimes and the structures they act on.
use vstd::prelude::*;
use crate::law::law_enforcement::contracts_contract::SubjectKind;
use crate::law::law_enforcement::kinds::BaseType;
use crate::law::law_enforcement::trace::TraceArtifact;

verus! {

// ─── identity ──────────────────────────────────────────────────
pub trait OperatorIdentity {
    fn name(&self) -> &'static str;
}

pub trait BoundaryOperatorIdentity {
    fn name(&self) -> &'static str;
}

// ─── analysis ──────────────────────────────────────────────────
pub trait AnalysisArtifact {}

pub trait Diagnostic<Input> {
    type Output: AnalysisArtifact;
}

pub trait Functional<T: BaseType> {
    type Output;
}

pub trait AnalysisUnit<T: BaseType> {
    type Output: AnalysisArtifact;
}

pub trait MetaRule<T> {
    type Output;
    fn evaluate(&self, subject: &T) -> Result<Self::Output, String>;
}

pub trait EvidenceRef {}
pub trait EvidenceArtifact {}
pub trait WitnessArtifact {}

// ─── evidence ──────────────────────────────────────────────────
pub trait TraceRecorder {
    type Event;
    type Artifact: TraceArtifact;
    fn record(&mut self, event: Self::Event);
    fn commit(self) -> Self::Artifact;
}

pub trait Witness {}

// ─── execution ─────────────────────────────────────────────────

/// Runtime: system boundary entrypoint. It accepts external input (raw
/// bytes, arguments, payloads) and produces external output; the adapter
/// layer turns input into base types. Its state is a base type.
pub trait Runtime<S: BaseType> {
    type Pipeline: Pipeline<S>;
    type Input;
    type RuntimeState: BaseType;
    type Output;
    type Trace: TraceArtifact;
    type Error;

    fn start(&mut self, input: Self::Input) -> Result<(Self::RuntimeState, Self::Output, Self::Trace), Self::Error>;
}

/// Pipeline: whole-run orchestration calling `Engine::step` repeatedly,
/// accumulating traces and deciding continuation, rollback or lift. It
/// must not apply operators itself.
pub trait Pipeline<S: BaseType> {
    type Engine: Engine<S>;
    type PipelineState: BaseType;
    type Output: BaseType;
    type Trace: TraceArtifact;
    type Error;

    fn run(&mut self, input: S) -> Result<(Self::PipelineState, Self::Output, Self::Trace), Self::Error>;
}

/// Engine: one step of execution over stateful runtime state: measure,
/// select, apply one operator, re-evaluate.
pub trait Engine<S: BaseType> {
    type Operator: OperatorIdentity;
    type RuntimeState: BaseType;
    type Output: BaseType;
    type Trace: TraceArtifact;
    type Error;

    fn step(&mut self, state: S) -> Result<(Self::RuntimeState, Self::Output, Self::Trace), Self::Error>;
}

pub trait Search<S: BaseType>: Pipeline<S> {}
pub trait Solver<S: BaseType>: Pipeline<S> {}
pub trait SelectionStrategy {}
pub trait ContinuationPolicy {}
pub trait BudgetPolicy {}

// ─── governance ────────────────────────────────────────────────
pub trait Action {}

pub trait Policy {
    fn governed_layers(&self) -> Vec<SubjectKind>;
}

// ─── operators ─────────────────────────────────────────────────
pub trait AlgebraicStructure {}
pub trait NonDecisionAlgebraic {}
pub trait BoundaryOperator {}

#[derive(Debug, Clone, PartialEq, Eq)]
pub enum ConstructorError {
    ParseError(String),
    SchemaMismatch,
    MissingRequiredField(&'static str),
    InvalidInvariant(String),
    NonFiniteNumericInput,
    UnsupportedRepresentation,
}

/// A deterministic boundary unit converting raw input into a validated base
/// type. It may parse, decode, type-check and validate; it may not repair,
/// solve, search or mutate runtime state.
pub trait ConstructorOp<Raw, T: BaseType>: BoundaryOperatorIdentity {
    type Error;

    fn construct(&self, raw: Raw) -> Result<T, Self::Error>;
}

pub trait KernelOperator {}

/// Lambda: pure morphism `S -> T`.
pub trait LambdaOp<S: BaseType, T: BaseType>: OperatorIdentity {
    fn apply(&self, input: &S) -> Result<T, String>;
}

/// Reducer: idempotent structure-shrinking endomorphism `S -> S`.
pub trait ReducerOp<S: BaseType>: OperatorIdentity {
    /// Whether applying the reducer to `input` may give `output`.
    spec fn applies(&self, input: &S, output: Result<S, String>) -> bool;

    fn apply(&self, input: &S) -> (r: Result<S, String>)
        ensures
            self.applies(input, r),
    ;
}

/// Transform: pure endomorphism `S -> S` with unrestricted phi.
pub trait TransformOp<S: BaseType>: OperatorIdentity {
    /// Whether applying the transform to `input` may give `output`.
    spec fn applies(&self, input: &S, output: Result<S, String>) -> bool;

    fn apply(&self, input: &S) -> (r: Result<S, String>)
        ensures
            self.applies(input, r),
    ;
}

/// Adapter: converts raw or external input into a verified base type.
pub trait AdapterOp<S, T: BaseType>: BoundaryOperatorIdentity {
    type Error;
    fn adapt(&self, input: &S) -> Result<T, Self::Error>;
}

/// Decoder: maps an encoded base type back to its original base type.
pub trait DecoderOp<S: BaseType, T: BaseType>: BoundaryOperatorIdentity {
    type Error;
    fn decode(&self, input: &S) -> Result<T, Self::Error>;
}

/// Encoder: maps one base type to another.
pub trait EncoderOp<S: BaseType, T: BaseType>: BoundaryOperatorIdentity {
    type Error;
    fn encode(&self, input: &S) -> Result<T, Self::Error>;
}

// ─── structure ─────────────────────────────────────────────────

/// Behaviour a base type requires beyond the marker contract.
pub trait BaseTypeBehavior: HasCarrier {}

/// A base type that supports quotienting.
pub trait QuotientableBaseType: BaseTypeBehavior + HasQuotient {}

/// A type with an underlying representation space.
pub trait HasCarrier {
    type Carrier;
    fn carrier(&self) -> &Self::Carrier;
}

/// A type that admits quotienting by an equivalence relation.
pub trait HasQuotient {
    type Equivalence;
    type Quotient;

    fn quotient(&self, relation: &Self::Equivalence) -> Self::Quotient;
}

/// A structural entity that can be measured.
pub trait Observable {
    type Observation;
    fn observe(&self) -> Self::Observation;
}

/// A formal violation or gap in structure.
pub trait Obstruction {
    type Signature;
    fn signature(&self) -> Self::Signature;
}

/// Structured multi-dimensional state or parameters.
pub trait Tensor {
    fn shape(&self) -> &[usize];
}

} // verus!
