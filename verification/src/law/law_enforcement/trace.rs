//! Trace artifacts: immutable records of execution.
use vstd::prelude::*;

verus! {

/// An emitted trace; immutable once emitted.
pub trait TraceArtifact: Clone {
    const IMMUTABLE_AFTER_EMIT: bool = true;
}

pub trait ImmutableTrace: TraceArtifact {}
pub trait AnalysisArtifact {}
pub trait ValidationArtifact {}
pub trait DecisionArtifact {}
pub trait ActionResultArtifact {}

/// Sequential trace: an ordered list of step records.
#[derive(Clone)]
pub struct StepTrace<T> {
    steps: Vec<T>,
}

impl<T> StepTrace<T> {
    /// The records, in order.
    pub closed spec fn records(&self) -> Seq<T> {
        self.steps@
    }

    pub fn new(steps: Vec<T>) -> (r: Self)
        ensures r.records() == steps@,
    {
        StepTrace { steps }
    }

    pub fn steps(&self) -> (r: &[T])
        ensures r@ == self.records(),
    {
        self.steps.as_slice()
    }

    pub fn into_steps(self) -> (r: Vec<T>)
        ensures r@ == self.records(),
    {
        self.steps
    }
}

impl<T: Clone> TraceArtifact for StepTrace<T> {}
impl<T: Clone> ImmutableTrace for StepTrace<T> {}

/// Layered trace: a flat collection of layer records. Nest step traces for
/// true nesting.
#[derive(Clone)]
pub struct LayeredTrace<T> {
    layers: Vec<T>,
}

impl<T> LayeredTrace<T> {
    /// The layers, in order.
    pub closed spec fn records(&self) -> Seq<T> {
        self.layers@
    }

    pub fn new(layers: Vec<T>) -> (r: Self)
        ensures r.records() == layers@,
    {
        LayeredTrace { layers }
    }

    pub fn layers(&self) -> (r: &[T])
        ensures r@ == self.records(),
    {
        self.layers.as_slice()
    }

    pub fn into_layers(self) -> (r: Vec<T>)
        ensures r@ == self.records(),
    {
        self.layers
    }
}

impl<T: Clone> TraceArtifact for LayeredTrace<T> {}
impl<T: Clone> ImmutableTrace for LayeredTrace<T> {}

/// The explicit "nothing to trace" marker for stages without trace output.
#[derive(Clone)]
pub struct VoidTrace;

impl TraceArtifact for VoidTrace {}
impl ImmutableTrace for VoidTrace {}

} // verus!
