//! The units and methods a public numeric result is labelled with.
use vstd::prelude::*;

verus! {

/// What a number counts or measures.
#[derive(Debug, Clone, PartialEq, Eq, Structural)]
pub enum NumericUnit {
    Count,
    Ratio,
    Probability,
    Milliseconds,
    Bytes,
    CpuCost,
    IoCost,
    MemoryMb,
    Dimensionless,
}

/// How a number was obtained.
#[derive(Debug, Clone, PartialEq, Eq, Structural)]
pub enum NumericMethod {
    ExactInteger,
    ExactSetCardinality,
    FloatingEstimate,
    EigenApproximation,
    HomologyRank,
    CycleRank,
    EntropyEstimate,
    DualScore,
}

} // verus!
