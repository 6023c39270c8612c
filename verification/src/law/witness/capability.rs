//! What a state offers to witness producers.
use vstd::prelude::*;

verus! {

/// A state that can offer samples of itself for empirical witnesses: a
/// fixed number of them.
pub trait SampleState: Sized {
    /// How many samples the state offers.
    spec fn sample_count() -> usize;

    /// The sample at position `i`.
    spec fn sample(i: usize) -> Self;

    fn samples() -> (r: Vec<Self>)
        ensures
            r@.len() == Self::sample_count(),
            forall|i: int| 0 <= i < r@.len() ==> r@[i] == Self::sample(i as usize),
    ;
}

/// A relation a transition from one state to the next must preserve.
pub trait WitnessRelation<S> {
    fn preserves(before: &S, after: &S) -> bool;
}

} // verus!
