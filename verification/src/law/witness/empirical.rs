//! Empirical witnesses: laws checked on the samples a state offers.
use vstd::prelude::*;
use crate::law::law_enforcement::kinds::{BaseType, ReducerKind, TransformKind};
use crate::law::law_enforcement::traits::{ReducerOp, TransformOp};
use crate::law::witness::capability::SampleState;
use crate::law::witness::evidence::{DeterminismWitness, IdempotenceWitness, LawViolation};
use vstd::std_specs::cmp::PartialEqSpec;

verus! {

fn violation(property: &'static str, description: &str) -> (r: LawViolation)
    ensures
        r.property == property,
        r.description@ == description@,
{
    LawViolation { property, description: String::from_str(description) }
}

/// How one sample fared when the operator was applied to it twice.
#[derive(Debug, Clone, Copy, PartialEq, Eq, Structural)]
pub enum SampleOutcome {
    /// The first application failed.
    FirstFailed,
    /// The second application failed.
    SecondFailed,
    /// Both applications succeeded, with different results.
    Differs,
    /// Both applications succeeded, with equal results.
    Agrees,
}

/// Whether every sample agreed.
pub open spec fn all_agree(outs: Seq<SampleOutcome>) -> bool {
    forall|i: int| 0 <= i < outs.len() ==> outs[i] == SampleOutcome::Agrees
}

/// Whether `k` is the first sample that did not agree.
pub open spec fn first_disagreement(outs: Seq<SampleOutcome>, k: int) -> bool {
    &&& 0 <= k < outs.len()
    &&& outs[k] != SampleOutcome::Agrees
    &&& forall|j: int| 0 <= j < k ==> outs[j] == SampleOutcome::Agrees
}

/// What an idempotence check reports for a sample that did not agree.
pub open spec fn idempotence_message(o: SampleOutcome) -> Seq<char> {
    match o {
        SampleOutcome::FirstFailed => "reducer failed on initial sample"@,
        SampleOutcome::SecondFailed => "reducer failed on own output"@,
        _ => "reducer is not idempotent"@,
    }
}

/// What a determinism check reports for a sample that did not agree.
pub open spec fn determinism_message(o: SampleOutcome) -> Seq<char> {
    match o {
        SampleOutcome::FirstFailed => "transform failed on sample"@,
        SampleOutcome::SecondFailed => "transform failed on repeat"@,
        _ => "transform is not deterministic"@,
    }
}

/// The idempotence verdict on the samples' outcomes: a witness over all of
/// them when every sample agreed, else the violation of the first that did
/// not.
pub open spec fn idempotence_verdict_of(
    r: Result<IdempotenceWitness, LawViolation>,
    contract_id: Seq<char>,
    outs: Seq<SampleOutcome>,
) -> bool {
    if all_agree(outs) {
        r matches Ok(w) && w.contract_id@ == contract_id && w.schema_hash@ == "empirical_fallback"@
            && w.samples_verified == outs.len()
    } else {
        r matches Err(v) && v.property@ == "idempotence"@ && exists|k: int|
            #[trigger] first_disagreement(outs, k) && v.description@ == idempotence_message(outs[k])
    }
}

/// The determinism verdict on the samples' outcomes, as for idempotence.
pub open spec fn determinism_verdict_of(
    r: Result<DeterminismWitness, LawViolation>,
    contract_id: Seq<char>,
    outs: Seq<SampleOutcome>,
) -> bool {
    if all_agree(outs) {
        r matches Ok(w) && w.contract_id@ == contract_id && w.schema_hash@ == "empirical_fallback"@
            && w.samples_verified == outs.len()
    } else {
        r matches Err(v) && v.property@ == "determinism"@ && exists|k: int|
            #[trigger] first_disagreement(outs, k) && v.description@ == determinism_message(outs[k])
    }
}

fn first_disagreement_exec(outcomes: &[SampleOutcome]) -> (r: Option<usize>)
    ensures
        match r {
            None => all_agree(outcomes@),
            Some(k) => first_disagreement(outcomes@, k as int),
        },
{
    let mut i: usize = 0;
    while i < outcomes.len()
        invariant
            i <= outcomes@.len(),
            forall|j: int| 0 <= j < i ==> outcomes@[j] == SampleOutcome::Agrees,
        decreases outcomes.len() - i,
    {
        if outcomes[i] != SampleOutcome::Agrees {
            return Some(i);
        }
        i += 1;
    }
    None
}

/// The idempotence witness or violation that the samples' outcomes give.
pub fn idempotence_verdict(contract_id: &str, outcomes: &[SampleOutcome]) -> (r: Result<IdempotenceWitness, LawViolation>)
    ensures
        idempotence_verdict_of(r, contract_id@, outcomes@),
{
    proof { reveal_strlit("idempotence"); }
    match first_disagreement_exec(outcomes) {
        None => Ok(IdempotenceWitness {
            contract_id: String::from_str(contract_id),
            schema_hash: String::from_str("empirical_fallback"),
            samples_verified: outcomes.len(),
        }),
        Some(k) => {
            let d = match outcomes[k] {
                SampleOutcome::FirstFailed => "reducer failed on initial sample",
                SampleOutcome::SecondFailed => "reducer failed on own output",
                _ => "reducer is not idempotent",
            };
            Err(violation("idempotence", d))
        },
    }
}

/// The determinism witness or violation that the samples' outcomes give.
pub fn determinism_verdict(contract_id: &str, outcomes: &[SampleOutcome]) -> (r: Result<DeterminismWitness, LawViolation>)
    ensures
        determinism_verdict_of(r, contract_id@, outcomes@),
{
    proof { reveal_strlit("determinism"); }
    match first_disagreement_exec(outcomes) {
        None => Ok(DeterminismWitness {
            contract_id: String::from_str(contract_id),
            schema_hash: String::from_str("empirical_fallback"),
            samples_verified: outcomes.len(),
        }),
        Some(k) => {
            let d = match outcomes[k] {
                SampleOutcome::FirstFailed => "transform failed on sample",
                SampleOutcome::SecondFailed => "transform failed on repeat",
                _ => "transform is not deterministic",
            };
            Err(violation("determinism", d))
        },
    }
}

/// Whether applying reducer `op` to sample `s`, then to its own output, may
/// have had outcome `o`; agreement is judged by `==`, which follows `S`'s
/// equality spec where `S` declares one.
pub open spec fn reducer_outcome<T: ReducerOp<S>, S: BaseType + PartialEq>(op: T, s: S, o: SampleOutcome) -> bool {
    match o {
        SampleOutcome::FirstFailed => exists|e: String| #[trigger] op.applies(&s, Err(e)),
        SampleOutcome::SecondFailed => exists|once: S, e: String|
            #![trigger op.applies(&s, Ok(once)), op.applies(&once, Err(e))]
            op.applies(&s, Ok(once)) && op.applies(&once, Err(e)),
        SampleOutcome::Agrees => exists|once: S, twice: S|
            #![trigger op.applies(&s, Ok(once)), op.applies(&once, Ok(twice))]
            op.applies(&s, Ok(once)) && op.applies(&once, Ok(twice))
                && (S::obeys_eq_spec() ==> once.eq_spec(&twice)),
        SampleOutcome::Differs => exists|once: S, twice: S|
            #![trigger op.applies(&s, Ok(once)), op.applies(&once, Ok(twice))]
            op.applies(&s, Ok(once)) && op.applies(&once, Ok(twice))
                && (S::obeys_eq_spec() ==> !once.eq_spec(&twice)),
    }
}

/// Whether applying transform `op` twice to sample `s` may have had outcome
/// `o`.
pub open spec fn transform_outcome<T: TransformOp<S>, S: BaseType + PartialEq>(op: T, s: S, o: SampleOutcome) -> bool {
    match o {
        SampleOutcome::FirstFailed => exists|e: String| #[trigger] op.applies(&s, Err(e)),
        SampleOutcome::SecondFailed => exists|first: S, e: String|
            #![trigger op.applies(&s, Ok(first)), op.applies(&s, Err(e))]
            op.applies(&s, Ok(first)) && op.applies(&s, Err(e)),
        SampleOutcome::Agrees => exists|first: S, second: S|
            #![trigger op.applies(&s, Ok(first)), op.applies(&s, Ok(second))]
            op.applies(&s, Ok(first)) && op.applies(&s, Ok(second))
                && (S::obeys_eq_spec() ==> first.eq_spec(&second)),
        SampleOutcome::Differs => exists|first: S, second: S|
            #![trigger op.applies(&s, Ok(first)), op.applies(&s, Ok(second))]
            op.applies(&s, Ok(first)) && op.applies(&s, Ok(second))
                && (S::obeys_eq_spec() ==> !first.eq_spec(&second)),
    }
}

/// Outcome `k` of the list is one that reducer `op` may give on sample `k`.
pub open spec fn reducer_run<T: ReducerOp<S>, S: BaseType + PartialEq + SampleState>(op: T, outs: Seq<SampleOutcome>) -> bool {
    forall|k: int| 0 <= k < outs.len() ==> #[trigger] reducer_outcome(op, S::sample(k as usize), outs[k])
}

/// Outcome `k` of the list is one that transform `op` may give on sample `k`.
pub open spec fn transform_run<T: TransformOp<S>, S: BaseType + PartialEq + SampleState>(op: T, outs: Seq<SampleOutcome>) -> bool {
    forall|k: int| 0 <= k < outs.len() ==> #[trigger] transform_outcome(op, S::sample(k as usize), outs[k])
}

/// Applies reducer `T` (its default value) twice to each sample of `S`, in
/// order, the second time to its own output, and checks that the second
/// application changes nothing; stops at the first sample that fails. The
/// witness is filed under `contract_id`, the name of the contract's type. The
/// result is the verdict on the outcomes observed, one per sample up to the
/// first that did not agree, each an outcome of applying the reducer to that
/// sample: a witness counts every sample the state offers.
pub fn produce_reducer_idempotence_witness<T, S>(contract_id: &str) -> (r: Result<IdempotenceWitness, LawViolation>) where
    T: Default + ReducerKind + ReducerOp<S>,
    S: BaseType + SampleState + PartialEq + core::fmt::Debug,

    ensures
        exists|op: T, outs: Seq<SampleOutcome>|
            #![trigger idempotence_verdict_of(r, contract_id@, outs), reducer_run::<T, S>(op, outs)]
            idempotence_verdict_of(r, contract_id@, outs) && reducer_run::<T, S>(op, outs)
                && outs.len() <= S::sample_count() && (all_agree(outs) ==> outs.len() == S::sample_count()),
{
    let op = T::default();
    let samples = S::samples();
    let mut outcomes: Vec<SampleOutcome> = Vec::new();
    let mut failed = false;
    let mut i: usize = 0;
    while i < samples.len() && !failed
        invariant
            i <= samples.len(),
            samples@.len() == S::sample_count(),
            forall|k: int| 0 <= k < samples@.len() ==> samples@[k] == S::sample(k as usize),
            outcomes@.len() == i,
            !failed ==> all_agree(outcomes@),
            failed ==> !all_agree(outcomes@),
            reducer_run::<T, S>(op, outcomes@),
        decreases samples.len() - i,
    {
        let ghost s_i = samples@[i as int];
        let first = op.apply(&samples[i]);
        let ghost g1 = first;
        let o = match first {
            Err(_) => {
                proof {
                    let e = g1->Err_0;
                    assert(op.applies(&s_i, Err(e)));
                    assert(reducer_outcome(op, s_i, SampleOutcome::FirstFailed));
                }
                SampleOutcome::FirstFailed
            },
            Ok(once) => {
                let second = op.apply(&once);
                let ghost g2 = second;
                match second {
                    Err(_) => {
                        proof {
                            let e = g2->Err_0;
                            assert(op.applies(&s_i, Ok(once)) && op.applies(&once, Err(e)));
                            assert(reducer_outcome(op, s_i, SampleOutcome::SecondFailed));
                        }
                        SampleOutcome::SecondFailed
                    },
                    Ok(twice) => {
                        proof {
                            assert(op.applies(&s_i, Ok(once)) && op.applies(&once, Ok(twice)));
                        }
                        if once == twice {
                            assert(reducer_outcome(op, s_i, SampleOutcome::Agrees));
                            SampleOutcome::Agrees
                        } else {
                            assert(reducer_outcome(op, s_i, SampleOutcome::Differs));
                            SampleOutcome::Differs
                        }
                    },
                }
            },
        };
        assert(reducer_outcome(op, S::sample(i), o));
        let ghost before = outcomes@;
        outcomes.push(o);
        failed = o != SampleOutcome::Agrees;
        assert(outcomes@[i as int] == o);
        assert forall|k: int| 0 <= k < outcomes@.len()
            implies #[trigger] reducer_outcome(op, S::sample(k as usize), outcomes@[k]) by {
            if k < i {
                assert(outcomes@[k] == before[k]);
            }
        }
        i += 1;
    }
    let r = idempotence_verdict(contract_id, outcomes.as_slice());
    assert(idempotence_verdict_of(r, contract_id@, outcomes@) && reducer_run::<T, S>(op, outcomes@));
    assert(outcomes@.len() <= S::sample_count());
    r
}

/// Applies transform `T` (its default value) twice to each sample of `S`, in
/// order, and checks that both applications agree; stops at the first sample
/// that fails. The witness is filed under `contract_id`, the name of the
/// contract's type. The result is the verdict on the outcomes observed, one
/// per sample up to the first that did not agree, each an outcome of applying
/// the transform twice to that sample: a witness counts every sample the
/// state offers.
pub fn produce_transform_determinism_witness<T, S>(contract_id: &str) -> (r: Result<DeterminismWitness, LawViolation>) where
    T: Default + TransformKind + TransformOp<S>,
    S: BaseType + SampleState + PartialEq + core::fmt::Debug + Clone,

    ensures
        exists|op: T, outs: Seq<SampleOutcome>|
            #![trigger determinism_verdict_of(r, contract_id@, outs), transform_run::<T, S>(op, outs)]
            determinism_verdict_of(r, contract_id@, outs) && transform_run::<T, S>(op, outs)
                && outs.len() <= S::sample_count() && (all_agree(outs) ==> outs.len() == S::sample_count()),
{
    let op = T::default();
    let samples = S::samples();
    let mut outcomes: Vec<SampleOutcome> = Vec::new();
    let mut failed = false;
    let mut i: usize = 0;
    while i < samples.len() && !failed
        invariant
            i <= samples.len(),
            samples@.len() == S::sample_count(),
            forall|k: int| 0 <= k < samples@.len() ==> samples@[k] == S::sample(k as usize),
            outcomes@.len() == i,
            !failed ==> all_agree(outcomes@),
            failed ==> !all_agree(outcomes@),
            transform_run::<T, S>(op, outcomes@),
        decreases samples.len() - i,
    {
        let ghost s_i = samples@[i as int];
        let first = op.apply(&samples[i]);
        let ghost g1 = first;
        let o = match first {
            Err(_) => {
                proof {
                    let e = g1->Err_0;
                    assert(op.applies(&s_i, Err(e)));
                    assert(transform_outcome(op, s_i, SampleOutcome::FirstFailed));
                }
                SampleOutcome::FirstFailed
            },
            Ok(first_value) => {
                let second = op.apply(&samples[i]);
                let ghost g2 = second;
                match second {
                    Err(_) => {
                        proof {
                            let e = g2->Err_0;
                            assert(op.applies(&s_i, Ok(first_value)) && op.applies(&s_i, Err(e)));
                            assert(transform_outcome(op, s_i, SampleOutcome::SecondFailed));
                        }
                        SampleOutcome::SecondFailed
                    },
                    Ok(second_value) => {
                        proof {
                            assert(op.applies(&s_i, Ok(first_value)) && op.applies(&s_i, Ok(second_value)));
                        }
                        if first_value == second_value {
                            assert(transform_outcome(op, s_i, SampleOutcome::Agrees));
                            SampleOutcome::Agrees
                        } else {
                            assert(transform_outcome(op, s_i, SampleOutcome::Differs));
                            SampleOutcome::Differs
                        }
                    },
                }
            },
        };
        assert(transform_outcome(op, S::sample(i), o));
        let ghost before = outcomes@;
        outcomes.push(o);
        failed = o != SampleOutcome::Agrees;
        assert(outcomes@[i as int] == o);
        assert forall|k: int| 0 <= k < outcomes@.len()
            implies #[trigger] transform_outcome(op, S::sample(k as usize), outcomes@[k]) by {
            if k < i {
                assert(outcomes@[k] == before[k]);
            }
        }
        i += 1;
    }
    let r = determinism_verdict(contract_id, outcomes.as_slice());
    assert(determinism_verdict_of(r, contract_id@, outcomes@) && transform_run::<T, S>(op, outcomes@));
    assert(outcomes@.len() <= S::sample_count());
    r
}

} // verus!
