use smplcache::law::law_enforcement::kinds::{
    BaseType, BaseValidationViolation, BaseValidationWitness, ReducerKind, SchemaRef, TransformKind,
};
use smplcache::law::law_enforcement::sealed::Sealed;
use smplcache::law::law_enforcement::subsystem::{ReportAuthority, ReportManifest};
use smplcache::law::law_enforcement::traits::{OperatorIdentity, ReducerOp, TransformOp};
use smplcache::law::validation::artifact::{ValidationArtifact, ValidationResult};
use smplcache::law::validation::assertions::assert_validation_artifact_contract;
use smplcache::law::validation::registry::ValidationRegistryError;
use smplcache::law::validation::violation::ValidationViolation;
use smplcache::law::witness::capability::SampleState;
use smplcache::law::witness::empirical::{
    determinism_verdict, idempotence_verdict, produce_reducer_idempotence_witness,
    produce_transform_determinism_witness, SampleOutcome,
};
use smplcache::law::witness::evidence::{
    EvidenceLevel, IdempotenceWitness, ValidationWitness, VectorSpaceAdmissibilityWitness, WitnessClass,
};

#[derive(Debug, Clone, PartialEq)]
struct Level(u8);
impl Sealed for Level {}
impl BaseType for Level {
    fn schema() -> &'static SchemaRef {
        &SchemaRef("level")
    }
    fn validate(&self) -> Result<BaseValidationWitness, BaseValidationViolation> {
        Ok(BaseValidationWitness { validation_id: "level" })
    }
}
impl SampleState for Level {
    fn sample_count() -> usize {
        3
    }
    fn sample(i: usize) -> Self {
        match i {
            0 => Level(0),
            1 => Level(7),
            _ => Level(200),
        }
    }
    fn samples() -> Vec<Self> {
        vec![Level(0), Level(7), Level(200)]
    }
}

/// Clamps to at most 10: idempotent.
#[derive(Default)]
struct Clamp;
impl Sealed for Clamp {}
impl ReducerKind for Clamp {}
impl OperatorIdentity for Clamp {
    fn name(&self) -> &'static str {
        "clamp"
    }
}
impl ReducerOp<Level> for Clamp {
    fn applies(&self, input: &Level, output: Result<Level, String>) -> bool {
        output == Ok(Level(input.0.min(10)))
    }
    fn apply(&self, input: &Level) -> Result<Level, String> {
        Ok(Level(input.0.min(10)))
    }
}

/// Halves: not idempotent on 7 or 200.
#[derive(Default)]
struct Halve;
impl Sealed for Halve {}
impl ReducerKind for Halve {}
impl TransformKind for Halve {}
impl OperatorIdentity for Halve {
    fn name(&self) -> &'static str {
        "halve"
    }
}
impl ReducerOp<Level> for Halve {
    fn applies(&self, input: &Level, output: Result<Level, String>) -> bool {
        output == Ok(Level(input.0 / 2))
    }
    fn apply(&self, input: &Level) -> Result<Level, String> {
        Ok(Level(input.0 / 2))
    }
}
impl TransformOp<Level> for Halve {
    fn applies(&self, input: &Level, output: Result<Level, String>) -> bool {
        output == Ok(Level(input.0 / 2))
    }
    fn apply(&self, input: &Level) -> Result<Level, String> {
        Ok(Level(input.0 / 2))
    }
}

/// Fails on large values.
#[derive(Default)]
struct Picky;
impl Sealed for Picky {}
impl TransformKind for Picky {}
impl OperatorIdentity for Picky {
    fn name(&self) -> &'static str {
        "picky"
    }
}
impl TransformOp<Level> for Picky {
    fn applies(&self, input: &Level, output: Result<Level, String>) -> bool {
        if input.0 > 100 {
            output.is_err()
        } else {
            output == Ok(input.clone())
        }
    }
    fn apply(&self, input: &Level) -> Result<Level, String> {
        if input.0 > 100 {
            Err("too large".into())
        } else {
            Ok(input.clone())
        }
    }
}

#[test]
fn idempotent_reducer_gets_a_witness_over_all_samples() {
    let w = produce_reducer_idempotence_witness::<Clamp, Level>("Clamp").unwrap();
    assert_eq!(w, IdempotenceWitness { contract_id: "Clamp".into(), schema_hash: "empirical_fallback".into(), samples_verified: 3 });
    assert_eq!(w.property(), "idempotence");
    assert_eq!(w.class(), WitnessClass::Empirical);
    assert_eq!(w.evidence_level(), EvidenceLevel::StatisticalWitness);
}

#[test]
fn non_idempotent_reducer_is_a_violation() {
    let v = produce_reducer_idempotence_witness::<Halve, Level>("Halve").unwrap_err();
    assert_eq!(v.property, "idempotence");
    assert_eq!(v.description, "reducer is not idempotent");
}

#[test]
fn deterministic_transform_and_failing_transform() {
    let w = produce_transform_determinism_witness::<Halve, Level>("Halve").unwrap();
    assert_eq!(w.samples_verified, 3);
    assert_eq!(w.contract_id, "Halve");
    assert_eq!(w.property(), "determinism");
    let v = produce_transform_determinism_witness::<Picky, Level>("Picky").unwrap_err();
    assert_eq!(v.property, "determinism");
    assert_eq!(v.description, "transform failed on sample");
}

#[test]
fn structural_witnesses_are_structural_proofs() {
    let w = VectorSpaceAdmissibilityWitness { dimension: 3, basis_hash: "b".into(), operations_verified: true };
    assert_eq!(w.property(), "vector_space_admissibility");
    assert_eq!(w.class(), WitnessClass::StructuralEvidence);
    assert_eq!(w.evidence_level(), EvidenceLevel::StructuralProof);
}

#[derive(Debug)]
struct Missing;
impl ValidationViolation for Missing {
    fn code(&self) -> &'static str {
        "missing"
    }
}

#[test]
fn well_formed_artifact_passes_the_contract() {
    let a: ValidationArtifact<IdempotenceWitness, Missing> = ValidationArtifact {
        validator_id: "v",
        subject_type: "Level",
        property: "idempotence",
        result: ValidationResult::Invalid(vec![Missing]),
    };
    assert_validation_artifact_contract(&a);
    assert_eq!(Missing.code(), "missing");
}

#[test]
fn registry_error_message() {
    assert_eq!(ValidationRegistryError::ValidatorNotFound.message(), "validator not found");
}

#[test]
fn reports_may_only_render() {
    let a = ReportAuthority::default();
    assert!(a.may_render_observation);
    assert!(!a.may_create_meaning && !a.may_promote_evidence && !a.may_certify_transition && !a.may_rank_for_execution);
    let m = ReportManifest::dummy();
    assert_eq!(m.authority, a);
    assert!(m.context.source_artifact_ids.is_empty() && m.context.source_hashes.is_empty());
    assert_eq!(m.context.generated_at.0, "");
    assert_eq!(m.rendered_hash, "");
}

#[test]
fn verdicts_on_sample_outcomes() {
    let all = [SampleOutcome::Agrees, SampleOutcome::Agrees];
    let w = idempotence_verdict("C", &all).unwrap();
    assert_eq!(w.samples_verified, 2);
    assert_eq!(w.contract_id, "C");
    assert_eq!(w.schema_hash, "empirical_fallback");
    assert_eq!(idempotence_verdict("C", &[]).unwrap().samples_verified, 0);

    let v = idempotence_verdict("C", &[SampleOutcome::Agrees, SampleOutcome::SecondFailed, SampleOutcome::Differs])
        .unwrap_err();
    assert_eq!((v.property, v.description.as_str()), ("idempotence", "reducer failed on own output"));
    let v = idempotence_verdict("C", &[SampleOutcome::FirstFailed]).unwrap_err();
    assert_eq!(v.description, "reducer failed on initial sample");

    let d = determinism_verdict("T", &all).unwrap();
    assert_eq!(d.samples_verified, 2);
    let v = determinism_verdict("T", &[SampleOutcome::Differs, SampleOutcome::FirstFailed]).unwrap_err();
    assert_eq!((v.property, v.description.as_str()), ("determinism", "transform is not deterministic"));
    let v = determinism_verdict("T", &[SampleOutcome::SecondFailed]).unwrap_err();
    assert_eq!(v.description, "transform failed on repeat");
}
