use core::any::TypeId;
use smplcache::law::law_enforcement::binding::{
    audit_descriptor, ensure_kind, ContractAuditError, LawBinding, SealedContractDescriptor, TypeBinding,
};
use smplcache::law::law_enforcement::schema::{EffectLawDecl, Kind, PhiLawDecl, StructureLawDecl};

fn lambda_descriptor() -> SealedContractDescriptor {
    SealedContractDescriptor::new(
        "contract.lambda.normalize",
        Kind::Lambda,
        LawBinding::Required(PhiLawDecl::NonIncreasing),
        LawBinding::Required(StructureLawDecl::Preserving),
        LawBinding::Required(EffectLawDecl::Pure),
        TypeBinding::of::<u32>("u32"),
        TypeBinding::of::<u64>("u64"),
        TypeBinding::Forbidden,
        TypeBinding::Forbidden,
        0x1234,
    )
}

#[test]
fn descriptor_getters_give_back_what_was_declared() {
    let d = lambda_descriptor();
    assert_eq!(d.id(), "contract.lambda.normalize");
    assert_eq!(*d.kind(), Kind::Lambda);
    assert_eq!(*d.phi_law(), LawBinding::Required(PhiLawDecl::NonIncreasing));
    assert_eq!(*d.structure_law(), LawBinding::Required(StructureLawDecl::Preserving));
    assert_eq!(*d.effect_law(), LawBinding::Required(EffectLawDecl::Pure));
    assert_eq!(d.domain_type().name(), Some("u32"));
    assert_eq!(d.codomain_type().name(), Some("u64"));
    assert_eq!(d.subject_type().name(), None);
    assert_eq!(d.runtime_state_type(), TypeBinding::Forbidden);
    assert_eq!(d.schema_hash(), 0x1234);
}

#[test]
fn type_bindings_compare_by_identifier_and_name() {
    assert_eq!(TypeBinding::of::<u32>("u32"), TypeBinding::of::<u32>("u32"));
    assert_ne!(TypeBinding::of::<u32>("u32"), TypeBinding::of::<u64>("u32"));
    assert_ne!(TypeBinding::of::<u32>("u32"), TypeBinding::of::<u32>("word"));
    assert_ne!(TypeBinding::of::<u32>("u32"), TypeBinding::Forbidden);
    assert_eq!(TypeBinding::Forbidden, TypeBinding::Forbidden);
}

#[test]
fn audit_accepts_a_matching_binding() {
    let d = lambda_descriptor();
    let unit = TypeId::of::<()>();
    let r = audit_descriptor(&d, TypeId::of::<u32>(), TypeId::of::<u64>(), unit, unit, unit);
    assert!(matches!(r, Ok(x) if std::ptr::eq(x, &d)));
}

#[test]
fn audit_names_the_first_broken_slot() {
    let d = lambda_descriptor();
    let unit = TypeId::of::<()>();
    // wrong codomain type
    match audit_descriptor(&d, TypeId::of::<u32>(), TypeId::of::<i64>(), unit, unit, unit) {
        Err(ContractAuditError::TypeMismatch { contract_id, field, schema_hash }) => {
            assert_eq!(contract_id, "contract.lambda.normalize");
            assert_eq!(field, "codomain_type");
            assert_eq!(schema_hash, 0x1234);
        }
        other => panic!("unexpected {:?}", other),
    }
    // a forbidden slot bound to a real type, and the domain also wrong: the domain comes first
    match audit_descriptor(&d, TypeId::of::<u8>(), TypeId::of::<u64>(), TypeId::of::<String>(), unit, unit) {
        Err(ContractAuditError::TypeMismatch { field, .. }) => assert_eq!(field, "domain_type"),
        other => panic!("unexpected {:?}", other),
    }
    match audit_descriptor(&d, TypeId::of::<u32>(), TypeId::of::<u64>(), unit, TypeId::of::<bool>(), unit) {
        Err(ContractAuditError::TypeMismatch { field, .. }) => assert_eq!(field, "runtime_state_type"),
        other => panic!("unexpected {:?}", other),
    }
    // a concrete slot bound to the unit type
    match audit_descriptor(&d, unit, TypeId::of::<u64>(), unit, unit, unit) {
        Err(ContractAuditError::TypeMismatch { field, .. }) => assert_eq!(field, "domain_type"),
        other => panic!("unexpected {:?}", other),
    }
}

#[test]
fn ensure_kind_reports_both_kinds() {
    assert!(ensure_kind(Kind::Lambda, Kind::Lambda, "c", 1).is_ok());
    match ensure_kind(Kind::Lambda, Kind::Reducer, "c", 1) {
        Err(e @ ContractAuditError::KindMismatch { .. }) => {
            if let ContractAuditError::KindMismatch { contract_id, expected, actual, schema_hash } = &e {
                assert_eq!(*contract_id, "c");
                assert_eq!(expected, "Lambda");
                assert_eq!(actual, "Reducer");
                assert_eq!(*schema_hash, 1);
            }
            assert_eq!(
                e.message(),
                "CONTRACT VIOLATION [c] kind mismatch: expected=Lambda, actual=Reducer, schema_hash=0x0000000000000001"
            );
        }
        other => panic!("unexpected {:?}", other),
    }
}

#[test]
fn audit_error_messages() {
    let t = ContractAuditError::TypeMismatch { contract_id: "k", field: "domain_type", schema_hash: 0xdeadbeef };
    assert_eq!(t.message(), "CONTRACT VIOLATION [k] domain_type type identity mismatch, schema_hash=0x00000000deadbeef");
    let l = ContractAuditError::LawMismatch {
        contract_id: "k",
        field: "phi_law",
        expected: "Required(NonIncreasing)".into(),
        actual: "Forbidden".into(),
        schema_hash: u64::MAX,
    };
    assert_eq!(
        l.message(),
        "CONTRACT VIOLATION [k] phi_law mismatch: expected=Required(NonIncreasing), actual=Forbidden, schema_hash=0xffffffffffffffff"
    );
}
