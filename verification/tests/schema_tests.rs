use smplcache::law::law_enforcement::schema::{
    validate_registry, ArtifactFamily, AuthorityLayer, ConstitutionalBlock, ConstraintBlock, ContractDescriptor,
    EffectLawDecl, Kind, LawBlock, LawPresence, PhiLawDecl, StructureLawDecl,
};

fn descriptor(id: &str, kind: Kind) -> ContractDescriptor {
    ContractDescriptor {
        id: id.into(),
        name: format!("{} contract", id),
        kind,
        domain_type: None,
        codomain_type: None,
        subject_type: None,
        runtime_state_type: None,
        governed_layer: None,
        decision_scope: None,
        laws: None,
        algebra_laws: None,
        governed_algebra_layer: None,
        constitution: None,
        operator_class: None,
        signature: None,
        requirements: None,
        validation: None,
        witnesses: None,
        replay: None,
        forbidden: vec![],
        uros: None,
        constraints: ConstraintBlock::default(),
    }
}

fn lambda(id: &str) -> ContractDescriptor {
    let mut d = descriptor(id, Kind::Lambda);
    d.laws = Some(LawBlock {
        phi: LawPresence::Required(PhiLawDecl::NonIncreasing),
        structure: LawPresence::Required(StructureLawDecl::Preserving),
        effect: LawPresence::Required(EffectLawDecl::Pure),
        required: vec![],
    });
    d.domain_type = Some("Shape".into());
    d.codomain_type = Some("Shape".into());
    d.constraints.search_forbidden = Some(true);
    d.constraints.hidden_state_forbidden = Some(true);
    d
}

#[test]
fn a_complete_lambda_validates() {
    assert_eq!(lambda("l1").validate(), Ok(()));
}

#[test]
fn lambda_rules_are_checked_in_order() {
    let mut d = lambda("l1");
    d.laws = None;
    assert_eq!(d.validate(), Err("lambda requires laws".to_string()));

    let mut d = lambda("l1");
    d.laws.as_mut().unwrap().phi = LawPresence::Required(PhiLawDecl::Reducing);
    assert_eq!(d.validate(), Err("lambda must have phi=NonIncreasing".to_string()));

    let mut d = lambda("l1");
    d.laws.as_mut().unwrap().effect = LawPresence::Forbidden;
    assert_eq!(d.validate(), Err("lambda must have effect=Pure".to_string()));

    let mut d = lambda("l1");
    d.codomain_type = None;
    assert_eq!(d.validate(), Err("lambda requires domain_type and codomain_type".to_string()));

    let mut d = lambda("l1");
    d.constraints.search_forbidden = Some(false);
    assert_eq!(d.validate(), Err("lambda must forbid search".to_string()));
}

#[test]
fn common_rules_come_first() {
    let mut d = lambda("  ");
    d.laws = None;
    assert_eq!(d.validate(), Err("contract id must not be empty".to_string()));
    let mut d = lambda("l1");
    d.name = "\t".into();
    assert_eq!(d.validate(), Err("contract name must not be empty".to_string()));
}

#[test]
fn adapters_must_not_carry_laws() {
    let mut d = descriptor("a1", Kind::Adapter);
    assert_eq!(d.validate(), Err("adapter requires source and target types".to_string()));
    d.domain_type = Some("Raw".into());
    d.codomain_type = Some("Shape".into());
    assert_eq!(d.validate(), Ok(()));
    d.subject_type = Some("X".into());
    assert_eq!(d.validate(), Err("adapter must not declare subject_type".to_string()));
}

#[test]
fn kinds_without_rules_validate() {
    assert_eq!(descriptor("k1", Kind::GlobalTaxonomy).validate(), Ok(()));
}

fn constitution(layer: AuthorityLayer, emits: ArtifactFamily) -> ConstitutionalBlock {
    ConstitutionalBlock {
        paper_dependencies: vec!["paper".into()],
        emits,
        authority_layer: layer,
        forbidden_later_layers: vec![],
        replay_certificates: vec!["schema_hash".into()],
    }
}

#[test]
fn constitution_rules() {
    assert_eq!(constitution(AuthorityLayer::Fact, ArtifactFamily::FactEnvelope).validate(), Ok(()));
    assert_eq!(
        constitution(AuthorityLayer::Structure, ArtifactFamily::Action).validate(),
        Err("Structure/Fact authority cannot emit Action artifacts".to_string())
    );
    let mut c = constitution(AuthorityLayer::Judgment, ArtifactFamily::DecisionEnvelope);
    c.forbidden_later_layers = vec![AuthorityLayer::Action, AuthorityLayer::Judgment];
    assert_eq!(c.validate(), Err("constitution cannot forbid its own authority layer".to_string()));
    let mut c = constitution(AuthorityLayer::Fact, ArtifactFamily::FactEnvelope);
    c.paper_dependencies.clear();
    assert_eq!(c.validate(), Err("Structure and Fact layers require at least one paper_dependency".to_string()));
    let mut c = constitution(AuthorityLayer::Judgment, ArtifactFamily::DecisionEnvelope);
    c.replay_certificates = vec!["other".into()];
    assert_eq!(c.validate(), Err("constitution must require 'schema_hash' certificate".to_string()));

    let mut d = lambda("l1");
    d.constitution = Some(c);
    assert_eq!(d.validate(), Err("constitution error: constitution must require 'schema_hash' certificate".to_string()));
}

#[test]
fn registry_rejects_invalid_and_duplicate_contracts() {
    assert_eq!(validate_registry(&[]), Ok(()));
    assert_eq!(validate_registry(&[lambda("a"), lambda("b")]), Ok(()));
    assert_eq!(validate_registry(&[lambda("a"), lambda("b"), lambda("a")]), Err("duplicate contract id: a".to_string()));
    let mut bad = lambda("c");
    bad.laws = None;
    assert_eq!(validate_registry(&[lambda("a"), bad, lambda("a")]), Err("lambda requires laws".to_string()));
}

#[test]
fn law_presence_reads() {
    let p: LawPresence<PhiLawDecl> = LawPresence::from(Some(PhiLawDecl::Reducing));
    assert!(p.is_required());
    assert_eq!(p.as_option(), Some(&PhiLawDecl::Reducing));
    let f: LawPresence<PhiLawDecl> = LawPresence::from(None);
    assert!(!f.is_required());
    assert_eq!(f.as_option(), None);
    assert_eq!(LawPresence::<EffectLawDecl>::default(), LawPresence::Forbidden);
}
