use smplcache::cert::{
    classify, AggregateFunction, Authority, Decision, QueryShape, RepairClass, RepairOperator,
};
use smplcache::colset::ColumnSet;
use smplcache::evidence::{
    infer_evidence_level, BoundaryEvent, EvidenceLevel, EvidencePacket, EvidenceSource, Operation, RowImage, Value,
};

fn revenue_shape() -> QueryShape {
    QueryShape {
        name: "revenue_by_customer_paid".into(),
        relation: "orders".into(),
        predicate_cols: ColumnSet::from_strs(&["status"]),
        aggregate_cols: ColumnSet::from_strs(&["amount"]),
        group_cols: ColumnSet::from_strs(&["customer_id"]),
        projection_cols: ColumnSet::from_strs(&["customer_id"]),
        join_cols: ColumnSet::new(),
        security_cols: ColumnSet::new(),
        required_evidence: EvidenceLevel::E2,
        repair_class: RepairClass::SingleTableGroupSum,
        aggregate_function: AggregateFunction::Sum,
    }
}

fn dashboard_shape() -> QueryShape {
    QueryShape {
        name: "fulfillment_dashboard".into(),
        relation: "orders".into(),
        predicate_cols: ColumnSet::from_strs(&["status"]),
        aggregate_cols: ColumnSet::new(),
        group_cols: ColumnSet::new(),
        projection_cols: ColumnSet::from_strs(&["customer_id", "status", "amount"]),
        join_cols: ColumnSet::new(),
        security_cols: ColumnSet::new(),
        required_evidence: EvidenceLevel::E2,
        repair_class: RepairClass::InvalidateOnly,
        aggregate_function: AggregateFunction::NoAggregate,
    }
}

fn make_packet(relation: &str, changed: &[&str], old: Option<RowImage>, new: Option<RowImage>) -> EvidencePacket {
    let changed_cols = ColumnSet::from_strs(changed);
    let commit_lsn = None;
    let evidence_level = infer_evidence_level(&old, &new, &commit_lsn);

    EvidencePacket {
        event: BoundaryEvent {
            relation: relation.into(),
            op: Operation::Update,
            changed_cols,
            old,
            new,
            commit_lsn,
            evidence_level,
        },
        normalized_at_epoch_ms: 1000,
        source: EvidenceSource::WorkloadFixture,
    }
}

fn has_tag(tags: &[String], t: &str) -> bool {
    tags.iter().any(|x| x == t)
}

#[test]
fn test_preserve_different_relation() {
    let shape = revenue_shape();
    let packet = make_packet("inventory", &["quantity"], None, None);
    let result = classify(&shape, &packet);
    assert_eq!(result.decision, Decision::Preserve);
    assert_eq!(result.authority, Authority::Certificate);
    assert_eq!(result.operator, RepairOperator::RelationMismatch);
}

#[test]
fn test_preserve_fingerprint_miss() {
    let shape = revenue_shape();
    let packet = make_packet(
        "orders",
        &["shipping_address"],
        Some(RowImage::new().with_col("shipping_address", Value::Text("old".into()))),
        Some(RowImage::new().with_col("shipping_address", Value::Text("new".into()))),
    );
    let result = classify(&shape, &packet);
    assert_eq!(result.decision, Decision::Preserve);
    assert_eq!(result.operator, RepairOperator::FingerprintMiss);
}

#[test]
fn test_invalidate_insufficient_evidence() {
    let shape = revenue_shape();
    // E0: no row data
    let packet = make_packet("orders", &["amount"], None, None);
    let result = classify(&shape, &packet);
    assert_eq!(result.decision, Decision::Invalidate);
    assert_eq!(result.authority, Authority::Certificate);
    assert_eq!(result.operator, RepairOperator::EvidenceInsufficient);
    assert!(!result.evidence_level.satisfies(shape.required_evidence));
    assert!(has_tag(&result.proof_tags, "evidence_insufficient"));
}

#[test]
fn test_invalidate_only_class() {
    let shape = dashboard_shape();
    let packet = make_packet(
        "orders",
        &["status"],
        Some(RowImage::new().with_col("status", Value::Text("pending".into()))),
        Some(RowImage::new().with_col("status", Value::Text("paid".into()))),
    );
    let result = classify(&shape, &packet);
    assert_eq!(result.decision, Decision::Invalidate);
    assert_eq!(result.authority, Authority::Certificate);
    assert_eq!(result.operator, RepairOperator::InvalidateOnlyClass);
    assert!(has_tag(&result.proof_tags, "repair_class_invalidate_only"));
}

#[test]
fn test_repair_aggregate_delta() {
    let shape = revenue_shape();
    let packet = make_packet(
        "orders",
        &["amount"],
        Some(RowImage::new().with_col("amount", Value::Int(100))),
        Some(RowImage::new().with_col("amount", Value::Int(150))),
    );
    let result = classify(&shape, &packet);
    assert_eq!(result.decision, Decision::Repair);
    assert_eq!(result.authority, Authority::Certificate);
    assert_eq!(result.repair_class, RepairClass::SingleTableGroupSum);
    assert_eq!(result.operator, RepairOperator::AggregateDelta);
    assert!(has_tag(&result.proof_tags, "old_new_values_present"));
    assert!(has_tag(&result.proof_tags, "aggregate_column_present"));
}

#[test]
fn test_repair_predicate_boundary_crossing() {
    let shape = revenue_shape();
    let packet = make_packet(
        "orders",
        &["status"],
        Some(
            RowImage::new()
                .with_col("status", Value::Text("pending".into()))
                .with_col("amount", Value::Int(80)),
        ),
        Some(
            RowImage::new()
                .with_col("status", Value::Text("paid".into()))
                .with_col("amount", Value::Int(80)),
        ),
    );
    let result = classify(&shape, &packet);
    assert_eq!(result.decision, Decision::Repair);
    assert_eq!(result.operator, RepairOperator::PredicateBoundaryCrossing);
    assert!(has_tag(&result.proof_tags, "predicate_boundary_checked"));
}

#[test]
fn test_repair_group_key_movement() {
    let shape = revenue_shape();
    let packet = make_packet(
        "orders",
        &["customer_id"],
        Some(RowImage::new().with_col("customer_id", Value::Text("c1".into()))),
        Some(RowImage::new().with_col("customer_id", Value::Text("c3".into()))),
    );
    let result = classify(&shape, &packet);
    assert_eq!(result.decision, Decision::Repair);
    assert_eq!(result.operator, RepairOperator::GroupKeyMovement);
    assert!(has_tag(&result.proof_tags, "group_key_changed"));
}

#[test]
fn packets_carry_exact_reasons_tags_and_fallbacks() {
    let shape = revenue_shape();
    let miss = classify(&shape, &make_packet("inventory", &["quantity"], None, None));
    assert_eq!(miss.reason, "unrelated relation");
    assert_eq!(miss.proof_tags, vec!["relation_mismatch".to_string()]);
    assert_eq!(miss.fallback, Decision::Preserve);
    assert_eq!(miss.shape_id, "revenue_by_customer_paid");
    assert_eq!(miss.event_relation, "inventory");

    let low = classify(&shape, &make_packet("orders", &["amount"], None, None));
    assert_eq!(low.reason, "insufficient evidence (have E0, need E2)");
    assert_eq!(low.fallback, Decision::Invalidate);

    let fp = classify(&shape, &make_packet("orders", &["shipping_address"], None, None));
    assert_eq!(fp.reason, "changed columns do not intersect fingerprint");
    assert_eq!(fp.proof_tags, vec!["fingerprint_miss".to_string()]);

    let delta = classify(
        &shape,
        &make_packet(
            "orders",
            &["amount"],
            Some(RowImage::new().with_col("amount", Value::Int(1))),
            Some(RowImage::new().with_col("amount", Value::Int(2))),
        ),
    );
    assert_eq!(delta.reason, "repairable via SINGLE_TABLE_GROUP_SUM");
    assert_eq!(
        delta.proof_tags,
        vec![
            "old_values_present".to_string(),
            "new_values_present".to_string(),
            "old_new_values_present".to_string(),
            "group_key_present".to_string(),
            "aggregate_column_present".to_string(),
        ]
    );
    assert_eq!(delta.fallback, Decision::Invalidate);
}

#[test]
fn stronger_evidence_keeps_a_repair() {
    let shape = revenue_shape();
    let mut packet = make_packet(
        "orders",
        &["amount"],
        Some(RowImage::new().with_col("amount", Value::Int(1))),
        Some(RowImage::new().with_col("amount", Value::Int(2))),
    );
    let at_e2 = classify(&shape, &packet);
    packet.event.evidence_level = EvidenceLevel::E3;
    let at_e3 = classify(&shape, &packet);
    assert_eq!(at_e2.decision, Decision::Repair);
    assert_eq!(at_e3.decision, at_e2.decision);
    assert_eq!(at_e3.operator, at_e2.operator);
}

#[test]
fn fingerprint_is_the_union_of_all_column_classes() {
    let mut shape = revenue_shape();
    shape.join_cols = ColumnSet::from_strs(&["region_id"]);
    shape.security_cols = ColumnSet::from_strs(&["tenant"]);
    let fp = shape.fingerprint();
    assert_eq!(
        fp.to_vec(),
        vec!["amount", "customer_id", "region_id", "status", "tenant"]
            .into_iter()
            .map(String::from)
            .collect::<Vec<_>>()
    );
}

#[test]
fn names_of_decisions_authorities_and_classes() {
    assert_eq!(Decision::Preserve.name(), "PRESERVE");
    assert_eq!(Decision::Repair.name(), "REPAIR");
    assert_eq!(Decision::Invalidate.name(), "INVALIDATE");
    assert_eq!(Authority::Diagnostic.name(), "diagnostic");
    assert_eq!(Authority::Proposal.name(), "proposal");
    assert_eq!(Authority::Certificate.name(), "certificate");
    assert_eq!(RepairClass::GroupKeyMovement.name(), "GROUP_KEY_MOVEMENT");
    assert_eq!(RepairClass::KeyPreservingJoinSum.name(), "KEY_PRESERVING_JOIN_SUM");
    assert!(!RepairClass::InvalidateOnly.is_repairable());
    assert!(RepairClass::SingleTableGroupCount.is_repairable());
}
