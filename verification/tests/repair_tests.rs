use smplcache::cert::{AggregateFunction, Authority, Decision, DecisionPacket, QueryShape, RepairClass, RepairOperator};
use smplcache::colset::ColumnSet;
use smplcache::evidence::{BoundaryEvent, EvidenceLevel, Operation, RowImage, Value};
use smplcache::repair::{build_plan, PostgresEmitter, RepairEmitter, RepairScenario, SqlServerEmitter};

fn test_shape() -> QueryShape {
    QueryShape {
        name: "revenue".into(),
        relation: "orders".into(),
        predicate_cols: ColumnSet::from_strs(&["status"]),
        aggregate_cols: ColumnSet::from_strs(&["amount"]),
        group_cols: ColumnSet::from_strs(&["customer_id"]),
        projection_cols: ColumnSet::new(),
        join_cols: ColumnSet::new(),
        security_cols: ColumnSet::new(),
        required_evidence: EvidenceLevel::E2,
        repair_class: RepairClass::SingleTableGroupSum,
        aggregate_function: AggregateFunction::Sum,
    }
}

fn repair_packet() -> DecisionPacket {
    DecisionPacket {
        decision: Decision::Repair,
        authority: Authority::Certificate,
        shape_id: "revenue".into(),
        event_relation: "orders".into(),
        evidence_level: EvidenceLevel::E3,
        required_evidence: EvidenceLevel::E2,
        repair_class: RepairClass::SingleTableGroupSum,
        operator: RepairOperator::AggregateDelta,
        reason: "repairable via SINGLE_TABLE_GROUP_SUM".into(),
        proof_tags: vec!["old_new_values_present".into()],
        fallback: Decision::Invalidate,
    }
}

fn update(changed: &[&str], old: Option<RowImage>, new: Option<RowImage>, level: EvidenceLevel) -> BoundaryEvent {
    BoundaryEvent {
        relation: "orders".into(),
        op: Operation::Update,
        changed_cols: ColumnSet::from_strs(changed),
        old,
        new,
        commit_lsn: None,
        evidence_level: level,
    }
}

#[test]
fn test_aggregate_delta_sqlserver() {
    let shape = test_shape();
    let event = update(
        &["amount"],
        Some(RowImage::new().with_col("amount", Value::Int(100))),
        Some(RowImage::new().with_col("amount", Value::Int(150))),
        EvidenceLevel::E2,
    );

    let plan = build_plan(repair_packet(), &shape, &event, "q_hash_rev");
    assert_eq!(
        plan.scenario,
        RepairScenario::AggregateDelta { aggr_col: "amount".into(), old_val: 100, new_val: 150, delta: 50 }
    );

    let sql = SqlServerEmitter.emit(&plan, &shape);
    assert_eq!(sql.len(), 1);
    assert!(sql[0].contains("value + (50)"));
    assert!(sql[0].contains("q_hash_rev"));
}

#[test]
fn test_invalidation_sqlserver() {
    let shape = test_shape();
    let event = update(&["amount"], None, None, EvidenceLevel::E0);

    let packet = DecisionPacket {
        decision: Decision::Invalidate,
        authority: Authority::Certificate,
        shape_id: "revenue".into(),
        event_relation: "orders".into(),
        evidence_level: EvidenceLevel::E0,
        required_evidence: EvidenceLevel::E2,
        repair_class: RepairClass::SingleTableGroupSum,
        operator: RepairOperator::EvidenceInsufficient,
        reason: "insufficient evidence".into(),
        proof_tags: vec![],
        fallback: Decision::Invalidate,
    };

    let plan = build_plan(packet, &shape, &event, "q_hash_rev");
    let sql = SqlServerEmitter.emit(&plan, &shape);
    assert_eq!(sql.len(), 1);
    assert!(sql[0].contains("DELETE"));
    assert!(sql[0].contains("q_hash_rev"));
}

#[test]
fn test_group_key_movement_postgres() {
    let shape = test_shape();
    let event = update(
        &["customer_id"],
        Some(RowImage::new().with_col("customer_id", Value::Text("c1".into()))),
        Some(RowImage::new().with_col("customer_id", Value::Text("c3".into()))),
        EvidenceLevel::E2,
    );

    let plan = build_plan(repair_packet(), &shape, &event, "q_hash_rev");
    let sql = PostgresEmitter.emit(&plan, &shape);
    assert_eq!(sql.len(), 2);
    assert!(sql[0].contains("Step 1"));
    assert!(sql[0].contains("old_customer_id"));
    assert!(sql[1].contains("Step 2"));
    assert!(sql[1].contains("new_customer_id"));
}

#[test]
fn test_preserve_emits_nothing() {
    let shape = test_shape();
    let event = update(&["shipping_address"], None, None, EvidenceLevel::E0);

    let packet = DecisionPacket {
        decision: Decision::Preserve,
        authority: Authority::Certificate,
        shape_id: "revenue".into(),
        event_relation: "orders".into(),
        evidence_level: EvidenceLevel::E0,
        required_evidence: EvidenceLevel::E2,
        repair_class: RepairClass::SingleTableGroupSum,
        operator: RepairOperator::FingerprintMiss,
        reason: "no intersection".into(),
        proof_tags: vec![],
        fallback: Decision::Preserve,
    };

    let plan = build_plan(packet, &shape, &event, "q_hash_rev");
    let sql = SqlServerEmitter.emit(&plan, &shape);
    assert!(sql.is_empty());
}

#[test]
fn invalidation_plans_delete_exactly_the_cached_entry() {
    let shape = test_shape();
    let event = update(&["amount"], None, None, EvidenceLevel::E0);
    let mut packet = repair_packet();
    packet.decision = Decision::Invalidate;
    packet.reason = "insufficient evidence".into();
    let plan = build_plan(packet, &shape, &event, "h1");
    assert_eq!(plan.scenario, RepairScenario::Invalidation { reason: "insufficient evidence".into() });
    assert!(plan.statements.is_empty());
    assert_eq!(plan.shape_hash, "h1");
    assert_eq!(SqlServerEmitter.emit(&plan, &shape), vec!["DELETE FROM dbo.cached_aggregates WHERE shape_hash = 'h1';".to_string()]);
    assert_eq!(PostgresEmitter.emit(&plan, &shape), vec!["DELETE FROM cached_aggregates WHERE shape_hash = 'h1';".to_string()]);
}

#[test]
fn predicate_crossing_and_count_scenarios() {
    let shape = test_shape();
    let crossing = update(
        &["status"],
        Some(RowImage::new().with_col("status", Value::Text("pending".into()))),
        Some(RowImage::new().with_col("status", Value::Text("paid".into()))),
        EvidenceLevel::E2,
    );
    let plan = build_plan(repair_packet(), &shape, &crossing, "h");
    assert_eq!(
        plan.scenario,
        RepairScenario::PredicateBoundaryCrossing {
            pred_col: "status".into(),
            old_val: "pending".into(),
            new_val: "paid".into()
        }
    );
    assert_eq!(SqlServerEmitter.emit(&plan, &shape).len(), 1);

    let mut counting = test_shape();
    counting.aggregate_function = AggregateFunction::Count;
    let changed = update(
        &["amount"],
        Some(RowImage::new().with_col("amount", Value::Int(1))),
        Some(RowImage::new().with_col("amount", Value::Int(9))),
        EvidenceLevel::E2,
    );
    let plan = build_plan(repair_packet(), &counting, &changed, "h");
    assert_eq!(plan.scenario, RepairScenario::CountAdjust { direction: 0 });
}

#[test]
fn negative_delta_is_rendered_with_its_sign() {
    let shape = test_shape();
    let event = update(
        &["amount"],
        Some(RowImage::new().with_col("amount", Value::Int(150))),
        Some(RowImage::new().with_col("amount", Value::Int(100))),
        EvidenceLevel::E2,
    );
    let plan = build_plan(repair_packet(), &shape, &event, "h");
    let sql = PostgresEmitter.emit(&plan, &shape);
    assert_eq!(sql.len(), 1);
    assert!(sql[0].contains("value + (-50)"));
}
