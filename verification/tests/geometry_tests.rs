use smplcache::cert::{AggregateFunction, QueryShape, RepairClass};
use smplcache::colset::ColumnSet;
use smplcache::evidence::{BoundaryEvent, EvidenceLevel, EvidencePacket, EvidenceSource, Operation, RowImage, Value};
use smplcache::geometry::analyze_coupling;
use smplcache::lifts::{propose_lifts, LiftAction, ReductionEstimate};

fn make_shape(name: &str, relation: &str, pred_cols: &[&str], agg_cols: &[&str], group_cols: &[&str]) -> QueryShape {
    QueryShape {
        name: name.into(),
        relation: relation.into(),
        predicate_cols: ColumnSet::from_strs(pred_cols),
        aggregate_cols: ColumnSet::from_strs(agg_cols),
        group_cols: ColumnSet::from_strs(group_cols),
        projection_cols: ColumnSet::new(),
        join_cols: ColumnSet::new(),
        security_cols: ColumnSet::new(),
        required_evidence: EvidenceLevel::E2,
        repair_class: RepairClass::SingleTableGroupSum,
        aggregate_function: AggregateFunction::Sum,
    }
}

fn make_event(relation: &str, changed: &[&str]) -> EvidencePacket {
    EvidencePacket {
        event: BoundaryEvent {
            relation: relation.into(),
            op: Operation::Update,
            changed_cols: ColumnSet::from_strs(changed),
            old: Some(RowImage::new().with_col("dummy", Value::Int(0))),
            new: Some(RowImage::new().with_col("dummy", Value::Int(1))),
            commit_lsn: None,
            evidence_level: EvidenceLevel::E2,
        },
        normalized_at_epoch_ms: 1000,
        source: EvidenceSource::WorkloadFixture,
    }
}

#[test]
fn test_coupling_graph_basic() {
    let shapes = vec![
        make_shape("revenue", "orders", &["status"], &["amount"], &["customer_id"]),
        make_shape("dashboard", "orders", &["status"], &[], &[]),
        make_shape("inventory", "inventory", &[], &["quantity"], &["item_id"]),
    ];

    let events = vec![
        make_event("orders", &["status"]),
        make_event("orders", &["status"]),
        make_event("inventory", &["quantity"]),
    ];

    let report = analyze_coupling(&shapes, &events);

    // revenue + dashboard co-invalidated by "status" changes
    assert!(report.graph.edges.len() >= 1);
    // inventory is in a separate component
    assert!(report.components.len() >= 2);
}

#[test]
fn test_cycle_detection() {
    let shapes = vec![
        make_shape("a", "t", &["x"], &[], &[]),
        make_shape("b", "t", &["x"], &[], &[]),
        make_shape("c", "t", &["x"], &[], &[]),
    ];

    // All three shapes co-invalidated: a triangle, one cycle
    let events = vec![make_event("t", &["x"])];

    let report = analyze_coupling(&shapes, &events);
    // 3 edges (a-b, a-c, b-c), 3 active nodes, 1 component
    // cycles = E - V + C = 3 - 3 + 1 = 1
    assert_eq!(report.graph.edges.len(), 3);
    assert_eq!(report.cycles, 1);
}

#[test]
fn test_no_coupling_independent_shapes() {
    let shapes = vec![
        make_shape("a", "orders", &["status"], &[], &[]),
        make_shape("b", "inventory", &["quantity"], &[], &[]),
    ];

    let events = vec![make_event("orders", &["status"]), make_event("inventory", &["quantity"])];

    let report = analyze_coupling(&shapes, &events);
    assert_eq!(report.graph.edges.len(), 0);
    assert_eq!(report.cycles, 0);
    assert!(report.components.len() >= 2);
}

#[test]
fn test_hotspot_ranking() {
    let shapes = vec![make_shape("hot", "t", &["x"], &[], &[]), make_shape("cold", "t", &["y"], &[], &[])];

    let events = vec![
        make_event("t", &["x"]),
        make_event("t", &["x"]),
        make_event("t", &["x"]),
        make_event("t", &["y"]),
    ];

    let report = analyze_coupling(&shapes, &events);
    let score = |i: usize| {
        let h = &report.hotspots[i];
        h.invalidation_count as f64 / h.total_invalidations as f64
    };
    assert!(!report.hotspots.is_empty());
    assert_eq!(report.hotspots[0].shape_id, "hot");
    assert!(score(0) > score(1));
}

#[test]
fn test_lift_proposal_split_column() {
    let shapes = vec![
        make_shape("a", "orders", &["status"], &["amount"], &["customer_id"]),
        make_shape("b", "orders", &["status"], &[], &[]),
    ];

    let events = vec![make_event("orders", &["status"])];

    let report = analyze_coupling(&shapes, &events);
    let proposals = propose_lifts(&report, &shapes);

    // "status" column shared across coupled shapes: split proposal
    assert!(!proposals.is_empty());
    assert!(proposals
        .iter()
        .any(|p| matches!(&p.action, LiftAction::SplitColumn { column, .. } if column == "status")));
}

#[test]
fn report_counts_components_edges_and_hotspots_exactly() {
    let shapes = vec![
        make_shape("revenue", "orders", &["status"], &["amount"], &["customer_id"]),
        make_shape("dashboard", "orders", &["status"], &[], &[]),
        make_shape("inventory", "inventory", &[], &["quantity"], &["item_id"]),
        make_shape("idle", "returns", &["reason"], &[], &[]),
    ];
    let events = vec![
        make_event("orders", &["status"]),
        make_event("orders", &["status"]),
        make_event("orders", &["amount"]),
        make_event("inventory", &["quantity"]),
    ];
    let report = analyze_coupling(&shapes, &events);
    assert_eq!(report.graph.nodes, vec!["revenue", "dashboard", "inventory", "idle"]);
    assert_eq!(report.graph.edges.len(), 1);
    let e = &report.graph.edges[0];
    assert_eq!((e.left, e.right, e.event_count), (0, 1, 2));
    assert_eq!(report.invalidation_counts, vec![3, 2, 1, 0]);
    assert_eq!(
        report.components,
        vec![vec!["revenue".to_string(), "dashboard".to_string()], vec!["inventory".to_string()], vec!["idle".to_string()]]
    );
    // 1 edge, 3 active nodes: fewer edges than active nodes, so no cycle
    assert_eq!(report.cycles, 0);
    assert_eq!(report.coupled_pairs, 1);
    assert_eq!(report.max_pairs, 6);
    let ranked: Vec<(&str, usize)> =
        report.hotspots.iter().map(|h| (h.shape_id.as_str(), h.invalidation_count)).collect();
    assert_eq!(ranked, vec![("revenue", 3), ("dashboard", 2), ("inventory", 1)]);
    assert!(report.hotspots.iter().all(|h| h.total_invalidations == 6 && h.repair_count == 0));
}

#[test]
fn empty_workload_has_an_empty_report() {
    let report = analyze_coupling(&[], &[]);
    assert!(report.components.is_empty());
    assert_eq!(report.cycles, 0);
    assert_eq!(report.max_pairs, 1);
    assert!(report.hotspots.is_empty());
    assert!(report.graph.edges.is_empty());
}

#[test]
fn split_proposal_names_the_column_shapes_and_relation() {
    let shapes = vec![
        make_shape("a", "orders", &["status"], &["amount"], &["customer_id"]),
        make_shape("b", "orders", &["status"], &[], &[]),
    ];
    let report = analyze_coupling(&shapes, &[make_event("orders", &["status"])]);
    let proposals = propose_lifts(&report, &shapes);
    assert_eq!(proposals.len(), 1);
    match &proposals[0].action {
        LiftAction::SplitColumn { relation, column, into } => {
            assert_eq!(relation, "orders");
            assert_eq!(column, "status");
            assert_eq!(into, &vec!["status_a".to_string(), "status_b".to_string()]);
        }
        other => panic!("unexpected proposal {:?}", other),
    }
    assert_eq!(proposals[0].witness, vec!["a".to_string(), "b".to_string()]);
    assert_eq!(proposals[0].expected_reduction, ReductionEstimate::SharedColumn { shapes: 2 });
}

#[test]
fn hot_shape_with_projection_gets_a_covering_projection() {
    let mut hot = make_shape("hot", "t", &["x"], &[], &[]);
    hot.projection_cols = ColumnSet::from_strs(&["y", "z"]);
    let shapes = vec![hot, make_shape("cold", "t", &["w"], &[], &[])];
    let events = vec![make_event("t", &["x"]), make_event("t", &["x"]), make_event("t", &["w"])];
    let report = analyze_coupling(&shapes, &events);
    let proposals = propose_lifts(&report, &shapes);
    assert_eq!(proposals.len(), 1);
    match &proposals[0].action {
        LiftAction::AddProjection { relation, keys, includes } => {
            assert_eq!(relation, "t");
            assert_eq!(keys, &vec!["x".to_string()]);
            assert_eq!(includes, &vec!["y".to_string(), "z".to_string()]);
        }
        other => panic!("unexpected proposal {:?}", other),
    }
    assert_eq!(proposals[0].expected_reduction, ReductionEstimate::Hotspot { invalidations: 2, total: 3 });
}

#[test]
fn shapes_joined_through_a_chain_of_edges_share_a_component() {
    let shapes = vec![
        make_shape("a", "t", &["x"], &[], &[]),
        make_shape("b", "t", &["x", "y"], &[], &[]),
        make_shape("c", "t", &["y"], &[], &[]),
    ];
    let events = vec![make_event("t", &["x"]), make_event("t", &["y"])];
    let report = analyze_coupling(&shapes, &events);
    let edges: Vec<(usize, usize, usize)> =
        report.graph.edges.iter().map(|e| (e.left, e.right, e.event_count)).collect();
    assert_eq!(edges, vec![(0, 1, 1), (1, 2, 1)]);
    assert_eq!(report.components, vec![vec!["a".to_string(), "b".to_string(), "c".to_string()]]);
    assert_eq!(report.cycles, 0);
}

#[test]
fn cycle_rank_counts_every_shape_once() {
    let shapes = vec![
        make_shape("a", "t", &["x"], &[], &[]),
        make_shape("b", "t", &["x"], &[], &[]),
        make_shape("c", "t", &["x"], &[], &[]),
        make_shape("d", "t", &["y"], &[], &[]),
    ];
    let events = vec![make_event("t", &["x"])];
    let report = analyze_coupling(&shapes, &events);
    assert_eq!(report.graph.edges.len(), 3);
    assert_eq!(report.components.len(), 2);
    // 3 edges - 4 shapes + 2 components
    assert_eq!(report.cycles, 1);
}
