use smplcache::colset::ColumnSet;
use smplcache::evidence::{
    infer_evidence_level, normalize, BoundaryEvent, EvidenceLevel, EvidenceSource, FloatReading, Operation,
    RowImage, Value,
};

#[test]
fn test_evidence_level_ordering() {
    assert!(EvidenceLevel::E3 > EvidenceLevel::E2);
    assert!(EvidenceLevel::E2 > EvidenceLevel::E1);
    assert!(EvidenceLevel::E1 > EvidenceLevel::E0);
    assert!(EvidenceLevel::E3.satisfies(EvidenceLevel::E2));
    assert!(!EvidenceLevel::E0.satisfies(EvidenceLevel::E2));
}

#[test]
fn test_infer_e3_full_row_and_commit() {
    let old = Some(RowImage::new().with_col("id", Value::Int(1)));
    let new = Some(RowImage::new().with_col("id", Value::Int(1)));
    let lsn = Some("0/1234".to_string());
    assert_eq!(infer_evidence_level(&old, &new, &lsn), EvidenceLevel::E3);
}

#[test]
fn test_infer_e2_old_new_no_lsn() {
    let old = Some(RowImage::new().with_col("amount", Value::Int(100)));
    let new = Some(RowImage::new().with_col("amount", Value::Int(150)));
    assert_eq!(infer_evidence_level(&old, &new, &None), EvidenceLevel::E2);
}

#[test]
fn test_infer_e1_new_only() {
    let new = Some(RowImage::new().with_col("status", Value::Text("paid".into())));
    assert_eq!(infer_evidence_level(&None, &new, &None), EvidenceLevel::E1);
}

#[test]
fn test_infer_e0_no_row_data() {
    assert_eq!(infer_evidence_level(&None, &None, &None), EvidenceLevel::E0);
}

#[test]
fn test_infer_e0_empty_images() {
    let old = Some(RowImage::new());
    let new = Some(RowImage::new());
    assert_eq!(infer_evidence_level(&old, &new, &None), EvidenceLevel::E0);
}

#[test]
fn test_normalize_overrides_declared_level() {
    let event = BoundaryEvent {
        relation: "orders".into(),
        op: Operation::Update,
        changed_cols: ColumnSet::from_strs(&["amount"]),
        old: None,
        new: None,
        commit_lsn: None,
        evidence_level: EvidenceLevel::E3, // declared high, but payload is empty
    };

    let packet = normalize(event, EvidenceSource::WorkloadFixture, 1000);
    // Inferred level should be E0 because no row data
    assert_eq!(packet.event.evidence_level, EvidenceLevel::E0);
}

#[test]
fn test_row_image_builder() {
    let row = RowImage::new()
        .with_col("customer_id", Value::Text("c1".into()))
        .with_col("amount", Value::Int(100));
    assert_eq!(row.get("customer_id"), Some(&Value::Text("c1".into())));
    assert_eq!(row.get("amount").unwrap().as_i64(), Some(100));
    assert!(!row.is_empty());
}

#[test]
fn row_image_later_value_replaces_earlier() {
    let row = RowImage::new().with_col("amount", Value::Int(1)).with_col("amount", Value::Int(2));
    assert_eq!(row.get("amount"), Some(&Value::Int(2)));
    assert_eq!(row.get("missing"), None);
}

#[test]
fn value_readings() {
    let f = Value::Float(FloatReading { truncated: 2, rendered: "2.5".into() });
    assert_eq!(f.as_i64(), Some(2));
    assert_eq!(Value::Text("x".into()).as_i64(), None);
    assert_eq!(Value::Text("x".into()).as_str(), Some("x"));
    assert_eq!(Value::Bool(true).as_str(), None);
    assert_eq!(Value::Null.as_i64(), None);
}

#[test]
fn level_names_and_satisfaction_order() {
    assert_eq!(EvidenceLevel::E0.name(), "E0");
    assert_eq!(EvidenceLevel::E3.name(), "E3");
    assert!(EvidenceLevel::E2.satisfies(EvidenceLevel::E2));
    assert!(EvidenceLevel::E3.satisfies(EvidenceLevel::E0));
    assert!(!EvidenceLevel::E1.satisfies(EvidenceLevel::E3));
}

#[test]
fn more_data_never_lowers_inferred_level() {
    let row = || Some(RowImage::new().with_col("id", Value::Int(1)));
    let base = infer_evidence_level(&None, &row(), &None);
    let more = infer_evidence_level(&row(), &row(), &None);
    let most = infer_evidence_level(&row(), &row(), &Some("0/1".to_string()));
    assert!(base <= more && more <= most);
    // a commit position without an old image adds nothing
    assert_eq!(infer_evidence_level(&None, &row(), &Some("0/1".to_string())), EvidenceLevel::E1);
}

#[test]
fn normalizing_twice_is_normalizing_once() {
    let event = BoundaryEvent {
        relation: "orders".into(),
        op: Operation::Insert,
        changed_cols: ColumnSet::from_strs(&["amount"]),
        old: None,
        new: Some(RowImage::new().with_col("amount", Value::Int(5))),
        commit_lsn: Some("0/9".into()),
        evidence_level: EvidenceLevel::E0,
    };
    let once = normalize(event, EvidenceSource::Debezium, 7);
    assert_eq!(once.event.evidence_level, EvidenceLevel::E1);
    assert_eq!(once.normalized_at_epoch_ms, 7);
    assert_eq!(once.source, EvidenceSource::Debezium);
    let twice = normalize(once.event.clone(), EvidenceSource::Debezium, 7);
    assert_eq!(twice, once);
}

#[test]
fn row_images_compare_by_contents_not_by_insertion_order() {
    let a = RowImage::new().with_col("b", Value::Int(2)).with_col("a", Value::Int(1));
    let b = RowImage::new().with_col("a", Value::Int(1)).with_col("b", Value::Int(2));
    assert_eq!(a, b);
    assert_eq!(a.clone(), b);
    let c = RowImage::new().with_col("a", Value::Int(1)).with_col("b", Value::Int(3));
    assert_ne!(a, c);
    let d = RowImage::new().with_col("a", Value::Int(9)).with_col("b", Value::Int(2)).with_col("a", Value::Int(1));
    assert_eq!(d, b);
}
