//! Certified decision packets: the trust kernel.
//!
//! Every cache decision (preserve, repair, invalidate) becomes a checked
//! packet with authority, proof tags and fallback behaviour.
//!
//! The product rule:
//!   PRESERVE certified when boundary and fingerprint do not intersect.
//!   REPAIR certified when evidence is sufficient.
//!   INVALIDATE certified when evidence is insufficient.
//!
//! There is no "I don't know": every path emits a certificate.
use vstd::prelude::*;
use crate::colset::ColumnSet;
use crate::evidence::{BoundaryEvent, EvidenceLevel, EvidencePacket, has_rows, level_name, level_rank, row_present};
use crate::text::{cat, str_eq};

verus! {

/// What happens to a cached entry.
#[derive(Debug, Clone, Copy, PartialEq, Eq, Hash)]
pub enum Decision {
    Preserve,
    Repair,
    Invalidate,
}

/// The display name of a decision.
pub open spec fn decision_name(d: Decision) -> Seq<char> {
    match d {
        Decision::Preserve => "PRESERVE"@,
        Decision::Repair => "REPAIR"@,
        Decision::Invalidate => "INVALIDATE"@,
    }
}

impl Decision {
    /// The display name, in capitals.
    pub fn name(&self) -> (r: &'static str)
        ensures r@ == decision_name(*self),
    {
        match self {
            Decision::Preserve => "PRESERVE",
            Decision::Repair => "REPAIR",
            Decision::Invalidate => "INVALIDATE",
        }
    }
}

/// How far a decision may be acted upon.
#[derive(Debug, Clone, Copy, PartialEq, Eq, Hash)]
pub enum Authority {
    /// Informational only, no action authority.
    Diagnostic,
    /// Suggested action, needs human approval.
    Proposal,
    /// Machine-checkable decision, safe to execute.
    Certificate,
}

/// The display name of an authority.
pub open spec fn authority_name(a: Authority) -> Seq<char> {
    match a {
        Authority::Diagnostic => "diagnostic"@,
        Authority::Proposal => "proposal"@,
        Authority::Certificate => "certificate"@,
    }
}

impl Authority {
    /// The display name, in lower case.
    pub fn name(&self) -> (r: &'static str)
        ensures r@ == authority_name(*self),
    {
        match self {
            Authority::Diagnostic => "diagnostic",
            Authority::Proposal => "proposal",
            Authority::Certificate => "certificate",
        }
    }
}

/// The way a shape's cached result can be repaired.
#[derive(Debug, Clone, Copy, PartialEq, Eq, Hash)]
pub enum RepairClass {
    InvalidateOnly,
    SingleTableGroupSum,
    SingleTableGroupCount,
    PredicateBoundaryCrossing,
    GroupKeyMovement,
    KeyPreservingJoinSum,
}

/// The display name of a repair class.
pub open spec fn repair_class_name(c: RepairClass) -> Seq<char> {
    match c {
        RepairClass::InvalidateOnly => "INVALIDATE_ONLY"@,
        RepairClass::SingleTableGroupSum => "SINGLE_TABLE_GROUP_SUM"@,
        RepairClass::SingleTableGroupCount => "SINGLE_TABLE_GROUP_COUNT"@,
        RepairClass::PredicateBoundaryCrossing => "PREDICATE_BOUNDARY_CROSSING"@,
        RepairClass::GroupKeyMovement => "GROUP_KEY_MOVEMENT"@,
        RepairClass::KeyPreservingJoinSum => "KEY_PRESERVING_JOIN_SUM"@,
    }
}

impl RepairClass {
    /// Every class but `InvalidateOnly` can be repaired.
    pub fn is_repairable(&self) -> (r: bool)
        ensures r == (*self != RepairClass::InvalidateOnly),
    {
        match self {
            RepairClass::InvalidateOnly => false,
            _ => true,
        }
    }

    /// The display name, in capitals.
    pub fn name(&self) -> (r: &'static str)
        ensures r@ == repair_class_name(*self),
    {
        match self {
            RepairClass::InvalidateOnly => "INVALIDATE_ONLY",
            RepairClass::SingleTableGroupSum => "SINGLE_TABLE_GROUP_SUM",
            RepairClass::SingleTableGroupCount => "SINGLE_TABLE_GROUP_COUNT",
            RepairClass::PredicateBoundaryCrossing => "PREDICATE_BOUNDARY_CROSSING",
            RepairClass::GroupKeyMovement => "GROUP_KEY_MOVEMENT",
            RepairClass::KeyPreservingJoinSum => "KEY_PRESERVING_JOIN_SUM",
        }
    }
}

/// The branch of the decision tree that produced a packet.
#[derive(Debug, Clone, Copy, PartialEq, Eq, Hash)]
pub enum RepairOperator {
    RelationMismatch,
    FingerprintMiss,
    EvidenceInsufficient,
    InvalidateOnlyClass,
    AggregateDelta,
    PredicateBoundaryCrossing,
    GroupKeyMovement,
    GenericRepair,
}

/// The aggregate a shape computes.
#[derive(Debug, Clone, Copy, PartialEq, Eq, Hash)]
pub enum AggregateFunction {
    Sum,
    Count,
    Avg,
    Min,
    Max,
    NoAggregate,
}

/// A cached query shape and the columns it depends on.
#[derive(Debug, Clone, PartialEq)]
pub struct QueryShape {
    pub name: String,
    pub relation: String,
    pub predicate_cols: ColumnSet,
    pub aggregate_cols: ColumnSet,
    pub group_cols: ColumnSet,
    pub projection_cols: ColumnSet,
    pub join_cols: ColumnSet,
    pub security_cols: ColumnSet,
    pub required_evidence: EvidenceLevel,
    pub repair_class: RepairClass,
    pub aggregate_function: AggregateFunction,
}

/// The dependency fingerprint: every column the shape reads.
pub open spec fn fingerprint_of(s: QueryShape) -> Set<Seq<char>> {
    s.predicate_cols@.union(s.aggregate_cols@).union(s.group_cols@)
        .union(s.projection_cols@).union(s.join_cols@).union(s.security_cols@)
}

/// Whether two column sets share a name.
pub open spec fn shares(a: Set<Seq<char>>, b: Set<Seq<char>>) -> bool {
    exists|c: Seq<char>| a.contains(c) && b.contains(c)
}

impl QueryShape {
    /// The dependency fingerprint: the union of all column classes. If a CDC
    /// event's changed columns intersect it, the shape is affected.
    pub fn fingerprint(&self) -> (r: ColumnSet)
        ensures r@ == fingerprint_of(*self),
    {
        let a = self.predicate_cols.union(&self.aggregate_cols);
        let b = a.union(&self.group_cols);
        let c = b.union(&self.projection_cols);
        let d = c.union(&self.join_cols);
        d.union(&self.security_cols)
    }
}

/// A certified cache decision.
#[derive(Debug, Clone, PartialEq)]
pub struct DecisionPacket {
    pub decision: Decision,
    pub authority: Authority,
    pub shape_id: String,
    pub event_relation: String,
    pub evidence_level: EvidenceLevel,
    pub required_evidence: EvidenceLevel,
    pub repair_class: RepairClass,
    pub operator: RepairOperator,
    pub reason: String,
    pub proof_tags: Vec<String>,
    pub fallback: Decision,
}

/// The view of a list of strings.
pub open spec fn strings_view(v: Seq<String>) -> Seq<Seq<char>> {
    v.map_values(|s: String| s@)
}

/// The branch of the decision tree a shape and an event fall into.
pub open spec fn classify_operator(shape: QueryShape, event: BoundaryEvent) -> RepairOperator {
    if event.relation@ != shape.relation@ {
        RepairOperator::RelationMismatch
    } else if !shares(fingerprint_of(shape), event.changed_cols@) {
        RepairOperator::FingerprintMiss
    } else if level_rank(event.evidence_level) < level_rank(shape.required_evidence) {
        RepairOperator::EvidenceInsufficient
    } else if shape.repair_class == RepairClass::InvalidateOnly {
        RepairOperator::InvalidateOnlyClass
    } else if shares(shape.group_cols@, event.changed_cols@) {
        RepairOperator::GroupKeyMovement
    } else if shares(shape.predicate_cols@, event.changed_cols@) {
        RepairOperator::PredicateBoundaryCrossing
    } else if shares(shape.aggregate_cols@, event.changed_cols@) {
        RepairOperator::AggregateDelta
    } else {
        RepairOperator::GenericRepair
    }
}

/// The decision each branch certifies.
pub open spec fn decision_of(op: RepairOperator) -> Decision {
    match op {
        RepairOperator::RelationMismatch | RepairOperator::FingerprintMiss => Decision::Preserve,
        RepairOperator::EvidenceInsufficient | RepairOperator::InvalidateOnlyClass => Decision::Invalidate,
        _ => Decision::Repair,
    }
}

/// The fallback each branch names: preserve for preserving branches,
/// invalidate otherwise.
pub open spec fn fallback_of(op: RepairOperator) -> Decision {
    match op {
        RepairOperator::RelationMismatch | RepairOperator::FingerprintMiss => Decision::Preserve,
        _ => Decision::Invalidate,
    }
}

/// The reason text of each branch.
pub open spec fn reason_of(shape: QueryShape, event: BoundaryEvent, op: RepairOperator) -> Seq<char> {
    match op {
        RepairOperator::RelationMismatch => "unrelated relation"@,
        RepairOperator::FingerprintMiss => "changed columns do not intersect fingerprint"@,
        RepairOperator::EvidenceInsufficient =>
            "insufficient evidence (have "@ + level_name(event.evidence_level) + ", need "@
                + level_name(shape.required_evidence) + ")"@,
        RepairOperator::InvalidateOnlyClass => "shape is invalidate-only"@,
        _ => "repairable via "@ + repair_class_name(shape.repair_class),
    }
}

/// A one-element tag list when `b` holds, else nothing.
pub open spec fn tag_if(b: bool, t: Seq<char>) -> Seq<Seq<char>> {
    if b { seq![t] } else { Seq::empty() }
}

/// The proof tags of a repair decision, in the order they are collected.
pub open spec fn repair_tags(shape: QueryShape, event: BoundaryEvent) -> Seq<Seq<char>> {
    let has_old = has_rows(event.old);
    let has_new = has_rows(event.new);
    tag_if(has_old, "old_values_present"@)
        + tag_if(has_new, "new_values_present"@)
        + tag_if(has_old && has_new, "old_new_values_present"@)
        + tag_if(shares(shape.predicate_cols@, event.changed_cols@), "predicate_boundary_checked"@)
        + (if shares(shape.group_cols@, event.changed_cols@) {
            seq!["group_key_changed"@]
        } else {
            tag_if(shape.group_cols@ != Set::<Seq<char>>::empty(), "group_key_present"@)
        })
        + tag_if(shape.aggregate_cols@ != Set::<Seq<char>>::empty(), "aggregate_column_present"@)
}

/// The proof tags of each branch.
pub open spec fn tags_of(shape: QueryShape, event: BoundaryEvent, op: RepairOperator) -> Seq<Seq<char>> {
    match op {
        RepairOperator::RelationMismatch => seq!["relation_mismatch"@],
        RepairOperator::FingerprintMiss => seq!["fingerprint_miss"@],
        RepairOperator::EvidenceInsufficient => seq!["evidence_insufficient"@],
        RepairOperator::InvalidateOnlyClass => seq!["repair_class_invalidate_only"@],
        _ => repair_tags(shape, event),
    }
}

/// The packet `classify` certifies for a shape and an event.
pub open spec fn certified(p: DecisionPacket, shape: QueryShape, event: BoundaryEvent) -> bool {
    let op = classify_operator(shape, event);
    &&& p.operator == op
    &&& p.decision == decision_of(op)
    &&& p.authority == Authority::Certificate
    &&& p.fallback == fallback_of(op)
    &&& p.shape_id@ == shape.name@
    &&& p.event_relation@ == event.relation@
    &&& p.evidence_level == event.evidence_level
    &&& p.required_evidence == shape.required_evidence
    &&& p.repair_class == shape.repair_class
    &&& p.reason@ == reason_of(shape, event, op)
    &&& strings_view(p.proof_tags@) == tags_of(shape, event, op)
}

fn push_tag(tags: &mut Vec<String>, t: &str)
    ensures strings_view(final(tags)@) == strings_view(old(tags)@).push(t@),
{
    let ghost before = tags@;
    tags.push(String::from_str(t));
    assert(strings_view(tags@) =~= strings_view(before).push(t@));
}

fn single_tag(t: &str) -> (r: Vec<String>)
    ensures strings_view(r@) == seq![t@],
{
    let mut v: Vec<String> = Vec::new();
    push_tag(&mut v, t);
    assert(strings_view(v@) =~= seq![t@]);
    v
}

fn collect_proof_tags(shape: &QueryShape, event: &BoundaryEvent) -> (r: Vec<String>)
    ensures strings_view(r@) == repair_tags(*shape, *event),
{
    let mut tags: Vec<String> = Vec::new();
    let ghost mut acc: Seq<Seq<char>> = Seq::empty();
    let has_old = row_present(&event.old);
    let has_new = row_present(&event.new);
    if has_old {
        push_tag(&mut tags, "old_values_present");
    }
    proof { acc = acc + tag_if(has_old, "old_values_present"@); assert(strings_view(tags@) =~= acc); }
    if has_new {
        push_tag(&mut tags, "new_values_present");
    }
    proof { acc = acc + tag_if(has_new, "new_values_present"@); assert(strings_view(tags@) =~= acc); }
    if has_old && has_new {
        push_tag(&mut tags, "old_new_values_present");
    }
    proof { acc = acc + tag_if(has_old && has_new, "old_new_values_present"@); assert(strings_view(tags@) =~= acc); }
    let pred = shape.predicate_cols.intersects(&event.changed_cols);
    if pred {
        push_tag(&mut tags, "predicate_boundary_checked");
    }
    proof { acc = acc + tag_if(pred, "predicate_boundary_checked"@); assert(strings_view(tags@) =~= acc); }
    let group = shape.group_cols.intersects(&event.changed_cols);
    let group_empty = shape.group_cols.is_empty();
    if group {
        push_tag(&mut tags, "group_key_changed");
    } else if !group_empty {
        push_tag(&mut tags, "group_key_present");
    }
    proof {
        acc = acc + (if group { seq!["group_key_changed"@] } else {
            tag_if(shape.group_cols@ != Set::<Seq<char>>::empty(), "group_key_present"@) });
        assert(strings_view(tags@) =~= acc);
    }
    let agg_empty = shape.aggregate_cols.is_empty();
    if !agg_empty {
        push_tag(&mut tags, "aggregate_column_present");
    }
    proof {
        acc = acc + tag_if(shape.aggregate_cols@ != Set::<Seq<char>>::empty(), "aggregate_column_present"@);
        assert(strings_view(tags@) =~= acc);
    }
    tags
}

fn string_of(s: &String) -> (r: String)
    ensures r@ == s@,
{
    String::from_str(s.as_str())
}

/// Classify a shape and an event into a certified decision packet.
///
/// Decision tree:
/// 1. Relation mismatch: PRESERVE certified
/// 2. Fingerprint miss: PRESERVE certified
/// 3. Evidence insufficient: INVALIDATE certified
/// 4. Repair class is invalidate-only: INVALIDATE certified
/// 5. Evidence met and class repairable: REPAIR certified
pub fn classify(shape: &QueryShape, packet: &EvidencePacket) -> (r: DecisionPacket)
    ensures
        certified(r, *shape, packet.event),
        // every path emits a certificate
        r.authority == Authority::Certificate,
        // the product rule
        (r.decision == Decision::Preserve) <==> (packet.event.relation@ != shape.relation@
            || !shares(fingerprint_of(*shape), packet.event.changed_cols@)),
        r.decision == Decision::Repair ==> level_rank(packet.event.evidence_level) >= level_rank(shape.required_evidence)
            && shape.repair_class != RepairClass::InvalidateOnly,
        (packet.event.relation@ == shape.relation@ && shares(fingerprint_of(*shape), packet.event.changed_cols@)
            && level_rank(packet.event.evidence_level) < level_rank(shape.required_evidence))
            ==> r.decision == Decision::Invalidate,
        r.decision == Decision::Invalidate ==> r.fallback == Decision::Invalidate,
        r.decision == Decision::Repair ==> r.fallback == Decision::Invalidate,
{
    let event = &packet.event;

    // 1. Relation mismatch
    if !str_eq(event.relation.as_str(), shape.relation.as_str()) {
        proof { reveal_strlit("unrelated relation"); }
        return DecisionPacket {
            decision: Decision::Preserve,
            authority: Authority::Certificate,
            shape_id: string_of(&shape.name),
            event_relation: string_of(&event.relation),
            evidence_level: event.evidence_level,
            required_evidence: shape.required_evidence,
            repair_class: shape.repair_class,
            operator: RepairOperator::RelationMismatch,
            reason: String::from_str("unrelated relation"),
            proof_tags: single_tag("relation_mismatch"),
            fallback: Decision::Preserve,
        };
    }

    // 2. Fingerprint miss
    let fingerprint = shape.fingerprint();
    if !fingerprint.intersects(&event.changed_cols) {
        return DecisionPacket {
            decision: Decision::Preserve,
            authority: Authority::Certificate,
            shape_id: string_of(&shape.name),
            event_relation: string_of(&event.relation),
            evidence_level: event.evidence_level,
            required_evidence: shape.required_evidence,
            repair_class: shape.repair_class,
            operator: RepairOperator::FingerprintMiss,
            reason: String::from_str("changed columns do not intersect fingerprint"),
            proof_tags: single_tag("fingerprint_miss"),
            fallback: Decision::Preserve,
        };
    }

    // 3. Evidence insufficient
    if !event.evidence_level.satisfies(shape.required_evidence) {
        let a = cat("insufficient evidence (have ", event.evidence_level.name());
        let b = cat(a.as_str(), ", need ");
        let c = cat(b.as_str(), shape.required_evidence.name());
        let reason = cat(c.as_str(), ")");
        return DecisionPacket {
            decision: Decision::Invalidate,
            authority: Authority::Certificate,
            shape_id: string_of(&shape.name),
            event_relation: string_of(&event.relation),
            evidence_level: event.evidence_level,
            required_evidence: shape.required_evidence,
            repair_class: shape.repair_class,
            operator: RepairOperator::EvidenceInsufficient,
            reason,
            proof_tags: single_tag("evidence_insufficient"),
            fallback: Decision::Invalidate,
        };
    }

    // 4. Invalidate-only class
    if !shape.repair_class.is_repairable() {
        return DecisionPacket {
            decision: Decision::Invalidate,
            authority: Authority::Certificate,
            shape_id: string_of(&shape.name),
            event_relation: string_of(&event.relation),
            evidence_level: event.evidence_level,
            required_evidence: shape.required_evidence,
            repair_class: shape.repair_class,
            operator: RepairOperator::InvalidateOnlyClass,
            reason: String::from_str("shape is invalidate-only"),
            proof_tags: single_tag("repair_class_invalidate_only"),
            fallback: Decision::Invalidate,
        };
    }

    // 5. Repair certified
    let proof_tags = collect_proof_tags(shape, event);
    let predicate_changed = shape.predicate_cols.intersects(&event.changed_cols);
    let group_key_changed = shape.group_cols.intersects(&event.changed_cols);
    let aggregate_changed = shape.aggregate_cols.intersects(&event.changed_cols);

    let operator = if group_key_changed {
        RepairOperator::GroupKeyMovement
    } else if predicate_changed {
        RepairOperator::PredicateBoundaryCrossing
    } else if aggregate_changed {
        RepairOperator::AggregateDelta
    } else {
        RepairOperator::GenericRepair
    };

    DecisionPacket {
        decision: Decision::Repair,
        authority: Authority::Certificate,
        shape_id: string_of(&shape.name),
        event_relation: string_of(&event.relation),
        evidence_level: event.evidence_level,
        required_evidence: shape.required_evidence,
        repair_class: shape.repair_class,
        operator,
        reason: cat("repairable via ", shape.repair_class.name()),
        proof_tags,
        fallback: Decision::Invalidate,
    }
}

/// Stronger evidence never undoes a decision that did not turn on evidence:
/// an event that the decision tree preserves or repairs is preserved or
/// repaired, by the same branch, when it carries evidence of at least the
/// same level.
pub proof fn stronger_evidence_keeps_decision(shape: QueryShape, event: BoundaryEvent, level: EvidenceLevel)
    requires
        level_rank(level) >= level_rank(event.evidence_level),
    ensures
        decision_of(classify_operator(shape, event)) != Decision::Invalidate
            ==> classify_operator(shape, BoundaryEvent { evidence_level: level, ..event })
                == classify_operator(shape, event),
{
}

/// A certified repair reports the most specific change first: a changed
/// group column makes it a group-key movement; a predicate crossing needs a
/// changed predicate column and no changed group column; an aggregate delta
/// needs a changed aggregate column and neither a changed group nor a changed
/// predicate column.
pub proof fn repair_operator_follows_changed_columns(p: DecisionPacket, shape: QueryShape, event: BoundaryEvent)
    requires
        certified(p, shape, event),
        p.decision == Decision::Repair,
    ensures
        shares(shape.group_cols@, event.changed_cols@) ==> p.operator == RepairOperator::GroupKeyMovement,
        p.operator == RepairOperator::GroupKeyMovement ==> shares(shape.group_cols@, event.changed_cols@),
        p.operator == RepairOperator::PredicateBoundaryCrossing ==> !shares(shape.group_cols@, event.changed_cols@)
            && shares(shape.predicate_cols@, event.changed_cols@),
        p.operator == RepairOperator::AggregateDelta ==> !shares(shape.group_cols@, event.changed_cols@)
            && !shares(shape.predicate_cols@, event.changed_cols@)
            && shares(shape.aggregate_cols@, event.changed_cols@),
        event.relation@ == shape.relation@,
        level_rank(event.evidence_level) >= level_rank(shape.required_evidence),
        shape.repair_class != RepairClass::InvalidateOnly,
{
}

} // verus!
