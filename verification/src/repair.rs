//! SQL repair plans: a decision packet and the event become the SQL that
//! repairs a cached aggregate, for SQL Server or PostgreSQL.
//!
//! Scenarios:
//!   - Predicate boundary crossing (row enters/leaves WHERE)
//!   - Group key movement (GROUP BY column changed)
//!   - Aggregate delta (SUM column changed, predicate stable)
//!   - Count adjust (COUNT shape)
//!   - Invalidation fallback (DELETE cached entry)
use vstd::prelude::*;
use crate::cert::{AggregateFunction, Decision, DecisionPacket, QueryShape, shares, strings_view};
use crate::colset::{ColumnSet, first_in};
use crate::evidence::{BoundaryEvent, RowImage, Value};
use crate::text::{cat, contains_text, i64_decimal, int_decimal};

verus! {

/// What a repair does to the cached aggregate.
#[derive(Debug, Clone, PartialEq)]
pub enum RepairScenario {
    PredicateBoundaryCrossing { pred_col: String, old_val: String, new_val: String },
    GroupKeyMovement { group_col: String, old_key: String, new_key: String },
    AggregateDelta { aggr_col: String, old_val: i64, new_val: i64, delta: i64 },
    CountAdjust { direction: i8 },
    Invalidation { reason: String },
    Preserve,
}

/// A decision with its scenario and the SQL that carries it out.
#[derive(Debug, Clone, PartialEq)]
pub struct RepairPlan {
    pub packet: DecisionPacket,
    pub scenario: RepairScenario,
    pub statements: Vec<String>,
    pub shape_hash: String,
}

// ─── Cell readings ─────────────────────────────────────────────

/// The text of a cell value, as the plan records it.
pub open spec fn value_text(v: Value) -> Seq<char> {
    match v {
        Value::Int(i) => int_decimal(i as int),
        Value::Float(f) => f.rendered@,
        Value::Text(s) => s@,
        Value::Bool(b) => if b { "true"@ } else { "false"@ },
        Value::Null => "NULL"@,
    }
}

/// The text of column `col` in an optional row, or the empty text.
pub open spec fn cell_text(row: Option<RowImage>, col: Seq<char>) -> Seq<char> {
    match row {
        Some(r) => match r.value_of(col) {
            Some(v) => value_text(v),
            None => Seq::empty(),
        },
        None => Seq::empty(),
    }
}

/// The integer reading of column `col` in an optional row, or zero.
pub open spec fn cell_int(row: Option<RowImage>, col: Seq<char>) -> int {
    match row {
        Some(r) => match r.value_of(col) {
            Some(Value::Int(i)) => i as int,
            Some(Value::Float(f)) => f.truncated as int,
            _ => 0,
        },
        None => 0,
    }
}

fn val_to_string(v: &Value) -> (r: String)
    ensures r@ == value_text(*v),
{
    match v {
        Value::Int(i) => i64_decimal(*i),
        Value::Float(f) => String::from_str(f.rendered.as_str()),
        Value::Text(s) => String::from_str(s.as_str()),
        Value::Bool(b) => if *b { String::from_str("true") } else { String::from_str("false") },
        Value::Null => String::from_str("NULL"),
    }
}

fn cell_text_of(row: &Option<RowImage>, col: &str) -> (r: String)
    ensures r@ == cell_text(*row, col@),
{
    match row {
        Some(img) => match img.get(col) {
            Some(v) => val_to_string(v),
            None => String::new(),
        },
        None => String::new(),
    }
}

fn cell_int_of(row: &Option<RowImage>, col: &str) -> (r: i64)
    ensures r == cell_int(*row, col@),
{
    match row {
        Some(img) => match img.get(col) {
            Some(v) => match v.as_i64() {
                Some(i) => i,
                None => 0,
            },
            None => 0,
        },
        None => 0,
    }
}

// ─── Scenario classification ───────────────────────────────────

/// The first column of `cols`, in order, that the event changed.
pub open spec fn changed_col(cols: ColumnSet, event: BoundaryEvent) -> Seq<char> {
    first_in(cols.ordered(), event.changed_cols@).unwrap()
}

/// Whether an aggregate-delta repair computes `new - old` within `i64`:
/// the events on which the plan can be built.
pub open spec fn delta_fits(shape: QueryShape, event: BoundaryEvent) -> bool {
    let c = changed_col(shape.aggregate_cols, event);
    (!shares(shape.group_cols@, event.changed_cols@)
        && !shares(shape.predicate_cols@, event.changed_cols@)
        && shares(shape.aggregate_cols@, event.changed_cols@)
        && shape.aggregate_function != AggregateFunction::Count)
        ==> i64::MIN <= cell_int(event.new, c) - cell_int(event.old, c) <= i64::MAX
}

/// The scenario a repair decision takes for a shape and an event.
pub open spec fn repair_scenario_of(s: RepairScenario, shape: QueryShape, event: BoundaryEvent) -> bool {
    if shares(shape.group_cols@, event.changed_cols@) {
        let g = changed_col(shape.group_cols, event);
        s matches RepairScenario::GroupKeyMovement { group_col, old_key, new_key }
            && group_col@ == g && old_key@ == cell_text(event.old, g) && new_key@ == cell_text(event.new, g)
    } else if shares(shape.predicate_cols@, event.changed_cols@) {
        let p = changed_col(shape.predicate_cols, event);
        s matches RepairScenario::PredicateBoundaryCrossing { pred_col, old_val, new_val }
            && pred_col@ == p && old_val@ == cell_text(event.old, p) && new_val@ == cell_text(event.new, p)
    } else if shares(shape.aggregate_cols@, event.changed_cols@) {
        let a = changed_col(shape.aggregate_cols, event);
        if shape.aggregate_function == AggregateFunction::Count {
            s == RepairScenario::CountAdjust { direction: 0 }
        } else {
            s matches RepairScenario::AggregateDelta { aggr_col, old_val, new_val, delta }
                && aggr_col@ == a && old_val == cell_int(event.old, a) && new_val == cell_int(event.new, a)
                && delta == new_val - old_val
        }
    } else {
        s matches RepairScenario::PredicateBoundaryCrossing { pred_col, old_val, new_val }
            && pred_col@ == "unknown"@ && old_val@ == Seq::<char>::empty() && new_val@ == Seq::<char>::empty()
    }
}

proof fn lemma_first_in_member(s: Seq<Seq<char>>, b: Set<Seq<char>>)
    requires exists|k: int| 0 <= k < s.len() && b.contains(#[trigger] s[k]),
    ensures first_in(s, b) is Some,
    decreases s.len(),
{
    if !b.contains(s[0]) {
        let k = choose|k: int| 0 <= k < s.len() && b.contains(#[trigger] s[k]);
        assert(b.contains(s.drop_first()[k - 1]));
        lemma_first_in_member(s.drop_first(), b);
    }
}

fn changed_col_of(cols: &ColumnSet, event: &BoundaryEvent) -> (r: String)
    requires shares(cols@, event.changed_cols@),
    ensures r@ == changed_col(*cols, *event),
{
    proof {
        let c = choose|c: Seq<char>| cols@.contains(c) && event.changed_cols@.contains(c);
        let k = choose|k: int| 0 <= k < cols.ordered().len() && cols.ordered()[k] == c;
        lemma_first_in_member(cols.ordered(), event.changed_cols@);
    }
    match cols.first_shared_name(&event.changed_cols) {
        Some(n) => n,
        None => String::new(),
    }
}

fn classify_scenario(shape: &QueryShape, event: &BoundaryEvent) -> (r: RepairScenario)
    requires delta_fits(*shape, *event),
    ensures repair_scenario_of(r, *shape, *event),
{
    let group_key_changed = shape.group_cols.intersects(&event.changed_cols);
    let predicate_changed = shape.predicate_cols.intersects(&event.changed_cols);
    let aggregate_changed = shape.aggregate_cols.intersects(&event.changed_cols);

    if group_key_changed {
        let gcol = changed_col_of(&shape.group_cols, event);
        let old_key = cell_text_of(&event.old, gcol.as_str());
        let new_key = cell_text_of(&event.new, gcol.as_str());
        RepairScenario::GroupKeyMovement { group_col: gcol, old_key, new_key }
    } else if predicate_changed {
        let pcol = changed_col_of(&shape.predicate_cols, event);
        let old_val = cell_text_of(&event.old, pcol.as_str());
        let new_val = cell_text_of(&event.new, pcol.as_str());
        RepairScenario::PredicateBoundaryCrossing { pred_col: pcol, old_val, new_val }
    } else if aggregate_changed {
        let acol = changed_col_of(&shape.aggregate_cols, event);
        match shape.aggregate_function {
            AggregateFunction::Count => RepairScenario::CountAdjust { direction: 0 },
            _ => {
                let old_val = cell_int_of(&event.old, acol.as_str());
                let new_val = cell_int_of(&event.new, acol.as_str());
                RepairScenario::AggregateDelta { aggr_col: acol, old_val, new_val, delta: new_val - old_val }
            }
        }
    } else {
        RepairScenario::PredicateBoundaryCrossing {
            pred_col: String::from_str("unknown"),
            old_val: String::new(),
            new_val: String::new(),
        }
    }
}

/// The scenario a plan takes for each decision.
pub open spec fn plan_scenario_of(s: RepairScenario, packet: DecisionPacket, shape: QueryShape, event: BoundaryEvent) -> bool {
    match packet.decision {
        Decision::Preserve => s == RepairScenario::Preserve,
        Decision::Invalidate => s matches RepairScenario::Invalidation { reason } && reason@ == packet.reason@,
        Decision::Repair => repair_scenario_of(s, shape, event),
    }
}

/// Build a repair plan from a decision packet and the event data. The
/// statements are left empty; an emitter fills them.
pub fn build_plan(packet: DecisionPacket, shape: &QueryShape, event: &BoundaryEvent, shape_hash: &str) -> (r: RepairPlan)
    requires packet.decision == Decision::Repair ==> delta_fits(*shape, *event),
    ensures
        r.packet == packet,
        plan_scenario_of(r.scenario, packet, *shape, *event),
        r.statements@.len() == 0,
        r.shape_hash@ == shape_hash@,
{
    let scenario = match packet.decision {
        Decision::Preserve => RepairScenario::Preserve,
        Decision::Invalidate => RepairScenario::Invalidation { reason: String::from_str(packet.reason.as_str()) },
        Decision::Repair => classify_scenario(shape, event),
    };
    RepairPlan { packet, scenario, statements: Vec::new(), shape_hash: String::from_str(shape_hash) }
}

// ─── SQL text ──────────────────────────────────────────────────

/// The first name of a set, or `default` when it is empty.
pub open spec fn first_or(cols: ColumnSet, default: Seq<char>) -> Seq<char> {
    if cols.ordered().len() > 0 { cols.ordered()[0] } else { default }
}

/// The value a predicate crossing or group move adds or removes.
pub open spec fn moved_value(shape: QueryShape) -> Seq<char> {
    if shape.aggregate_function == AggregateFunction::Count {
        "1"@
    } else {
        "@"@ + first_or(shape.aggregate_cols, "value"@)
    }
}

/// `MERGE` into the SQL Server cache table.
pub open spec fn mssql_merge(h: Seq<char>, g: Seq<char>, d: Seq<char>) -> Seq<char> {
    "MERGE dbo.cached_aggregates AS target\nUSING (SELECT '"@ + h + "' AS shape_hash, @"@ + g
        + " AS group_key, "@ + d + " AS delta_value) AS src\nON target.shape_hash = src.shape_hash\nAND target.group_key = src.group_key\nWHEN MATCHED THEN\n    UPDATE SET value = value + src.delta_value\nWHEN NOT MATCHED THEN\n    INSERT (shape_hash, group_key, value)\n    VALUES (src.shape_hash, src.group_key, src.delta_value);"@
}

/// `UPDATE` of a cache row, in a given table.
pub open spec fn update_in(table: Seq<char>, h: Seq<char>, g: Seq<char>, d: Seq<char>) -> Seq<char> {
    "UPDATE "@ + table + "\nSET value = value + ("@ + d + ")\nWHERE shape_hash = '"@ + h + "'\n  AND group_key = @"@ + g + ";"@
}

/// `DELETE` of a shape's cache rows, in a given table.
pub open spec fn delete_in(table: Seq<char>, h: Seq<char>) -> Seq<char> {
    "DELETE FROM "@ + table + " WHERE shape_hash = '"@ + h + "';"@
}

/// `INSERT .. ON CONFLICT` into the PostgreSQL cache table.
pub open spec fn pg_upsert(h: Seq<char>, g: Seq<char>, d: Seq<char>) -> Seq<char> {
    "INSERT INTO cached_aggregates (shape_hash, group_key, value)\nVALUES ('"@ + h + "', @"@ + g + ", "@ + d
        + ")\nON CONFLICT (shape_hash, group_key)\nDO UPDATE SET value = cached_aggregates.value + EXCLUDED.value;"@
}

/// First step of a group move: subtract from the old group key.
pub open spec fn move_out(table: Seq<char>, h: Seq<char>, g: Seq<char>, d: Seq<char>) -> Seq<char> {
    "-- Step 1: subtract from old group key\nUPDATE "@ + table + "\nSET value = value - "@ + d + "\nWHERE shape_hash = '"@ + h
        + "'\n  AND group_key = @old_"@ + g + ";"@
}

/// The SQL Server cache table.
pub open spec fn mssql_table() -> Seq<char> {
    "dbo.cached_aggregates"@
}

/// The PostgreSQL cache table.
pub open spec fn pg_table() -> Seq<char> {
    "cached_aggregates"@
}

/// The statements a plan becomes, in the given dialect.
pub open spec fn plan_statements(plan: RepairPlan, shape: QueryShape, postgres: bool) -> Seq<Seq<char>> {
    let h = plan.shape_hash@;
    let g = first_or(shape.group_cols, "group_key"@);
    let table = if postgres { pg_table() } else { mssql_table() };
    let put = |gc: Seq<char>, d: Seq<char>| if postgres { pg_upsert(h, gc, d) } else { mssql_merge(h, gc, d) };
    match plan.scenario {
        RepairScenario::Invalidation { .. } => seq![delete_in(table, h)],
        RepairScenario::Preserve => Seq::empty(),
        RepairScenario::AggregateDelta { delta, .. } => seq![update_in(table, h, g, int_decimal(delta as int))],
        RepairScenario::CountAdjust { direction } => seq![update_in(table, h, g, int_decimal(direction as int))],
        RepairScenario::PredicateBoundaryCrossing { .. } => seq![put(g, moved_value(shape))],
        RepairScenario::GroupKeyMovement { group_col, .. } => seq![
            move_out(table, h, group_col@, moved_value(shape)),
            "-- Step 2: add to new group key\n"@ + put("new_"@ + group_col@, moved_value(shape)),
        ],
    }
}

fn app(s: String, t: &str) -> (r: String)
    ensures r@ == s@ + t@,
{
    s.concat(t)
}

fn first_or_exec(cols: &ColumnSet, default: &str) -> (r: String)
    ensures r@ == first_or(*cols, default@),
{
    match cols.first() {
        Some(c) => String::from_str(c.as_str()),
        None => String::from_str(default),
    }
}

fn moved_value_exec(shape: &QueryShape) -> (r: String)
    ensures r@ == moved_value(*shape),
{
    match shape.aggregate_function {
        AggregateFunction::Count => String::from_str("1"),
        _ => {
            let a = first_or_exec(&shape.aggregate_cols, "value");
            cat("@", a.as_str())
        }
    }
}

fn update_stmt_in(table: &str, shape_hash: &str, group_col: &str, delta: &str) -> (r: String)
    ensures r@ == update_in(table@, shape_hash@, group_col@, delta@),
{
    let s = cat("UPDATE ", table);
    let s = app(s, "\nSET value = value + (");
    let s = app(s, delta);
    let s = app(s, ")\nWHERE shape_hash = '");
    let s = app(s, shape_hash);
    let s = app(s, "'\n  AND group_key = @");
    let s = app(s, group_col);
    let r = app(s, ";");
    assert(r@ =~= update_in(table@, shape_hash@, group_col@, delta@));
    r
}

fn delete_stmt_in(table: &str, shape_hash: &str) -> (r: String)
    ensures r@ == delete_in(table@, shape_hash@),
{
    let s = cat("DELETE FROM ", table);
    let s = app(s, " WHERE shape_hash = '");
    let s = app(s, shape_hash);
    let r = app(s, "';");
    assert(r@ =~= delete_in(table@, shape_hash@));
    r
}

fn move_out_stmt(table: &str, shape_hash: &str, group_col: &str, delta: &str) -> (r: String)
    ensures r@ == move_out(table@, shape_hash@, group_col@, delta@),
{
    let s = cat("-- Step 1: subtract from old group key\nUPDATE ", table);
    let s = app(s, "\nSET value = value - ");
    let s = app(s, delta);
    let s = app(s, "\nWHERE shape_hash = '");
    let s = app(s, shape_hash);
    let s = app(s, "'\n  AND group_key = @old_");
    let s = app(s, group_col);
    let r = app(s, ";");
    assert(r@ =~= move_out(table@, shape_hash@, group_col@, delta@));
    r
}

/// Emits the SQL that carries out a repair plan.
pub trait RepairEmitter {
    fn emit(&self, plan: &RepairPlan, shape: &QueryShape) -> Vec<String>;
}

/// SQL Server dialect.
pub struct SqlServerEmitter;

/// PostgreSQL dialect.
pub struct PostgresEmitter;

impl SqlServerEmitter {
    fn merge_stmt(shape_hash: &str, group_col: &str, delta: &str) -> (r: String)
        ensures r@ == mssql_merge(shape_hash@, group_col@, delta@),
    {
        let s = cat("MERGE dbo.cached_aggregates AS target\nUSING (SELECT '", shape_hash);
        let s = app(s, "' AS shape_hash, @");
        let s = app(s, group_col);
        let s = app(s, " AS group_key, ");
        let s = app(s, delta);
        let r = app(s, " AS delta_value) AS src\nON target.shape_hash = src.shape_hash\nAND target.group_key = src.group_key\nWHEN MATCHED THEN\n    UPDATE SET value = value + src.delta_value\nWHEN NOT MATCHED THEN\n    INSERT (shape_hash, group_key, value)\n    VALUES (src.shape_hash, src.group_key, src.delta_value);");
        assert(r@ =~= mssql_merge(shape_hash@, group_col@, delta@));
        r
    }

    fn update_stmt(shape_hash: &str, group_col: &str, delta: &str) -> (r: String)
        ensures r@ == update_in(mssql_table(), shape_hash@, group_col@, delta@),
    {
        update_stmt_in("dbo.cached_aggregates", shape_hash, group_col, delta)
    }

    fn delete_stmt(shape_hash: &str) -> (r: String)
        ensures r@ == delete_in(mssql_table(), shape_hash@),
    {
        delete_stmt_in("dbo.cached_aggregates", shape_hash)
    }
}

impl PostgresEmitter {
    fn upsert_stmt(shape_hash: &str, group_col: &str, delta: &str) -> (r: String)
        ensures r@ == pg_upsert(shape_hash@, group_col@, delta@),
    {
        let s = cat("INSERT INTO cached_aggregates (shape_hash, group_key, value)\nVALUES ('", shape_hash);
        let s = app(s, "', @");
        let s = app(s, group_col);
        let s = app(s, ", ");
        let s = app(s, delta);
        let r = app(s, ")\nON CONFLICT (shape_hash, group_key)\nDO UPDATE SET value = cached_aggregates.value + EXCLUDED.value;");
        assert(r@ =~= pg_upsert(shape_hash@, group_col@, delta@));
        r
    }

    fn update_stmt(shape_hash: &str, group_col: &str, delta: &str) -> (r: String)
        ensures r@ == update_in(pg_table(), shape_hash@, group_col@, delta@),
    {
        update_stmt_in("cached_aggregates", shape_hash, group_col, delta)
    }

    fn delete_stmt(shape_hash: &str) -> (r: String)
        ensures r@ == delete_in(pg_table(), shape_hash@),
    {
        delete_stmt_in("cached_aggregates", shape_hash)
    }
}

fn one(s: String) -> (r: Vec<String>)
    ensures strings_view(r@) == seq![s@],
{
    let mut v: Vec<String> = Vec::new();
    let ghost sv = s@;
    v.push(s);
    assert(strings_view(v@) =~= seq![sv]);
    v
}

fn two(a: String, b: String) -> (r: Vec<String>)
    ensures strings_view(r@) == seq![a@, b@],
{
    let mut v: Vec<String> = Vec::new();
    let ghost av = a@;
    let ghost bv = b@;
    v.push(a);
    v.push(b);
    assert(strings_view(v@) =~= seq![av, bv]);
    v
}

impl RepairEmitter for SqlServerEmitter {
    fn emit(&self, plan: &RepairPlan, shape: &QueryShape) -> (r: Vec<String>)
        ensures strings_view(r@) == plan_statements(*plan, *shape, false),
    {
        proof { reveal_strlit("dbo.cached_aggregates"); }
        let hash = plan.shape_hash.as_str();
        let group_col = first_or_exec(&shape.group_cols, "group_key");
        match &plan.scenario {
            RepairScenario::Invalidation { .. } => one(Self::delete_stmt(hash)),
            RepairScenario::Preserve => {
                let v: Vec<String> = Vec::new();
                assert(strings_view(v@) =~= Seq::<Seq<char>>::empty());
                v
            }
            RepairScenario::AggregateDelta { delta, .. } => {
                let d = i64_decimal(*delta);
                one(Self::update_stmt(hash, group_col.as_str(), d.as_str()))
            }
            RepairScenario::CountAdjust { direction } => {
                let d = i64_decimal(*direction as i64);
                one(Self::update_stmt(hash, group_col.as_str(), d.as_str()))
            }
            RepairScenario::PredicateBoundaryCrossing { .. } => {
                let delta = moved_value_exec(shape);
                one(Self::merge_stmt(hash, group_col.as_str(), delta.as_str()))
            }
            RepairScenario::GroupKeyMovement { group_col: gcol, .. } => {
                let delta = moved_value_exec(shape);
                let first = move_out_stmt("dbo.cached_aggregates", hash, gcol.as_str(), delta.as_str());
                let target = cat("new_", gcol.as_str());
                let merge = Self::merge_stmt(hash, target.as_str(), delta.as_str());
                let second = cat("-- Step 2: add to new group key\n", merge.as_str());
                two(first, second)
            }
        }
    }
}

impl RepairEmitter for PostgresEmitter {
    fn emit(&self, plan: &RepairPlan, shape: &QueryShape) -> (r: Vec<String>)
        ensures strings_view(r@) == plan_statements(*plan, *shape, true),
    {
        proof { reveal_strlit("cached_aggregates"); }
        let hash = plan.shape_hash.as_str();
        let group_col = first_or_exec(&shape.group_cols, "group_key");
        match &plan.scenario {
            RepairScenario::Invalidation { .. } => one(Self::delete_stmt(hash)),
            RepairScenario::Preserve => {
                let v: Vec<String> = Vec::new();
                assert(strings_view(v@) =~= Seq::<Seq<char>>::empty());
                v
            }
            RepairScenario::AggregateDelta { delta, .. } => {
                let d = i64_decimal(*delta);
                one(Self::update_stmt(hash, group_col.as_str(), d.as_str()))
            }
            RepairScenario::CountAdjust { direction } => {
                let d = i64_decimal(*direction as i64);
                one(Self::update_stmt(hash, group_col.as_str(), d.as_str()))
            }
            RepairScenario::PredicateBoundaryCrossing { .. } => {
                let delta = moved_value_exec(shape);
                one(Self::upsert_stmt(hash, group_col.as_str(), delta.as_str()))
            }
            RepairScenario::GroupKeyMovement { group_col: gcol, .. } => {
                let delta = moved_value_exec(shape);
                let first = move_out_stmt("cached_aggregates", hash, gcol.as_str(), delta.as_str());
                let target = cat("new_", gcol.as_str());
                let upsert = Self::upsert_stmt(hash, target.as_str(), delta.as_str());
                let second = cat("-- Step 2: add to new group key\n", upsert.as_str());
                two(first, second)
            }
        }
    }
}

/// What a plan emits follows its decision: a preserved shape emits nothing,
/// an invalidated one exactly one DELETE of its cached entry, a repaired one
/// at least one statement.
pub proof fn statements_follow_decision(plan: RepairPlan, shape: QueryShape, event: BoundaryEvent, postgres: bool)
    requires
        plan_scenario_of(plan.scenario, plan.packet, shape, event),
    ensures
        plan.packet.decision == Decision::Preserve ==> plan_statements(plan, shape, postgres).len() == 0,
        plan.packet.decision == Decision::Invalidate ==> plan_statements(plan, shape, postgres)
            == seq![delete_in(if postgres { pg_table() } else { mssql_table() }, plan.shape_hash@)],
        plan.packet.decision == Decision::Repair ==> plan_statements(plan, shape, postgres).len() > 0,
{
}

proof fn lemma_first_in_found(s: Seq<Seq<char>>, b: Set<Seq<char>>)
    ensures
        first_in(s, b) matches Some(x) ==> s.contains(x) && b.contains(x),
    decreases s.len(),
{
    if s.len() > 0 && !b.contains(s[0]) {
        lemma_first_in_found(s.drop_first(), b);
        if first_in(s, b) is Some {
            let x = first_in(s, b)->0;
            let k = choose|k: int| 0 <= k < s.drop_first().len() && s.drop_first()[k] == x;
            assert(s[k + 1] == x);
        }
    } else if s.len() > 0 {
        assert(s[0] == s[0]);
    }
}

proof fn lemma_changed_col_in(cols: ColumnSet, event: BoundaryEvent)
    requires
        shares(cols@, event.changed_cols@),
    ensures
        cols@.contains(changed_col(cols, event)),
        event.changed_cols@.contains(changed_col(cols, event)),
{
    let c = choose|c: Seq<char>| cols@.contains(c) && event.changed_cols@.contains(c);
    let k = choose|k: int| 0 <= k < cols.ordered().len() && cols.ordered()[k] == c;
    lemma_first_in_member(cols.ordered(), event.changed_cols@);
    lemma_first_in_found(cols.ordered(), event.changed_cols@);
}

/// A group-key movement is repaired in two steps: the first takes the moved
/// value off the old group key's cached value, the second adds it to the new
/// group key's.
pub proof fn group_move_takes_from_old_and_adds_to_new(plan: RepairPlan, shape: QueryShape, postgres: bool)
    requires
        plan.scenario is GroupKeyMovement,
    ensures
        ({
            let g = plan.scenario->GroupKeyMovement_group_col@;
            let stmts = plan_statements(plan, shape, postgres);
            &&& stmts.len() == 2
            &&& contains_text(stmts[0], "\nSET value = value - "@ + moved_value(shape))
            &&& contains_text(stmts[0], "'\n  AND group_key = @old_"@ + g)
            &&& contains_text(stmts[1], "new_"@ + g)
        }),
{
    let g = plan.scenario->GroupKeyMovement_group_col@;
    let h = plan.shape_hash@;
    let d = moved_value(shape);
    let table = if postgres { pg_table() } else { mssql_table() };
    let stmts = plan_statements(plan, shape, postgres);
    let l1 = "-- Step 1: subtract from old group key\nUPDATE "@;
    let l2 = "\nSET value = value - "@;
    let l3 = "\nWHERE shape_hash = '"@;
    let l4 = "'\n  AND group_key = @old_"@;
    let s0 = stmts[0];
    assert(s0 == l1 + table + l2 + d + l3 + h + l4 + g + ";"@);
    let i: int = (l1.len() + table.len()) as int;
    assert(s0.subrange(i, i + (l2 + d).len() as int) =~= l2 + d);
    let j: int = (l1.len() + table.len() + l2.len() + d.len() + l3.len() + h.len()) as int;
    assert(s0.subrange(j, j + (l4 + g).len() as int) =~= l4 + g);
    let s1 = stmts[1];
    let step2 = "-- Step 2: add to new group key\n"@;
    if postgres {
        let a = "INSERT INTO cached_aggregates (shape_hash, group_key, value)\nVALUES ('"@ + h + "', @"@;
        assert(s1 == step2 + (a + ("new_"@ + g) + ", "@ + d
            + ")\nON CONFLICT (shape_hash, group_key)\nDO UPDATE SET value = cached_aggregates.value + EXCLUDED.value;"@));
        let k: int = (step2.len() + a.len()) as int;
        assert(s1.subrange(k, k + ("new_"@ + g).len() as int) =~= "new_"@ + g);
    } else {
        let a = "MERGE dbo.cached_aggregates AS target\nUSING (SELECT '"@ + h + "' AS shape_hash, @"@;
        let k: int = (step2.len() + a.len()) as int;
        assert(s1.subrange(k, k + ("new_"@ + g).len() as int) =~= "new_"@ + g);
    }
}

/// A group-key movement's scenario names a changed group column and reads
/// the old key from the event's old image and the new key from its new
/// image; an aggregate delta is the new reading less the old one.
pub proof fn scenario_reads_old_and_new_images(s: RepairScenario, packet: DecisionPacket, shape: QueryShape, event: BoundaryEvent)
    requires
        plan_scenario_of(s, packet, shape, event),
        packet.decision == Decision::Repair,
    ensures
        s matches RepairScenario::GroupKeyMovement { group_col, old_key, new_key } ==> {
            &&& shape.group_cols@.contains(group_col@)
            &&& event.changed_cols@.contains(group_col@)
            &&& old_key@ == cell_text(event.old, group_col@)
            &&& new_key@ == cell_text(event.new, group_col@)
        },
        s matches RepairScenario::AggregateDelta { aggr_col, old_val, new_val, delta } ==> {
            &&& old_val == cell_int(event.old, aggr_col@)
            &&& new_val == cell_int(event.new, aggr_col@)
            &&& delta == new_val - old_val
        },
        shares(shape.group_cols@, event.changed_cols@) ==> s is GroupKeyMovement,
{
    if s is GroupKeyMovement {
        lemma_changed_col_in(shape.group_cols, event);
    }
}

} // verus!
