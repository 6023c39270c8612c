//! CDC evidence normalization: what the system actually knows about each
//! boundary event.
//!
//! Evidence levels:
//!   E0 = changed column names only
//!   E1 = changed columns + new values
//!   E2 = non-empty old + new row images
//!   E3 = full before/after row images + commit metadata
use vstd::prelude::*;
use crate::colset::{ColumnSet, strictly_sorted};
use crate::text::{lemma_lex_irreflexive, lemma_lex_total, lemma_lex_transitive, lex_lt, str_eq, str_lt};

verus! {

/// A floating-point cell, held by the two readings the library makes of it:
/// the integer that `as i64` gives for it and the text that `Display` writes.
#[derive(Debug, Clone, PartialEq)]
pub struct FloatReading {
    pub truncated: i64,
    pub rendered: String,
}

/// A cell value of a row image.
#[derive(Debug, Clone, PartialEq)]
pub enum Value {
    Int(i64),
    Float(FloatReading),
    Text(String),
    Bool(bool),
    Null,
}

impl Value {
    /// The integer reading of the value, for integers and floats.
    pub fn as_i64(&self) -> (r: Option<i64>)
        ensures
            r == match self {
                Value::Int(v) => Some(*v),
                Value::Float(f) => Some(f.truncated),
                _ => None::<i64>,
            },
    {
        match self {
            Value::Int(v) => Some(*v),
            Value::Float(f) => Some(f.truncated),
            _ => None,
        }
    }

    /// The text of a text value.
    pub fn as_str(&self) -> (r: Option<&str>)
        ensures
            match self {
                Value::Text(s) => r is Some && r->0@ == s@,
                _ => r is None,
            },
    {
        match self {
            Value::Text(s) => Some(s.as_str()),
            _ => None,
        }
    }
}

/// How much the system knows about a boundary event.
#[derive(Debug, Clone, Copy, PartialEq, Eq, PartialOrd, Ord, Hash)]
pub enum EvidenceLevel {
    /// Changed column names only. No row data.
    E0,
    /// Changed columns + new values. No old image.
    E1,
    /// Non-empty old + new row images.
    E2,
    /// Full before/after row images + commit metadata.
    E3,
}

/// The position of a level in the order E0 < E1 < E2 < E3.
pub open spec fn level_rank(l: EvidenceLevel) -> int {
    match l {
        EvidenceLevel::E0 => 0,
        EvidenceLevel::E1 => 1,
        EvidenceLevel::E2 => 2,
        EvidenceLevel::E3 => 3,
    }
}

/// The display name of a level.
pub open spec fn level_name(l: EvidenceLevel) -> Seq<char> {
    match l {
        EvidenceLevel::E0 => "E0"@,
        EvidenceLevel::E1 => "E1"@,
        EvidenceLevel::E2 => "E2"@,
        EvidenceLevel::E3 => "E3"@,
    }
}

impl EvidenceLevel {
    /// The display name, `E0` to `E3`.
    pub fn name(&self) -> (r: &'static str)
        ensures r@ == level_name(*self),
    {
        match self {
            EvidenceLevel::E0 => "E0",
            EvidenceLevel::E1 => "E1",
            EvidenceLevel::E2 => "E2",
            EvidenceLevel::E3 => "E3",
        }
    }

    /// Whether `self` provides at least as much evidence as `required`.
    pub fn satisfies(&self, required: EvidenceLevel) -> (r: bool)
        ensures r == (level_rank(*self) >= level_rank(required)),
    {
        let a: u8 = match self {
            EvidenceLevel::E0 => 0,
            EvidenceLevel::E1 => 1,
            EvidenceLevel::E2 => 2,
            EvidenceLevel::E3 => 3,
        };
        let b: u8 = match required {
            EvidenceLevel::E0 => 0,
            EvidenceLevel::E1 => 1,
            EvidenceLevel::E2 => 2,
            EvidenceLevel::E3 => 3,
        };
        a >= b
    }
}

/// The kind of row change.
#[derive(Debug, Clone, Copy, PartialEq, Eq, Hash)]
pub enum Operation {
    Insert,
    Update,
    Delete,
}

/// The value a list of `(column, value)` entries gives a column: the first
/// entry with that name.
pub open spec fn lookup(entries: Seq<(Seq<char>, Value)>, key: Seq<char>) -> Option<Value>
    decreases entries.len(),
{
    if entries.len() == 0 {
        None
    } else if entries[0].0 == key {
        Some(entries[0].1)
    } else {
        lookup(entries.drop_first(), key)
    }
}

/// A row image: column name to value, its entries kept in increasing order
/// of name, so that two images with the same columns and values hold the
/// same entries.
#[derive(Debug, PartialEq)]
pub struct RowImage {
    cols: Vec<(String, Value)>,
}

impl RowImage {
    /// The entries, by the view of their names.
    pub closed spec fn entries(&self) -> Seq<(Seq<char>, Value)> {
        self.cols@.map_values(|e: (String, Value)| (e.0@, e.1))
    }

    /// The column names, in stored order.
    pub open spec fn names(&self) -> Seq<Seq<char>> {
        names_of_entries(self.entries())
    }

    #[verifier::type_invariant]
    closed spec fn inv(&self) -> bool {
        strictly_sorted(self.names())
    }

    /// The value the image holds for a column.
    pub open spec fn value_of(&self, key: Seq<char>) -> Option<Value> {
        lookup(self.entries(), key)
    }

    /// Whether the image holds no column.
    pub open spec fn spec_is_empty(&self) -> bool {
        self.entries().len() == 0
    }

    /// An image with no column.
    pub fn new() -> (r: Self)
        ensures
            r.spec_is_empty(),
            forall|k: Seq<char>| r.value_of(k) is None,
            strictly_sorted(r.names()),
    {
        let r = RowImage { cols: Vec::new() };
        assert(r.entries() =~= Seq::<(Seq<char>, Value)>::empty());
        assert(r.names() =~= Seq::<Seq<char>>::empty());
        r
    }

    /// The image with column `name` set to `value`, replacing an earlier value.
    pub fn with_col(self, name: &str, value: Value) -> (r: Self)
        ensures
            r.value_of(name@) == Some(value),
            forall|k: Seq<char>| k != name@ ==> r.value_of(k) == self.value_of(k),
            !r.spec_is_empty(),
            strictly_sorted(r.names()),
    {
        proof { use_type_invariant(&self); }
        let key = String::from_str(name);
        let ghost e0 = self.entries();
        let ghost n0 = self.names();
        let RowImage { cols } = self;
        let mut cols = cols;
        let n = cols.len();
        let mut i: usize = 0;
        while i < n && str_lt(cols[i].0.as_str(), key.as_str())
            invariant
                n == cols.len(), i <= n,
                e0 == cols@.map_values(|e: (String, Value)| (e.0@, e.1)),
                n0 == names_of_entries(e0),
                strictly_sorted(n0),
                key@ == name@,
                forall|k: int| 0 <= k < i ==> lex_lt(#[trigger] e0[k].0, name@),
            decreases n - i,
        {
            i += 1;
        }
        proof {
            assert forall|k: int| 0 <= k < i implies #[trigger] e0[k].0 != name@ by {
                lemma_lex_irreflexive(name@);
            }
            assert forall|k: int| 0 <= k < e0.len() implies #[trigger] n0[k] == e0[k].0 by {}
        }
        if i < n && str_eq(cols[i].0.as_str(), key.as_str()) {
            cols.set(i, (key, value));
            proof {
                let e1 = cols@.map_values(|e: (String, Value)| (e.0@, e.1));
                assert(e1 =~= e0.update(i as int, (name@, value)));
                assert(names_of_entries(e1) =~= n0);
            }
            let r = RowImage { cols };
            proof {
                lemma_lookup_update(e0, i as int, name@, value);
            }
            return r;
        }
        proof {
            if i < n {
                lemma_lex_total(e0[i as int].0, name@);
                assert(lex_lt(name@, n0[i as int]));
            }
            assert forall|k: int| 0 <= k < e0.len() implies #[trigger] e0[k].0 != name@ by {
                if k > i {
                    assert(lex_lt(n0[i as int], n0[k]));
                    lemma_lex_transitive(name@, n0[i as int], n0[k]);
                    lemma_lex_irreflexive(name@);
                } else if k == i {
                    lemma_lex_irreflexive(name@);
                }
            }
        }
        let ghost nv = key@;
        cols.insert(i, (key, value));
        proof {
            let e1 = cols@.map_values(|e: (String, Value)| (e.0@, e.1));
            assert(e1 =~= e0.insert(i as int, (nv, value)));
            lemma_lookup_insert(e0, i as int, nv, value);
            let n1 = names_of_entries(e1);
            assert(n1 =~= n0.insert(i as int, nv));
            assert forall|a: int, b: int| 0 <= a < b < n1.len() implies lex_lt(#[trigger] n1[a], #[trigger] n1[b]) by {
                if b < i {
                } else if b == i {
                    assert(lex_lt(n0[a], nv));
                } else if a < i {
                    assert(lex_lt(n0[a], nv));
                    if b - 1 > i {
                        lemma_lex_transitive(nv, n0[i as int], n0[b - 1]);
                    }
                    lemma_lex_transitive(n0[a], nv, n1[b]);
                } else if a == i {
                    if b - 1 > i {
                        lemma_lex_transitive(nv, n0[i as int], n0[b - 1]);
                    }
                } else {
                    assert(lex_lt(n0[a - 1], n0[b - 1]));
                }
            }
        }
        RowImage { cols }
    }

    /// The value of column `col`, if the image holds it.
    pub fn get(&self, col: &str) -> (r: Option<&Value>)
        ensures
            match self.value_of(col@) {
                Some(v) => r is Some && *r->0 == v,
                None => r is None,
            },
    {
        let n = self.cols.len();
        let mut i: usize = 0;
        assert(self.entries().skip(0) =~= self.entries());
        while i < n
            invariant
                n == self.cols.len(), i <= n,
                lookup(self.entries(), col@) == lookup(self.entries().skip(i as int), col@),
            decreases n - i,
        {
            let ghost rest = self.entries().skip(i as int);
            assert(rest.drop_first() =~= self.entries().skip(i + 1));
            if str_eq(self.cols[i].0.as_str(), col) {
                return Some(&self.cols[i].1);
            }
            i += 1;
        }
        None
    }

    /// Whether the image holds no column.
    pub fn is_empty(&self) -> (r: bool)
        ensures r == self.spec_is_empty(),
    {
        self.cols.len() == 0
    }
}

/// The names of a list of entries.
pub open spec fn names_of_entries(e: Seq<(Seq<char>, Value)>) -> Seq<Seq<char>> {
    e.map_values(|x: (Seq<char>, Value)| x.0)
}

proof fn lemma_lookup_insert(e: Seq<(Seq<char>, Value)>, i: int, k: Seq<char>, v: Value)
    requires
        0 <= i <= e.len(),
        forall|j: int| 0 <= j < e.len() ==> e[j].0 != k,
    ensures
        lookup(e.insert(i, (k, v)), k) == Some(v),
        forall|q: Seq<char>| q != k ==> lookup(e.insert(i, (k, v)), q) == lookup(e, q),
    decreases e.len(),
{
    if i > 0 {
        assert(e.insert(i, (k, v)).drop_first() =~= e.drop_first().insert(i - 1, (k, v)));
        lemma_lookup_insert(e.drop_first(), i - 1, k, v);
        assert forall|q: Seq<char>| q != k implies lookup(e.insert(i, (k, v)), q) == lookup(e, q) by {
            assert(e.insert(i, (k, v))[0] == e[0]);
            assert(lookup(e.drop_first().insert(i - 1, (k, v)), q) == lookup(e.drop_first(), q));
        }
    } else {
        assert(e.insert(i, (k, v)).drop_first() =~= e);
        assert forall|q: Seq<char>| q != k implies lookup(e.insert(i, (k, v)), q) == lookup(e, q) by {
            assert(e.insert(i, (k, v))[0] == (k, v));
        }
    }
}

proof fn lemma_lookup_update(e: Seq<(Seq<char>, Value)>, i: int, k: Seq<char>, v: Value)
    requires
        0 <= i < e.len(),
        e[i].0 == k,
        forall|j: int| 0 <= j < i ==> e[j].0 != k,
    ensures
        lookup(e.update(i, (k, v)), k) == Some(v),
        forall|q: Seq<char>| q != k ==> lookup(e.update(i, (k, v)), q) == lookup(e, q),
    decreases e.len(),
{
    if i > 0 {
        assert(e.update(i, (k, v)).drop_first() =~= e.drop_first().update(i - 1, (k, v)));
        lemma_lookup_update(e.drop_first(), i - 1, k, v);
        assert forall|q: Seq<char>| q != k implies lookup(e.update(i, (k, v)), q) == lookup(e, q) by {
            assert(e.update(i, (k, v))[0] == e[0]);
            assert(lookup(e.drop_first().update(i - 1, (k, v)), q) == lookup(e.drop_first(), q));
        }
    } else {
        assert(e.update(i, (k, v)).drop_first() =~= e.drop_first());
        assert forall|q: Seq<char>| q != k implies lookup(e.update(i, (k, v)), q) == lookup(e, q) by {
            assert(e.update(i, (k, v))[0] == (k, v));
        }
    }
}

proof fn lemma_lookup_absent(e: Seq<(Seq<char>, Value)>, k: Seq<char>)
    requires
        forall|j: int| 0 <= j < e.len() ==> (#[trigger] e[j]).0 != k,
    ensures
        lookup(e, k) is None,
    decreases e.len(),
{
    if e.len() > 0 {
        assert forall|j: int| 0 <= j < e.drop_first().len() implies (#[trigger] e.drop_first()[j]).0 != k by {
            assert(e.drop_first()[j] == e[j + 1]);
        }
        lemma_lookup_absent(e.drop_first(), k);
    }
}

proof fn lemma_head_below_rest(e: Seq<(Seq<char>, Value)>)
    requires
        e.len() > 0,
        strictly_sorted(names_of_entries(e)),
    ensures
        forall|j: int| 0 < j < e.len() ==> lex_lt(e[0].0, (#[trigger] e[j]).0),
        strictly_sorted(names_of_entries(e.drop_first())),
{
    let n = names_of_entries(e);
    assert forall|j: int| 0 < j < e.len() implies lex_lt(e[0].0, (#[trigger] e[j]).0) by {
        assert(n[0] == e[0].0 && n[j] == e[j].0);
    }
    let t = names_of_entries(e.drop_first());
    assert forall|a: int, b: int| 0 <= a < b < t.len() implies lex_lt(#[trigger] t[a], #[trigger] t[b]) by {
        assert(t[a] == n[a + 1] && t[b] == n[b + 1]);
    }
}

proof fn lemma_sorted_entries_equal(e1: Seq<(Seq<char>, Value)>, e2: Seq<(Seq<char>, Value)>)
    requires
        strictly_sorted(names_of_entries(e1)),
        strictly_sorted(names_of_entries(e2)),
        forall|k: Seq<char>| lookup(e1, k) == lookup(e2, k),
    ensures
        e1 == e2,
    decreases e1.len() + e2.len(),
{
    if e1.len() == 0 && e2.len() == 0 {
        assert(e1 =~= e2);
    } else if e1.len() == 0 {
        assert(lookup(e2, e2[0].0) is Some);
    } else if e2.len() == 0 {
        assert(lookup(e1, e1[0].0) is Some);
    } else {
        lemma_head_below_rest(e1);
        lemma_head_below_rest(e2);
        let x = e1[0].0;
        let y = e2[0].0;
        if x != y {
            lemma_lex_total(x, y);
            if lex_lt(x, y) {
                assert forall|j: int| 0 <= j < e2.len() implies (#[trigger] e2[j]).0 != x by {
                    if j > 0 {
                        lemma_lex_transitive(x, y, e2[j].0);
                    }
                    lemma_lex_irreflexive(x);
                }
                lemma_lookup_absent(e2, x);
                assert(lookup(e1, x) is Some);
            } else {
                assert forall|j: int| 0 <= j < e1.len() implies (#[trigger] e1[j]).0 != y by {
                    if j > 0 {
                        lemma_lex_transitive(y, x, e1[j].0);
                    }
                    lemma_lex_irreflexive(y);
                }
                lemma_lookup_absent(e1, y);
                assert(lookup(e2, y) is Some);
            }
        }
        assert(lookup(e1, x) == Some(e1[0].1));
        assert(lookup(e2, x) == Some(e2[0].1));
        let t1 = e1.drop_first();
        let t2 = e2.drop_first();
        assert forall|k: Seq<char>| lookup(t1, k) == lookup(t2, k) by {
            if k == x {
                assert forall|j: int| 0 <= j < t1.len() implies (#[trigger] t1[j]).0 != k by {
                    assert(t1[j] == e1[j + 1]);
                    lemma_lex_irreflexive(x);
                }
                assert forall|j: int| 0 <= j < t2.len() implies (#[trigger] t2[j]).0 != k by {
                    assert(t2[j] == e2[j + 1]);
                    lemma_lex_irreflexive(x);
                }
                lemma_lookup_absent(t1, k);
                lemma_lookup_absent(t2, k);
            } else {
                assert(lookup(e1, k) == lookup(t1, k));
                assert(lookup(e2, k) == lookup(t2, k));
            }
        }
        lemma_sorted_entries_equal(t1, t2);
        assert(e1[0] == e2[0]);
        assert(e1 =~= e2) by {
            assert forall|j: int| 0 <= j < e1.len() implies e1[j] == e2[j] by {
                if j > 0 {
                    assert(e1[j] == t1[j - 1] && e2[j] == t2[j - 1]);
                }
            }
        }
    }
}

/// Images that give every column the same value hold the same entries: an
/// image's entries, and so its equality with another image, depend on its
/// contents alone, not on the order columns were set in.
pub proof fn same_contents_same_entries(a: RowImage, b: RowImage)
    requires
        strictly_sorted(a.names()),
        strictly_sorted(b.names()),
        forall|k: Seq<char>| a.value_of(k) == b.value_of(k),
    ensures
        a.entries() == b.entries(),
{
    assert forall|k: Seq<char>| lookup(a.entries(), k) == lookup(b.entries(), k) by {
        assert(a.value_of(k) == b.value_of(k));
    }
    lemma_sorted_entries_equal(a.entries(), b.entries());
}

impl Clone for RowImage {
    fn clone(&self) -> (r: Self)
        ensures
            r.names() == self.names(),
    {
        proof { use_type_invariant(self); }
        let mut cols: Vec<(String, Value)> = Vec::new();
        let mut i: usize = 0;
        while i < self.cols.len()
            invariant
                i <= self.cols@.len(),
                cols@.len() == i,
                forall|k: int| 0 <= k < i ==> (#[trigger] cols@[k]).0@ == self.cols@[k].0@,
            decreases self.cols.len() - i,
        {
            let name = self.cols[i].0.clone();
            let value = self.cols[i].1.clone();
            cols.push((name, value));
            i += 1;
        }
        proof {
            let e1 = cols@.map_values(|e: (String, Value)| (e.0@, e.1));
            assert(names_of_entries(e1) =~= self.names());
        }
        RowImage { cols }
    }
}

impl Default for RowImage {
    fn default() -> (r: Self)
        ensures r.spec_is_empty(),
    {
        Self::new()
    }
}

/// Where an evidence packet came from.
#[derive(Debug, Clone, PartialEq, Eq, Hash)]
pub enum EvidenceSource {
    /// PostgreSQL logical replication (pgoutput)
    PgLogicalReplication,
    /// SQL Server CDC tables
    SqlServerCdc,
    /// Debezium connector
    Debezium,
    /// Workload JSON fixture (for testing)
    WorkloadFixture,
    /// Unknown or custom source
    Custom(String),
}

/// A CDC boundary event.
#[derive(Debug, Clone, PartialEq)]
pub struct BoundaryEvent {
    pub relation: String,
    pub op: Operation,
    pub changed_cols: ColumnSet,
    pub old: Option<RowImage>,
    pub new: Option<RowImage>,
    pub commit_lsn: Option<String>,
    pub evidence_level: EvidenceLevel,
}

/// A normalized event with its provenance.
#[derive(Debug, Clone, PartialEq)]
pub struct EvidencePacket {
    pub event: BoundaryEvent,
    pub normalized_at_epoch_ms: u64,
    pub source: EvidenceSource,
}

/// Whether an optional row image is present and holds a column.
pub open spec fn has_rows(r: Option<RowImage>) -> bool {
    match r {
        Some(img) => !img.spec_is_empty(),
        None => false,
    }
}

/// The evidence level a payload supports.
pub open spec fn inferred_level(old: Option<RowImage>, new: Option<RowImage>, lsn: Option<String>) -> EvidenceLevel {
    if has_rows(old) && has_rows(new) && lsn is Some {
        EvidenceLevel::E3
    } else if has_rows(old) && has_rows(new) {
        EvidenceLevel::E2
    } else if has_rows(new) {
        EvidenceLevel::E1
    } else {
        EvidenceLevel::E0
    }
}

/// Whether an optional row image is present and holds a column.
pub fn row_present(r: &Option<RowImage>) -> (b: bool)
    ensures b == has_rows(*r),
{
    match r {
        Some(img) => !img.is_empty(),
        None => false,
    }
}

/// Infer the evidence level from the payload contents.
/// This is computed, not declared: the system checks what it actually has.
pub fn infer_evidence_level(
    old: &Option<RowImage>,
    new: &Option<RowImage>,
    commit_lsn: &Option<String>,
) -> (r: EvidenceLevel)
    ensures r == inferred_level(*old, *new, *commit_lsn),
{
    let has_old = row_present(old);
    let has_new = row_present(new);
    let has_lsn = commit_lsn.is_some();
    if has_old && has_new && has_lsn {
        EvidenceLevel::E3
    } else if has_old && has_new {
        EvidenceLevel::E2
    } else if has_new {
        EvidenceLevel::E1
    } else {
        EvidenceLevel::E0
    }
}

/// Normalize a raw event into an evidence packet. The declared evidence
/// level is replaced by the level inferred from the payload.
pub fn normalize(event: BoundaryEvent, source: EvidenceSource, epoch_ms: u64) -> (r: EvidencePacket)
    ensures
        r.event == (BoundaryEvent {
            evidence_level: inferred_level(event.old, event.new, event.commit_lsn),
            ..event
        }),
        r.source == source,
        r.normalized_at_epoch_ms == epoch_ms,
{
    let mut event = event;
    event.evidence_level = infer_evidence_level(&event.old, &event.new, &event.commit_lsn);
    EvidencePacket { event, normalized_at_epoch_ms: epoch_ms, source }
}

/// Evidence levels are totally ordered, `E0 < E1 < E2 < E3`, and `satisfies`
/// follows that order: every level satisfies itself and the levels below it,
/// and satisfaction carries over from level to level.
pub proof fn satisfaction_follows_level_order(a: EvidenceLevel, b: EvidenceLevel, c: EvidenceLevel)
    ensures
        level_rank(EvidenceLevel::E0) < level_rank(EvidenceLevel::E1) < level_rank(EvidenceLevel::E2)
            < level_rank(EvidenceLevel::E3),
        level_rank(a) >= level_rank(a),
        level_rank(a) >= level_rank(b) || level_rank(b) >= level_rank(a),
        level_rank(a) >= level_rank(b) && level_rank(b) >= level_rank(a) ==> a == b,
        level_rank(a) >= level_rank(b) && level_rank(b) >= level_rank(c) ==> level_rank(a) >= level_rank(c),
{
}

/// More data never lowers the inferred level: an event that carries an old
/// image, a new image or a commit position wherever another does is at least
/// as well evidenced.
pub proof fn more_data_never_lowers_level(
    old: Option<RowImage>,
    new: Option<RowImage>,
    lsn: Option<String>,
    more_old: Option<RowImage>,
    more_new: Option<RowImage>,
    more_lsn: Option<String>,
)
    requires
        has_rows(old) ==> has_rows(more_old),
        has_rows(new) ==> has_rows(more_new),
        lsn is Some ==> more_lsn is Some,
    ensures
        level_rank(inferred_level(old, new, lsn)) <= level_rank(inferred_level(more_old, more_new, more_lsn)),
{
}

/// Normalizing twice is normalizing once: the level normalization sets does
/// not depend on the level the event declared.
pub proof fn normalizing_is_idempotent(event: BoundaryEvent)
    ensures
        ({
            let once = BoundaryEvent { evidence_level: inferred_level(event.old, event.new, event.commit_lsn), ..event };
            BoundaryEvent { evidence_level: inferred_level(once.old, once.new, once.commit_lsn), ..once } == once
        }),
{
}

/// What each inferred level needs: any level above E0 needs a non-empty new
/// image, E2 and above also a non-empty old image, and E3 a commit position;
/// an event without a new image is E0.
pub proof fn inferred_level_needs_its_data(old: Option<RowImage>, new: Option<RowImage>, lsn: Option<String>)
    ensures
        level_rank(inferred_level(old, new, lsn)) >= 1 ==> has_rows(new),
        !has_rows(new) ==> inferred_level(old, new, lsn) == EvidenceLevel::E0,
        level_rank(inferred_level(old, new, lsn)) >= 2 ==> has_rows(old) && has_rows(new),
        inferred_level(old, new, lsn) == EvidenceLevel::E3 ==> has_rows(old) && has_rows(new) && lsn is Some,
        has_rows(new) ==> level_rank(inferred_level(old, new, lsn)) >= 1,
        has_rows(old) && has_rows(new) ==> level_rank(inferred_level(old, new, lsn)) >= 2,
{
}

} // verus!
