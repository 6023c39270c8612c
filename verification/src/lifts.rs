//! Schema and query lift proposals drawn from the coupling analysis.
//!
//! A predicate column shared by coupled shapes is proposed for a split; a
//! hotspot with more than three tenths of all invalidations is proposed a
//! covering projection.
use vstd::prelude::*;
use crate::cert::{QueryShape, strings_view};
use crate::colset::{ColumnSet, lemma_sorted_of, sorted_of, strictly_sorted};
use crate::geometry::{CacheHotspot, InvalidationGraphReport};
use crate::text::{cat, str_eq};

verus! {

/// A structural change that would reduce invalidation.
#[derive(Debug, Clone, PartialEq)]
pub enum LiftAction {
    SplitColumn { relation: String, column: String, into: Vec<String> },
    SplitShape { shape_id: String, regimes: Vec<String> },
    AddProjection { relation: String, keys: Vec<String>, includes: Vec<String> },
}

/// What a lift is expected to save: for a split column, one in `shapes`
/// invalidations per shape is kept, `(shapes - 1) / shapes` of them avoided;
/// for a projection, half of the hotspot's share `invalidations / total`.
#[derive(Debug, Clone, Copy, PartialEq, Eq)]
pub enum ReductionEstimate {
    SharedColumn { shapes: usize },
    Hotspot { invalidations: usize, total: usize },
}

/// A proposed lift, the shapes that witness it and its expected effect.
#[derive(Debug, Clone, PartialEq)]
pub struct LiftProposal {
    pub action: LiftAction,
    pub witness: Vec<String>,
    pub expected_reduction: ReductionEstimate,
}

/// A lift action by the views of its strings.
pub enum LiftActionView {
    SplitColumn { relation: Seq<char>, column: Seq<char>, into: Seq<Seq<char>> },
    SplitShape { shape_id: Seq<char>, regimes: Seq<Seq<char>> },
    AddProjection { relation: Seq<char>, keys: Seq<Seq<char>>, includes: Seq<Seq<char>> },
}

/// A proposal by the views of its strings.
pub struct LiftProposalView {
    pub action: LiftActionView,
    pub witness: Seq<Seq<char>>,
    pub expected_reduction: ReductionEstimate,
}

impl View for LiftAction {
    type V = LiftActionView;

    open spec fn view(&self) -> LiftActionView {
        match self {
            LiftAction::SplitColumn { relation, column, into } =>
                LiftActionView::SplitColumn { relation: relation@, column: column@, into: strings_view(into@) },
            LiftAction::SplitShape { shape_id, regimes } =>
                LiftActionView::SplitShape { shape_id: shape_id@, regimes: strings_view(regimes@) },
            LiftAction::AddProjection { relation, keys, includes } =>
                LiftActionView::AddProjection { relation: relation@, keys: strings_view(keys@), includes: strings_view(includes@) },
        }
    }
}

impl View for LiftProposal {
    type V = LiftProposalView;

    open spec fn view(&self) -> LiftProposalView {
        LiftProposalView { action: self.action@, witness: strings_view(self.witness@), expected_reduction: self.expected_reduction }
    }
}

// ─── Shared predicate columns ──────────────────────────────────

/// Every predicate column of the first `k` shapes.
pub open spec fn predicate_columns(shapes: Seq<QueryShape>, k: int) -> Set<Seq<char>>
    decreases k,
{
    if k <= 0 {
        Set::empty()
    } else {
        predicate_columns(shapes, k - 1).union(shapes[k - 1].predicate_cols@)
    }
}

/// Names of the first `k` shapes with `col` among their predicate columns,
/// in shape order.
pub open spec fn sharing_names(shapes: Seq<QueryShape>, col: Seq<char>, k: int) -> Seq<Seq<char>>
    decreases k,
{
    if k <= 0 {
        Seq::empty()
    } else if shapes[k - 1].predicate_cols@.contains(col) {
        sharing_names(shapes, col, k - 1).push(shapes[k - 1].name@)
    } else {
        sharing_names(shapes, col, k - 1)
    }
}

/// The relation of the first shape, from position `k` on, with `col` among
/// its predicate columns; empty if there is none.
pub open spec fn sharing_relation(shapes: Seq<QueryShape>, col: Seq<char>, k: int) -> Seq<char>
    decreases shapes.len() - k,
{
    if k < 0 || k >= shapes.len() {
        Seq::empty()
    } else if shapes[k].predicate_cols@.contains(col) {
        shapes[k].relation@
    } else {
        sharing_relation(shapes, col, k + 1)
    }
}

/// How many of `names` (counted with repeats) a component holds.
pub open spec fn count_in(names: Seq<Seq<char>>, comp: Seq<Seq<char>>, k: int) -> nat
    decreases k,
{
    if k <= 0 {
        0
    } else {
        count_in(names, comp, k - 1) + if comp.contains(names[k - 1]) { 1nat } else { 0nat }
    }
}

/// Whether some component holds two of `names`.
pub open spec fn coupled_in(names: Seq<Seq<char>>, comps: Seq<Seq<Seq<char>>>) -> bool {
    exists|c: int| 0 <= c < comps.len() && count_in(names, #[trigger] comps[c], names.len() as int) >= 2
}

/// The split proposed for column `col`, if any.
pub open spec fn split_for(shapes: Seq<QueryShape>, comps: Seq<Seq<Seq<char>>>, col: Seq<char>) -> Seq<LiftProposalView> {
    let names = sharing_names(shapes, col, shapes.len() as int);
    if names.len() >= 2 && coupled_in(names, comps) {
        seq![LiftProposalView {
            action: LiftActionView::SplitColumn {
                relation: sharing_relation(shapes, col, 0),
                column: col,
                into: names.map_values(|s: Seq<char>| col + "_"@ + s),
            },
            witness: names,
            expected_reduction: ReductionEstimate::SharedColumn { shapes: names.len() as usize },
        }]
    } else {
        Seq::empty()
    }
}

/// Split proposals for the first `k` of the sorted columns `cols`.
pub open spec fn split_proposals(shapes: Seq<QueryShape>, comps: Seq<Seq<Seq<char>>>, cols: Seq<Seq<char>>, k: int) -> Seq<LiftProposalView>
    decreases k,
{
    if k <= 0 {
        Seq::empty()
    } else {
        split_proposals(shapes, comps, cols, k - 1) + split_for(shapes, comps, cols[k - 1])
    }
}

// ─── Projections for hotspots ──────────────────────────────────

/// A hotspot's share of invalidations exceeds three tenths.
pub open spec fn is_hot(h: CacheHotspot) -> bool {
    h.total_invalidations > 0 && 10 * h.invalidation_count > 3 * h.total_invalidations
}

/// Position of the first shape from `k` on named `name`, or the length.
pub open spec fn shape_named(shapes: Seq<QueryShape>, name: Seq<char>, k: int) -> int
    decreases shapes.len() - k,
{
    if k < 0 || k >= shapes.len() {
        shapes.len() as int
    } else if shapes[k].name@ == name {
        k
    } else {
        shape_named(shapes, name, k + 1)
    }
}

/// The projection proposed for a hotspot, if any.
pub open spec fn projection_for(shapes: Seq<QueryShape>, h: CacheHotspot) -> Seq<LiftProposalView> {
    let i = shape_named(shapes, h.shape_id@, 0);
    if is_hot(h) && 0 <= i < shapes.len() {
        let s = shapes[i];
        if s.projection_cols.ordered().len() > 0 && s.predicate_cols.ordered().len() > 0 {
            seq![LiftProposalView {
                action: LiftActionView::AddProjection {
                    relation: s.relation@,
                    keys: s.predicate_cols.ordered(),
                    includes: s.projection_cols.ordered(),
                },
                witness: seq![s.name@],
                expected_reduction: ReductionEstimate::Hotspot {
                    invalidations: h.invalidation_count,
                    total: h.total_invalidations,
                },
            }]
        } else {
            Seq::empty()
        }
    } else {
        Seq::empty()
    }
}

/// Projection proposals for the first `k` hotspots.
pub open spec fn projection_proposals(shapes: Seq<QueryShape>, hs: Seq<CacheHotspot>, k: int) -> Seq<LiftProposalView>
    decreases k,
{
    if k <= 0 {
        Seq::empty()
    } else {
        projection_proposals(shapes, hs, k - 1) + projection_for(shapes, hs[k - 1])
    }
}

/// The components of a report by the views of their names.
pub open spec fn components_view(r: InvalidationGraphReport) -> Seq<Seq<Seq<char>>> {
    r.components@.map_values(|c: Vec<String>| strings_view(c@))
}

/// Every proposal `propose_lifts` makes, in order: splits by increasing
/// column, then projections by hotspot.
pub open spec fn lift_proposals(report: InvalidationGraphReport, shapes: Seq<QueryShape>) -> Seq<LiftProposalView> {
    let cols = sorted_of(predicate_columns(shapes, shapes.len() as int));
    split_proposals(shapes, components_view(report), cols, cols.len() as int)
        + projection_proposals(shapes, report.hotspots@, report.hotspots@.len() as int)
}

// ─── Execution ─────────────────────────────────────────────────

fn sharing_names_exec(shapes: &[QueryShape], col: &str) -> (r: Vec<String>)
    ensures strings_view(r@) == sharing_names(shapes@, col@, shapes@.len() as int),
{
    let mut out: Vec<String> = Vec::new();
    let mut i: usize = 0;
    while i < shapes.len()
        invariant
            i <= shapes@.len(),
            strings_view(out@) == sharing_names(shapes@, col@, i as int),
        decreases shapes.len() - i,
    {
        if shapes[i].predicate_cols.contains(col) {
            let ghost before = out@;
            let nm = String::from_str(shapes[i].name.as_str());
            let ghost nv = nm@;
            out.push(nm);
            assert(strings_view(out@) =~= strings_view(before).push(nv));
        }
        i += 1;
    }
    out
}

fn sharing_relation_exec(shapes: &[QueryShape], col: &str) -> (r: String)
    ensures r@ == sharing_relation(shapes@, col@, 0),
{
    let mut i: usize = 0;
    while i < shapes.len()
        invariant
            i <= shapes@.len(),
            sharing_relation(shapes@, col@, 0) == sharing_relation(shapes@, col@, i as int),
        decreases shapes.len() - i,
    {
        if shapes[i].predicate_cols.contains(col) {
            return String::from_str(shapes[i].relation.as_str());
        }
        i += 1;
    }
    String::new()
}

fn vec_contains_str(v: &Vec<String>, x: &str) -> (r: bool)
    ensures r == strings_view(v@).contains(x@),
{
    let mut i: usize = 0;
    while i < v.len()
        invariant
            i <= v@.len(),
            forall|k: int| 0 <= k < i ==> strings_view(v@)[k] != x@,
        decreases v.len() - i,
    {
        if str_eq(v[i].as_str(), x) {
            assert(strings_view(v@)[i as int] == x@);
            return true;
        }
        i += 1;
    }
    false
}

fn count_in_exec(names: &Vec<String>, comp: &Vec<String>) -> (r: usize)
    ensures r == count_in(strings_view(names@), strings_view(comp@), names@.len() as int),
{
    let mut c: usize = 0;
    let mut i: usize = 0;
    while i < names.len()
        invariant
            i <= names@.len(), c <= i,
            c == count_in(strings_view(names@), strings_view(comp@), i as int),
        decreases names.len() - i,
    {
        if vec_contains_str(comp, names[i].as_str()) {
            c += 1;
        }
        i += 1;
    }
    c
}

fn coupled_in_exec(names: &Vec<String>, comps: &Vec<Vec<String>>) -> (r: bool)
    ensures r == coupled_in(strings_view(names@), comps@.map_values(|c: Vec<String>| strings_view(c@))),
{
    let ghost cv = comps@.map_values(|c: Vec<String>| strings_view(c@));
    let mut i: usize = 0;
    while i < comps.len()
        invariant
            i <= comps@.len(), cv == comps@.map_values(|c: Vec<String>| strings_view(c@)),
            forall|k: int| 0 <= k < i ==> count_in(strings_view(names@), #[trigger] cv[k], names@.len() as int) < 2,
        decreases comps.len() - i,
    {
        if count_in_exec(names, &comps[i]) >= 2 {
            assert(cv[i as int] == strings_view(comps@[i as int]@));
            return true;
        }
        i += 1;
    }
    false
}

fn suffixed(col: &str, names: &Vec<String>) -> (r: Vec<String>)
    ensures strings_view(r@) == strings_view(names@).map_values(|s: Seq<char>| col@ + "_"@ + s),
{
    let mut out: Vec<String> = Vec::new();
    let mut i: usize = 0;
    while i < names.len()
        invariant
            i <= names@.len(),
            strings_view(out@) == strings_view(names@).map_values(|s: Seq<char>| col@ + "_"@ + s).subrange(0, i as int),
        decreases names.len() - i,
    {
        let a = cat(col, "_");
        let b = cat(a.as_str(), names[i].as_str());
        let ghost before = out@;
        let ghost bv = b@;
        out.push(b);
        assert(strings_view(out@) =~= strings_view(before).push(bv));
        assert(strings_view(out@) =~= strings_view(names@).map_values(|s: Seq<char>| col@ + "_"@ + s).subrange(0, i + 1));
        i += 1;
    }
    assert(strings_view(names@).map_values(|s: Seq<char>| col@ + "_"@ + s).subrange(0, names@.len() as int)
        =~= strings_view(names@).map_values(|s: Seq<char>| col@ + "_"@ + s));
    out
}

fn clone_strings(v: &Vec<String>) -> (r: Vec<String>)
    ensures strings_view(r@) == strings_view(v@),
{
    let mut out: Vec<String> = Vec::new();
    let mut i: usize = 0;
    while i < v.len()
        invariant i <= v@.len(), strings_view(out@) == strings_view(v@).subrange(0, i as int),
        decreases v.len() - i,
    {
        let ghost before = out@;
        let s = String::from_str(v[i].as_str());
        let ghost sv = s@;
        out.push(s);
        assert(strings_view(out@) =~= strings_view(before).push(sv));
        assert(strings_view(out@) =~= strings_view(v@).subrange(0, i + 1));
        i += 1;
    }
    assert(strings_view(v@).subrange(0, v@.len() as int) =~= strings_view(v@));
    out
}

fn shape_named_exec(shapes: &[QueryShape], name: &str) -> (r: usize)
    ensures r == shape_named(shapes@, name@, 0),
{
    let mut i: usize = 0;
    while i < shapes.len()
        invariant
            i <= shapes@.len(),
            shape_named(shapes@, name@, 0) == shape_named(shapes@, name@, i as int),
        decreases shapes.len() - i,
    {
        if str_eq(shapes[i].name.as_str(), name) {
            return i;
        }
        i += 1;
    }
    i
}

fn is_hot_exec(h: &CacheHotspot) -> (r: bool)
    ensures r == is_hot(*h),
{
    let inv = h.invalidation_count as u128;
    let total = h.total_invalidations as u128;
    h.total_invalidations > 0 && 10 * inv > 3 * total
}

fn push_view(out: &mut Vec<LiftProposal>, p: LiftProposal)
    ensures final(out)@.map_values(|q: LiftProposal| q@) == old(out)@.map_values(|q: LiftProposal| q@).push(p@),
{
    let ghost before = out@;
    let ghost pv = p@;
    out.push(p);
    assert(out@.map_values(|q: LiftProposal| q@) =~= before.map_values(|q: LiftProposal| q@).push(pv));
}

proof fn lemma_predicate_columns(shapes: Seq<QueryShape>, k: int, c: Seq<char>)
    requires 0 <= k <= shapes.len(),
    ensures predicate_columns(shapes, k).contains(c) <==> exists|i: int| 0 <= i < k && (#[trigger] shapes[i]).predicate_cols@.contains(c),
    decreases k,
{
    if k > 0 {
        lemma_predicate_columns(shapes, k - 1, c);
        if shapes[k - 1].predicate_cols@.contains(c) {
            assert(exists|i: int| 0 <= i < k && (#[trigger] shapes[i]).predicate_cols@.contains(c));
        }
        if exists|i: int| 0 <= i < k && (#[trigger] shapes[i]).predicate_cols@.contains(c) {
            let i = choose|i: int| 0 <= i < k && (#[trigger] shapes[i]).predicate_cols@.contains(c);
            if i < k - 1 {
                assert(exists|i: int| 0 <= i < k - 1 && (#[trigger] shapes[i]).predicate_cols@.contains(c));
            }
        }
    }
}

/// Some component of `comps` holds the names of two distinct shapes that
/// both have `col` among their predicate columns.
pub open spec fn coupled_sharers(shapes: Seq<QueryShape>, comps: Seq<Seq<Seq<char>>>, col: Seq<char>) -> bool {
    exists|c: int, s1: int, s2: int|
        #![trigger comps[c], shapes[s1], shapes[s2]]
        0 <= c < comps.len() && 0 <= s1 < s2 < shapes.len()
            && shapes[s1].predicate_cols@.contains(col) && shapes[s2].predicate_cols@.contains(col)
            && comps[c].contains(shapes[s1].name@) && comps[c].contains(shapes[s2].name@)
}

/// Every name in `w` is the name of a shape with `col` among its predicate
/// columns.
pub open spec fn all_read_column(shapes: Seq<QueryShape>, w: Seq<Seq<char>>, col: Seq<char>) -> bool {
    forall|k: int| 0 <= k < w.len() ==> exists|s: int|
        0 <= s < shapes.len() && #[trigger] shapes[s].name@ == #[trigger] w[k] && shapes[s].predicate_cols@.contains(col)
}

/// A split of a column is backed by coupled shapes that filter on it, and
/// names only shapes that filter on it; other proposals are not constrained.
pub open spec fn split_warranted(shapes: Seq<QueryShape>, comps: Seq<Seq<Seq<char>>>, p: LiftProposalView) -> bool {
    match p.action {
        LiftActionView::SplitColumn { column, .. } =>
            coupled_sharers(shapes, comps, column) && all_read_column(shapes, p.witness, column),
        _ => true,
    }
}

proof fn lemma_sharing_index(shapes: Seq<QueryShape>, col: Seq<char>, k: int, i: int)
    requires 0 <= k <= shapes.len(), 0 <= i < sharing_names(shapes, col, k).len(),
    ensures exists|s: int| 0 <= s < k && #[trigger] shapes[s].name@ == sharing_names(shapes, col, k)[i]
        && shapes[s].predicate_cols@.contains(col),
    decreases k,
{
    if k > 0 {
        if shapes[k - 1].predicate_cols@.contains(col) {
            if i < sharing_names(shapes, col, k - 1).len() {
                lemma_sharing_index(shapes, col, k - 1, i);
            } else {
                assert(shapes[k - 1].name@ == sharing_names(shapes, col, k)[i]);
            }
        } else {
            lemma_sharing_index(shapes, col, k - 1, i);
        }
    }
}

proof fn lemma_sharing_pair(shapes: Seq<QueryShape>, col: Seq<char>, k: int, i: int, j: int)
    requires 0 <= k <= shapes.len(), 0 <= i < j < sharing_names(shapes, col, k).len(),
    ensures exists|s1: int, s2: int| #![trigger shapes[s1], shapes[s2]] 0 <= s1 < s2 < k
        && shapes[s1].name@ == sharing_names(shapes, col, k)[i] && shapes[s1].predicate_cols@.contains(col)
        && shapes[s2].name@ == sharing_names(shapes, col, k)[j] && shapes[s2].predicate_cols@.contains(col),
    decreases k,
{
    if k > 0 {
        let prev = sharing_names(shapes, col, k - 1);
        if shapes[k - 1].predicate_cols@.contains(col) {
            if j < prev.len() {
                lemma_sharing_pair(shapes, col, k - 1, i, j);
                let (s1, s2) = choose|s1: int, s2: int| #![trigger shapes[s1], shapes[s2]] 0 <= s1 < s2 < k - 1
                    && shapes[s1].name@ == prev[i] && shapes[s1].predicate_cols@.contains(col)
                    && shapes[s2].name@ == prev[j] && shapes[s2].predicate_cols@.contains(col);
                assert(shapes[s1].name@ == sharing_names(shapes, col, k)[i]);
                assert(shapes[s2].name@ == sharing_names(shapes, col, k)[j]);
            } else {
                lemma_sharing_index(shapes, col, k - 1, i);
                let s1 = choose|s: int| 0 <= s < k - 1 && #[trigger] shapes[s].name@ == prev[i]
                    && shapes[s].predicate_cols@.contains(col);
                assert(shapes[s1].name@ == sharing_names(shapes, col, k)[i]);
                assert(shapes[k - 1].name@ == sharing_names(shapes, col, k)[j]);
                let s2 = k - 1;
                assert(shapes[s2].name@ == sharing_names(shapes, col, k)[j]);
            }
        } else {
            lemma_sharing_pair(shapes, col, k - 1, i, j);
        }
    }
}

proof fn lemma_count_one(names: Seq<Seq<char>>, comp: Seq<Seq<char>>, k: int)
    requires 0 <= k <= names.len(), count_in(names, comp, k) >= 1,
    ensures exists|i: int| 0 <= i < k && comp.contains(#[trigger] names[i]),
    decreases k,
{
    if k > 0 {
        if !comp.contains(names[k - 1]) {
            lemma_count_one(names, comp, k - 1);
        }
    }
}

proof fn lemma_count_pair(names: Seq<Seq<char>>, comp: Seq<Seq<char>>, k: int)
    requires 0 <= k <= names.len(), count_in(names, comp, k) >= 2,
    ensures exists|i: int, j: int| #![trigger names[i], names[j]] 0 <= i < j < k
        && comp.contains(names[i]) && comp.contains(names[j]),
    decreases k,
{
    if k > 0 {
        if comp.contains(names[k - 1]) {
            if count_in(names, comp, k - 1) >= 2 {
                lemma_count_pair(names, comp, k - 1);
                let (i, j) = choose|i: int, j: int| #![trigger names[i], names[j]] 0 <= i < j < k - 1
                    && comp.contains(names[i]) && comp.contains(names[j]);
                assert(0 <= i < j < k);
            } else {
                lemma_count_one(names, comp, k - 1);
                let i = choose|i: int| 0 <= i < k - 1 && comp.contains(#[trigger] names[i]);
                let j = k - 1;
                assert(comp.contains(names[i]) && comp.contains(names[j]));
            }
        } else {
            lemma_count_pair(names, comp, k - 1);
            let (i, j) = choose|i: int, j: int| #![trigger names[i], names[j]] 0 <= i < j < k - 1
                && comp.contains(names[i]) && comp.contains(names[j]);
            assert(0 <= i < j < k);
        }
    }
}

proof fn lemma_split_for(shapes: Seq<QueryShape>, comps: Seq<Seq<Seq<char>>>, col: Seq<char>)
    ensures forall|q: int| 0 <= q < split_for(shapes, comps, col).len() ==>
        (#[trigger] split_for(shapes, comps, col)[q]).action is SplitColumn
        && split_warranted(shapes, comps, split_for(shapes, comps, col)[q]),
{
    let names = sharing_names(shapes, col, shapes.len() as int);
    if names.len() >= 2 && coupled_in(names, comps) {
        let p = split_for(shapes, comps, col)[0];
        let c = choose|c: int| 0 <= c < comps.len() && count_in(names, #[trigger] comps[c], names.len() as int) >= 2;
        lemma_count_pair(names, comps[c], names.len() as int);
        let (i, j) = choose|i: int, j: int| #![trigger names[i], names[j]] 0 <= i < j < names.len()
            && comps[c].contains(names[i]) && comps[c].contains(names[j]);
        lemma_sharing_pair(shapes, col, shapes.len() as int, i, j);
        let (s1, s2) = choose|s1: int, s2: int| #![trigger shapes[s1], shapes[s2]] 0 <= s1 < s2 < shapes.len()
            && shapes[s1].name@ == names[i] && shapes[s1].predicate_cols@.contains(col)
            && shapes[s2].name@ == names[j] && shapes[s2].predicate_cols@.contains(col);
        assert(comps[c].contains(shapes[s1].name@) && comps[c].contains(shapes[s2].name@));
        assert(coupled_sharers(shapes, comps, col));
        assert forall|k: int| 0 <= k < names.len() implies exists|s: int|
            0 <= s < shapes.len() && #[trigger] shapes[s].name@ == #[trigger] names[k] && shapes[s].predicate_cols@.contains(col) by {
            lemma_sharing_index(shapes, col, shapes.len() as int, k);
        }
        assert(p.witness == names);
        assert(all_read_column(shapes, p.witness, col));
    }
}

proof fn lemma_split_proposals(shapes: Seq<QueryShape>, comps: Seq<Seq<Seq<char>>>, cols: Seq<Seq<char>>, k: int)
    requires 0 <= k <= cols.len(),
    ensures forall|q: int| 0 <= q < split_proposals(shapes, comps, cols, k).len() ==>
        (#[trigger] split_proposals(shapes, comps, cols, k)[q]).action is SplitColumn
        && split_warranted(shapes, comps, split_proposals(shapes, comps, cols, k)[q]),
    decreases k,
{
    if k > 0 {
        lemma_split_proposals(shapes, comps, cols, k - 1);
        lemma_split_for(shapes, comps, cols[k - 1]);
        let a = split_proposals(shapes, comps, cols, k - 1);
        let b = split_for(shapes, comps, cols[k - 1]);
        assert forall|q: int| 0 <= q < split_proposals(shapes, comps, cols, k).len() implies
            (#[trigger] split_proposals(shapes, comps, cols, k)[q]).action is SplitColumn
            && split_warranted(shapes, comps, split_proposals(shapes, comps, cols, k)[q]) by {
            if q < a.len() {
                assert(split_proposals(shapes, comps, cols, k)[q] == a[q]);
            } else {
                assert(split_proposals(shapes, comps, cols, k)[q] == b[q - a.len()]);
            }
        }
    }
}

proof fn lemma_projection_proposals(shapes: Seq<QueryShape>, hs: Seq<CacheHotspot>, k: int)
    requires 0 <= k <= hs.len(),
    ensures forall|q: int| 0 <= q < projection_proposals(shapes, hs, k).len() ==>
        (#[trigger] projection_proposals(shapes, hs, k)[q]).action is AddProjection,
    decreases k,
{
    if k > 0 {
        lemma_projection_proposals(shapes, hs, k - 1);
        let a = projection_proposals(shapes, hs, k - 1);
        let b = projection_for(shapes, hs[k - 1]);
        assert forall|q: int| 0 <= q < projection_proposals(shapes, hs, k).len() implies
            (#[trigger] projection_proposals(shapes, hs, k)[q]).action is AddProjection by {
            if q < a.len() {
                assert(projection_proposals(shapes, hs, k)[q] == a[q]);
            } else {
                assert(projection_proposals(shapes, hs, k)[q] == b[q - a.len()]);
            }
        }
    }
}

/// A column is proposed for a split only where some component of the report
/// holds two distinct shapes that both have the column among their predicate
/// columns, and every shape the proposal names as witness has it there too.
pub proof fn splits_need_coupled_sharers(report: InvalidationGraphReport, shapes: Seq<QueryShape>, q: int)
    requires 0 <= q < lift_proposals(report, shapes).len(),
    ensures split_warranted(shapes, components_view(report), lift_proposals(report, shapes)[q]),
{
    let cols = sorted_of(predicate_columns(shapes, shapes.len() as int));
    let comps = components_view(report);
    let a = split_proposals(shapes, comps, cols, cols.len() as int);
    let b = projection_proposals(shapes, report.hotspots@, report.hotspots@.len() as int);
    lemma_split_proposals(shapes, comps, cols, cols.len() as int);
    lemma_projection_proposals(shapes, report.hotspots@, report.hotspots@.len() as int);
    if q < a.len() {
        assert(lift_proposals(report, shapes)[q] == a[q]);
    } else {
        assert(lift_proposals(report, shapes)[q] == b[q - a.len()]);
    }
}

/// Propose schema and query lifts from a coupling report.
pub fn propose_lifts(report: &InvalidationGraphReport, shapes: &[QueryShape]) -> (r: Vec<LiftProposal>)
    ensures r@.map_values(|p: LiftProposal| p@) == lift_proposals(*report, shapes@),
{
    let mut out: Vec<LiftProposal> = Vec::new();

    // Every predicate column, in increasing order
    let mut all = ColumnSet::new();
    let mut i: usize = 0;
    while i < shapes.len()
        invariant
            i <= shapes@.len(),
            all@ == predicate_columns(shapes@, i as int),
            strictly_sorted(all.ordered()),
        decreases shapes.len() - i,
    {
        all = all.union(&shapes[i].predicate_cols);
        i += 1;
    }
    let ghost cols = all.ordered();
    proof {
        assert forall|c: Seq<char>| #[trigger] cols.contains(c) <==> predicate_columns(shapes@, shapes@.len() as int).contains(c) by {
            assert(all@.contains(c) == cols.contains(c));
        }
        lemma_sorted_of(cols, predicate_columns(shapes@, shapes@.len() as int));
    }
    let ghost comps = components_view(*report);

    let ncols = all.len();
    let mut k: usize = 0;
    while k < ncols
        invariant
            ncols == cols.len(),
            k <= cols.len(), cols == all.ordered(),
            comps == components_view(*report),
            out@.map_values(|p: LiftProposal| p@) == split_proposals(shapes@, comps, cols, k as int),
        decreases cols.len() - k,
    {
        let col = all.get(k);
        let names = sharing_names_exec(shapes, col.as_str());
        if names.len() >= 2 && coupled_in_exec(&names, &report.components) {
            let relation = sharing_relation_exec(shapes, col.as_str());
            let into = suffixed(col.as_str(), &names);
            let n = names.len();
            let witness = clone_strings(&names);
            push_view(&mut out, LiftProposal {
                action: LiftAction::SplitColumn { relation, column: String::from_str(col.as_str()), into },
                witness,
                expected_reduction: ReductionEstimate::SharedColumn { shapes: n },
            });
        }
        k += 1;
    }

    let ghost splits = out@.map_values(|p: LiftProposal| p@);
    let mut h: usize = 0;
    while h < report.hotspots.len()
        invariant
            h <= report.hotspots@.len(),
            splits == split_proposals(shapes@, comps, cols, cols.len() as int),
            out@.map_values(|p: LiftProposal| p@) == splits + projection_proposals(shapes@, report.hotspots@, h as int),
        decreases report.hotspots.len() - h,
    {
        let hot = &report.hotspots[h];
        let ghost before = out@.map_values(|p: LiftProposal| p@);
        if is_hot_exec(hot) {
            let idx = shape_named_exec(shapes, hot.shape_id.as_str());
            if idx < shapes.len() {
                let shape = &shapes[idx];
                if !shape.projection_cols.is_empty() {
                    let keys = shape.predicate_cols.to_vec();
                    let includes = shape.projection_cols.to_vec();
                    if keys.len() > 0 {
                        let mut witness: Vec<String> = Vec::new();
                        let nm = String::from_str(shape.name.as_str());
                        let ghost nv = nm@;
                        witness.push(nm);
                        assert(strings_view(witness@) =~= seq![nv]);
                        push_view(&mut out, LiftProposal {
                            action: LiftAction::AddProjection {
                                relation: String::from_str(shape.relation.as_str()),
                                keys,
                                includes,
                            },
                            witness,
                            expected_reduction: ReductionEstimate::Hotspot {
                                invalidations: hot.invalidation_count,
                                total: hot.total_invalidations,
                            },
                        });
                    }
                }
            }
        }
        proof {
            assert(projection_proposals(shapes@, report.hotspots@, h + 1)
                == projection_proposals(shapes@, report.hotspots@, h as int) + projection_for(shapes@, report.hotspots@[h as int]));
            assert(out@.map_values(|p: LiftProposal| p@) =~= splits + projection_proposals(shapes@, report.hotspots@, h + 1));
        }
        h += 1;
    }
    out
}

} // verus!
