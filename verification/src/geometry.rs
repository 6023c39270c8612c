//! Workload structure: which shapes are invalidated together, which are hot,
//! and which schema lifts would reduce invalidation.
//!
//! The coupling graph has a node per shape and an edge between two shapes
//! for every event that invalidates both; its connected components come from
//! union-find and its cycle count from the Euler characteristic.
//! Floating-point scores (coupling density, skew entropy, hotspot shares)
//! are derived from the integer counts held here.
use vstd::prelude::*;
use crate::cert::{QueryShape, fingerprint_of, shares};
use crate::evidence::EvidencePacket;
use crate::text::str_eq;
use crate::unionfind::{UnionFind, classes, uf_fresh, uf_union};

verus! {

/// An edge of the coupling graph: two shapes and the number of events that
/// invalidated both.
#[derive(Debug, Clone, PartialEq)]
pub struct CouplingEdge {
    pub left: usize,
    pub right: usize,
    pub event_count: usize,
}

/// Shapes and the edges between them.
#[derive(Debug, Clone, PartialEq)]
pub struct CouplingGraph {
    pub nodes: Vec<String>,
    pub edges: Vec<CouplingEdge>,
}

/// A shape that events invalidate, with its count and the total over all
/// shapes (its share is `invalidation_count / total_invalidations`).
#[derive(Debug, Clone, PartialEq)]
pub struct CacheHotspot {
    pub shape_id: String,
    pub invalidation_count: usize,
    pub repair_count: usize,
    pub total_invalidations: usize,
}

/// The invalidation graph and what it shows.
#[derive(Debug, Clone, PartialEq)]
pub struct InvalidationGraphReport {
    /// Connected components, by shape name.
    pub components: Vec<Vec<String>>,
    /// Independent cycles, the cycle rank: edges - shapes + components.
    pub cycles: usize,
    /// Number of coupled pairs; the coupling score is
    /// `coupled_pairs / max_pairs * 100`.
    pub coupled_pairs: usize,
    /// Pairs a complete graph would have (1 for fewer than two shapes).
    pub max_pairs: usize,
    /// Invalidations per shape, the distribution whose entropy is the skew.
    pub invalidation_counts: Vec<usize>,
    /// Invalidated shapes, most invalidated first.
    pub hotspots: Vec<CacheHotspot>,
    pub graph: CouplingGraph,
}

// ─── Counting ──────────────────────────────────────────────────

/// Whether an event invalidates a shape: same relation, and a changed
/// column in the shape's fingerprint.
pub open spec fn affects(s: QueryShape, p: EvidencePacket) -> bool {
    s.relation@ == p.event.relation@ && shares(fingerprint_of(s), p.event.changed_cols@)
}

/// Events among the first `k` that invalidate shape `i`.
pub open spec fn hits(shapes: Seq<QueryShape>, events: Seq<EvidencePacket>, i: int, k: int) -> nat
    decreases k,
{
    if k <= 0 {
        0
    } else {
        hits(shapes, events, i, k - 1) + if affects(shapes[i], events[k - 1]) { 1nat } else { 0nat }
    }
}

/// Events among the first `k` that invalidate both `a` and `b`.
pub open spec fn co_hits(shapes: Seq<QueryShape>, events: Seq<EvidencePacket>, a: int, b: int, k: int) -> nat
    decreases k,
{
    if k <= 0 {
        0
    } else {
        co_hits(shapes, events, a, b, k - 1)
            + if affects(shapes[a], events[k - 1]) && affects(shapes[b], events[k - 1]) { 1nat } else { 0nat }
    }
}

/// The edges `(a, b', count)` for `a < b' < b` with a positive count.
pub open spec fn edge_row(shapes: Seq<QueryShape>, events: Seq<EvidencePacket>, a: int, b: int) -> Seq<(int, int, int)>
    decreases b - a,
{
    if b <= a + 1 {
        Seq::empty()
    } else {
        let c = co_hits(shapes, events, a, b - 1, events.len() as int);
        edge_row(shapes, events, a, b - 1) + if c > 0 { seq![(a, b - 1, c as int)] } else { Seq::empty() }
    }
}

/// The edges whose left end is below `a`, in increasing order of pairs:
/// the order in which a map keyed by pairs lists them.
pub open spec fn edge_list(shapes: Seq<QueryShape>, events: Seq<EvidencePacket>, a: int) -> Seq<(int, int, int)>
    decreases a,
{
    if a <= 0 {
        Seq::empty()
    } else {
        edge_list(shapes, events, a - 1) + edge_row(shapes, events, a - 1, shapes.len() as int)
    }
}

/// The coupling graph's edges.
pub open spec fn coupling_edges(shapes: Seq<QueryShape>, events: Seq<EvidencePacket>) -> Seq<(int, int, int)> {
    edge_list(shapes, events, shapes.len() as int)
}

/// An edge as a triple.
pub open spec fn edge_view(e: CouplingEdge) -> (int, int, int) {
    (e.left as int, e.right as int, e.event_count as int)
}

/// The union-find model after merging along the first `k` edges.
pub open spec fn uf_fold(edges: Seq<(int, int, int)>, n: nat, k: int) -> (Seq<int>, Seq<int>)
    decreases k,
{
    if k <= 0 {
        uf_fresh(n)
    } else {
        let m = uf_fold(edges, n, k - 1);
        uf_union(m.0, m.1, edges[k - 1].0, edges[k - 1].1)
    }
}

/// The shape names of a class of indices.
pub open spec fn class_names(shapes: Seq<QueryShape>, c: Seq<usize>) -> Seq<Seq<char>> {
    c.map_values(|i: usize| shapes[i as int].name@)
}

/// The first position in `s` whose count is below `c`.
pub open spec fn hot_pos(s: Seq<int>, counts: Seq<int>, c: int) -> int
    decreases s.len(),
{
    if s.len() == 0 {
        0
    } else if counts[s[0]] < c {
        0
    } else {
        1 + hot_pos(s.drop_first(), counts, c)
    }
}

/// The indices below `k` with a positive count, most counted first, ties in
/// increasing index: a stable sort by descending count.
pub open spec fn hot_order(counts: Seq<int>, k: int) -> Seq<int>
    decreases k,
{
    if k <= 0 {
        Seq::empty()
    } else {
        let s = hot_order(counts, k - 1);
        if counts[k - 1] > 0 {
            s.insert(hot_pos(s, counts, counts[k - 1]), k - 1)
        } else {
            s
        }
    }
}

fn affects_exec(shape: &QueryShape, fp: &crate::colset::ColumnSet, p: &EvidencePacket) -> (r: bool)
    requires fp@ == fingerprint_of(*shape),
    ensures r == affects(*shape, *p),
{
    str_eq(shape.relation.as_str(), p.event.relation.as_str()) && fp.intersects(&p.event.changed_cols)
}

/// For every event, which shapes it invalidates.
fn affected_matrix(shapes: &[QueryShape], events: &[EvidencePacket]) -> (m: Vec<Vec<bool>>)
    ensures
        m@.len() == events@.len(),
        forall|e: int| 0 <= e < events@.len() ==> (#[trigger] m@[e])@.len() == shapes@.len(),
        forall|e: int, i: int| 0 <= e < events@.len() && 0 <= i < shapes@.len()
            ==> #[trigger] m@[e]@[i] == affects(shapes@[i], events@[e]),
{
    let mut fps: Vec<crate::colset::ColumnSet> = Vec::new();
    let mut i: usize = 0;
    while i < shapes.len()
        invariant
            i <= shapes@.len(), fps@.len() == i,
            forall|k: int| 0 <= k < i ==> (#[trigger] fps@[k])@ == fingerprint_of(shapes@[k]),
        decreases shapes.len() - i,
    {
        fps.push(shapes[i].fingerprint());
        i += 1;
    }
    let mut m: Vec<Vec<bool>> = Vec::new();
    let mut e: usize = 0;
    while e < events.len()
        invariant
            e <= events@.len(), m@.len() == e, fps@.len() == shapes@.len(),
            forall|k: int| 0 <= k < shapes@.len() ==> (#[trigger] fps@[k])@ == fingerprint_of(shapes@[k]),
            forall|x: int| 0 <= x < e ==> (#[trigger] m@[x])@.len() == shapes@.len(),
            forall|x: int, k: int| 0 <= x < e && 0 <= k < shapes@.len()
                ==> #[trigger] m@[x]@[k] == affects(shapes@[k], events@[x]),
        decreases events.len() - e,
    {
        let mut row: Vec<bool> = Vec::new();
        let mut k: usize = 0;
        while k < shapes.len()
            invariant
                k <= shapes@.len(), row@.len() == k, fps@.len() == shapes@.len(), e < events@.len(),
                forall|q: int| 0 <= q < shapes@.len() ==> (#[trigger] fps@[q])@ == fingerprint_of(shapes@[q]),
                forall|q: int| 0 <= q < k ==> (#[trigger] row@[q]) == affects(shapes@[q], events@[e as int]),
            decreases shapes.len() - k,
        {
            row.push(affects_exec(&shapes[k], &fps[k], &events[e]));
            k += 1;
        }
        m.push(row);
        e += 1;
    }
    m
}

/// Invalidations of each shape over all events.
pub open spec fn hit_counts(shapes: Seq<QueryShape>, events: Seq<EvidencePacket>) -> Seq<int> {
    Seq::new(shapes.len(), |i: int| hits(shapes, events, i, events.len() as int) as int)
}

/// Invalidations summed over the shapes below `k`.
pub open spec fn total_hits(shapes: Seq<QueryShape>, events: Seq<EvidencePacket>, k: int) -> nat
    decreases k,
{
    if k <= 0 {
        0
    } else {
        total_hits(shapes, events, k - 1) + hits(shapes, events, k - 1, events.len() as int)
    }
}

proof fn lemma_hits_bound(shapes: Seq<QueryShape>, events: Seq<EvidencePacket>, i: int, k: int)
    requires 0 <= k,
    ensures hits(shapes, events, i, k) <= k,
    decreases k,
{
    if k > 0 {
        lemma_hits_bound(shapes, events, i, k - 1);
    }
}

proof fn lemma_co_hits_bound(shapes: Seq<QueryShape>, events: Seq<EvidencePacket>, a: int, b: int, k: int)
    requires 0 <= k,
    ensures co_hits(shapes, events, a, b, k) <= k,
    decreases k,
{
    if k > 0 {
        lemma_co_hits_bound(shapes, events, a, b, k - 1);
    }
}

fn count_hits(aff: &Vec<Vec<bool>>, i: usize, Ghost(shapes): Ghost<Seq<QueryShape>>, Ghost(events): Ghost<Seq<EvidencePacket>>) -> (c: usize)
    requires
        i < shapes.len(),
        aff@.len() == events.len(),
        forall|e: int| 0 <= e < events.len() ==> (#[trigger] aff@[e])@.len() == shapes.len(),
        forall|e: int, k: int| 0 <= e < events.len() && 0 <= k < shapes.len()
            ==> #[trigger] aff@[e]@[k] == affects(shapes[k], events[e]),
    ensures c == hits(shapes, events, i as int, events.len() as int),
{
    let mut c: usize = 0;
    let mut e: usize = 0;
    while e < aff.len()
        invariant
            e <= aff@.len(), aff@.len() == events.len(), i < shapes.len(),
            forall|x: int| 0 <= x < events.len() ==> (#[trigger] aff@[x])@.len() == shapes.len(),
            forall|x: int, k: int| 0 <= x < events.len() && 0 <= k < shapes.len()
                ==> #[trigger] aff@[x]@[k] == affects(shapes[k], events[x]),
            c == hits(shapes, events, i as int, e as int),
        decreases aff.len() - e,
    {
        proof { lemma_hits_bound(shapes, events, i as int, e as int); }
        if aff[e][i] {
            c += 1;
        }
        e += 1;
    }
    c
}

fn count_co_hits(aff: &Vec<Vec<bool>>, a: usize, b: usize, Ghost(shapes): Ghost<Seq<QueryShape>>, Ghost(events): Ghost<Seq<EvidencePacket>>) -> (c: usize)
    requires
        a < shapes.len(), b < shapes.len(),
        aff@.len() == events.len(),
        forall|e: int| 0 <= e < events.len() ==> (#[trigger] aff@[e])@.len() == shapes.len(),
        forall|e: int, k: int| 0 <= e < events.len() && 0 <= k < shapes.len()
            ==> #[trigger] aff@[e]@[k] == affects(shapes[k], events[e]),
    ensures c == co_hits(shapes, events, a as int, b as int, events.len() as int),
{
    let mut c: usize = 0;
    let mut e: usize = 0;
    while e < aff.len()
        invariant
            e <= aff@.len(), aff@.len() == events.len(), a < shapes.len(), b < shapes.len(),
            forall|x: int| 0 <= x < events.len() ==> (#[trigger] aff@[x])@.len() == shapes.len(),
            forall|x: int, k: int| 0 <= x < events.len() && 0 <= k < shapes.len()
                ==> #[trigger] aff@[x]@[k] == affects(shapes[k], events[x]),
            c == co_hits(shapes, events, a as int, b as int, e as int),
        decreases aff.len() - e,
    {
        proof { lemma_co_hits_bound(shapes, events, a as int, b as int, e as int); }
        if aff[e][a] && aff[e][b] {
            c += 1;
        }
        e += 1;
    }
    c
}

proof fn lemma_edge_row_len(shapes: Seq<QueryShape>, events: Seq<EvidencePacket>, a: int, b: int)
    ensures edge_row(shapes, events, a, b).len() <= if b > a + 1 { b - a - 1 } else { 0 },
    decreases b - a,
{
    if b > a + 1 {
        lemma_edge_row_len(shapes, events, a, b - 1);
    }
}

proof fn lemma_edge_list_len(shapes: Seq<QueryShape>, events: Seq<EvidencePacket>, a: int)
    requires 0 <= a <= shapes.len(),
    ensures 2 * edge_list(shapes, events, a).len() <= a * (2 * shapes.len() - a - 1),
    decreases a,
{
    if a > 0 {
        let n = shapes.len() as int;
        lemma_edge_list_len(shapes, events, a - 1);
        lemma_edge_row_len(shapes, events, a - 1, n);
        let prev = edge_list(shapes, events, a - 1).len() as int;
        let row = edge_row(shapes, events, a - 1, n).len() as int;
        assert(2 * prev + 2 * row <= a * (2 * n - a - 1)) by (nonlinear_arith)
            requires 2 * prev <= (a - 1) * (2 * n - (a - 1) - 1), row <= n - a, 1 <= a <= n;
    }
}

fn build_edges(aff: &Vec<Vec<bool>>, n: usize, Ghost(shapes): Ghost<Seq<QueryShape>>, Ghost(events): Ghost<Seq<EvidencePacket>>) -> (r: Vec<CouplingEdge>)
    requires
        n == shapes.len(),
        aff@.len() == events.len(),
        forall|e: int| 0 <= e < events.len() ==> (#[trigger] aff@[e])@.len() == shapes.len(),
        forall|e: int, k: int| 0 <= e < events.len() && 0 <= k < shapes.len()
            ==> #[trigger] aff@[e]@[k] == affects(shapes[k], events[e]),
    ensures r@.map_values(|e: CouplingEdge| edge_view(e)) == coupling_edges(shapes, events),
{
    let mut out: Vec<CouplingEdge> = Vec::new();
    let mut a: usize = 0;
    while a < n
        invariant
            a <= n, n == shapes.len(),
            aff@.len() == events.len(),
            forall|e: int| 0 <= e < events.len() ==> (#[trigger] aff@[e])@.len() == shapes.len(),
            forall|e: int, k: int| 0 <= e < events.len() && 0 <= k < shapes.len()
                ==> #[trigger] aff@[e]@[k] == affects(shapes[k], events[e]),
            out@.map_values(|e: CouplingEdge| edge_view(e)) == edge_list(shapes, events, a as int),
        decreases n - a,
    {
        let mut b: usize = a + 1;
        assert(edge_list(shapes, events, a as int) + edge_row(shapes, events, a as int, b as int)
            =~= edge_list(shapes, events, a as int));
        while b < n
            invariant
                a < b <= n, n == shapes.len(),
                aff@.len() == events.len(),
                forall|e: int| 0 <= e < events.len() ==> (#[trigger] aff@[e])@.len() == shapes.len(),
                forall|e: int, k: int| 0 <= e < events.len() && 0 <= k < shapes.len()
                    ==> #[trigger] aff@[e]@[k] == affects(shapes[k], events[e]),
                out@.map_values(|e: CouplingEdge| edge_view(e))
                    == edge_list(shapes, events, a as int) + edge_row(shapes, events, a as int, b as int),
            decreases n - b,
        {
            let c = count_co_hits(aff, a, b, Ghost(shapes), Ghost(events));
            let ghost before = out@;
            if c > 0 {
                out.push(CouplingEdge { left: a, right: b, event_count: c });
                assert(out@.map_values(|e: CouplingEdge| edge_view(e))
                    =~= before.map_values(|e: CouplingEdge| edge_view(e)).push((a as int, b as int, c as int)));
            }
            proof {
                assert(edge_list(shapes, events, a as int) + edge_row(shapes, events, a as int, b + 1)
                    =~= edge_list(shapes, events, a as int) + edge_row(shapes, events, a as int, b as int)
                        + if c > 0 { seq![(a as int, b as int, c as int)] } else { Seq::empty() });
            }
            b += 1;
        }
        a += 1;
    }
    out
}

proof fn lemma_hot_pos(s: Seq<int>, counts: Seq<int>, c: int, j: int)
    requires
        0 <= j <= s.len(),
        forall|k: int| 0 <= k < j ==> counts[#[trigger] s[k]] >= c,
        j < s.len() ==> counts[s[j]] < c,
    ensures hot_pos(s, counts, c) == j,
    decreases j,
{
    if j > 0 {
        assert(counts[s[0]] >= c);
        assert forall|k: int| 0 <= k < j - 1 implies counts[#[trigger] s.drop_first()[k]] >= c by {
            assert(s.drop_first()[k] == s[k + 1]);
        }
        lemma_hot_pos(s.drop_first(), counts, c, j - 1);
    }
}

proof fn lemma_hot_order_range(counts: Seq<int>, k: int)
    requires 0 <= k <= counts.len(),
    ensures
        hot_order(counts, k).len() <= k,
        forall|q: int| 0 <= q < hot_order(counts, k).len() ==> 0 <= #[trigger] hot_order(counts, k)[q] < k,
    decreases k,
{
    if k > 0 {
        lemma_hot_order_range(counts, k - 1);
        let s = hot_order(counts, k - 1);
        if counts[k - 1] > 0 {
            let p = hot_pos(s, counts, counts[k - 1]);
            lemma_hot_pos_range(s, counts, counts[k - 1]);
            s.insert_ensures(p, k - 1);
            assert forall|q: int| 0 <= q < hot_order(counts, k).len() implies 0 <= #[trigger] hot_order(counts, k)[q] < k by {
                if q < p {
                } else if q == p {
                } else {
                    assert(hot_order(counts, k)[q] == s[q - 1]);
                }
            }
        }
    }
}

proof fn lemma_hot_pos_range(s: Seq<int>, counts: Seq<int>, c: int)
    ensures 0 <= hot_pos(s, counts, c) <= s.len(),
    decreases s.len(),
{
    if s.len() > 0 {
        lemma_hot_pos_range(s.drop_first(), counts, c);
    }
}

fn hot_order_exec(counts: &Vec<usize>) -> (r: Vec<usize>)
    ensures
        r@.map_values(|i: usize| i as int) == hot_order(counts@.map_values(|c: usize| c as int), counts@.len() as int),
        forall|q: int| 0 <= q < r@.len() ==> (#[trigger] r@[q]) < counts@.len(),
{
    let ghost cs = counts@.map_values(|c: usize| c as int);
    let mut order: Vec<usize> = Vec::new();
    let mut i: usize = 0;
    while i < counts.len()
        invariant
            i <= counts@.len(), cs == counts@.map_values(|c: usize| c as int),
            order@.map_values(|x: usize| x as int) == hot_order(cs, i as int),
            forall|q: int| 0 <= q < order@.len() ==> (#[trigger] order@[q]) < i,
        decreases counts.len() - i,
    {
        if counts[i] > 0 {
            let c = counts[i];
            let mut j: usize = 0;
            while j < order.len() && counts[order[j]] >= c
                invariant
                    j <= order@.len(), i < counts@.len(),
                    forall|q: int| 0 <= q < order@.len() ==> (#[trigger] order@[q]) < i,
                    forall|k: int| 0 <= k < j ==> counts@[#[trigger] order@[k] as int] >= c,
                decreases order.len() - j,
            {
                j += 1;
            }
            let ghost s = order@.map_values(|x: usize| x as int);
            proof {
                assert forall|k: int| 0 <= k < j implies cs[#[trigger] s[k]] >= c as int by {
                    assert(counts@[order@[k] as int] >= c);
                }
                lemma_hot_pos(s, cs, c as int, j as int);
            }
            let ghost before = order@;
            order.insert(j, i);
            proof {
                before.insert_ensures(j as int, i);
                s.insert_ensures(j as int, i as int);
                assert(order@.map_values(|x: usize| x as int) =~= s.insert(j as int, i as int));
                assert forall|q: int| 0 <= q < order@.len() implies (#[trigger] order@[q]) < i + 1 by {
                    if q < j {
                        assert(order@[q] == before[q]);
                    } else if q > j {
                        assert(order@[q] == before[q - 1]);
                    }
                }
            }
        }
        i += 1;
    }
    order
}

/// The component classes of the coupling graph, by shape index.
pub open spec fn coupling_classes(shapes: Seq<QueryShape>, events: Seq<EvidencePacket>) -> Seq<Seq<usize>> {
    let edges = coupling_edges(shapes, events);
    classes(uf_fold(edges, shapes.len(), edges.len() as int).0, shapes.len() as int)
}

/// Names of a list of strings' views.
pub open spec fn names_of(shapes: Seq<QueryShape>) -> Seq<Seq<char>> {
    shapes.map_values(|s: QueryShape| s.name@)
}

/// The report `analyze_coupling` gives for shapes and events.
pub open spec fn coupling_report(r: InvalidationGraphReport, shapes: Seq<QueryShape>, events: Seq<EvidencePacket>) -> bool {
    let n = shapes.len() as int;
    let edges = coupling_edges(shapes, events);
    let cls = coupling_classes(shapes, events);
    let counts = hit_counts(shapes, events);
    let order = hot_order(counts, n);
    let total = total_hits(shapes, events, n);
    &&& r.graph.nodes@.map_values(|s: String| s@) == names_of(shapes)
    &&& r.graph.edges@.map_values(|e: CouplingEdge| edge_view(e)) == edges
    &&& r.components@.len() == cls.len()
    &&& forall|c: int| 0 <= c < cls.len()
        ==> (#[trigger] r.components@[c])@.map_values(|s: String| s@) == class_names(shapes, cls[c])
    &&& r.cycles == edges.len() + cls.len() - n
    &&& r.coupled_pairs == edges.len()
    &&& r.max_pairs == if n > 1 { n * (n - 1) / 2 } else { 1 }
    &&& r.invalidation_counts@.map_values(|c: usize| c as int) == counts
    &&& r.hotspots@.len() == order.len()
    &&& forall|k: int| 0 <= k < order.len() ==> {
        &&& (#[trigger] r.hotspots@[k]).shape_id@ == shapes[order[k]].name@
        &&& r.hotspots@[k].invalidation_count == counts[order[k]]
        &&& r.hotspots@[k].repair_count == 0
        &&& r.hotspots@[k].total_invalidations == total
    }
}

proof fn lemma_classes_len(roots: Seq<int>, n: int, k: int)
    requires 0 <= k,
    ensures crate::unionfind::classes_upto(roots, n, k).len() <= k,
    decreases k,
{
    if k > 0 {
        lemma_classes_len(roots, n, k - 1);
    }
}

/// Build the coupling graph and its report from shapes and events.
pub fn analyze_coupling(shapes: &[QueryShape], events: &[EvidencePacket]) -> (r: InvalidationGraphReport)
    requires
        shapes@.len() > 1 ==> shapes@.len() * (shapes@.len() - 1) <= usize::MAX,
        total_hits(shapes@, events@, shapes@.len() as int) <= usize::MAX,
    ensures coupling_report(r, shapes@, events@),
{
    let n = shapes.len();
    let ghost sh = shapes@;
    let ghost ev = events@;

    // Node names
    let mut nodes: Vec<String> = Vec::new();
    let mut i: usize = 0;
    while i < n
        invariant i <= n, n == sh.len(), sh == shapes@,
            nodes@.map_values(|s: String| s@) == names_of(sh).subrange(0, i as int),
        decreases n - i,
    {
        let ghost before = nodes@;
        let nm = String::from_str(shapes[i].name.as_str());
        let ghost nv = nm@;
        nodes.push(nm);
        assert(nodes@.map_values(|s: String| s@) =~= before.map_values(|s: String| s@).push(nv));
        assert(nodes@.map_values(|s: String| s@) =~= names_of(sh).subrange(0, i + 1));
        i += 1;
    }
    assert(names_of(sh).subrange(0, n as int) =~= names_of(sh));

    // Who invalidates whom
    let aff = affected_matrix(shapes, events);
    let mut counts: Vec<usize> = Vec::new();
    let mut total: usize = 0;
    i = 0;
    while i < n
        invariant
            i <= n, n == sh.len(), sh == shapes@, ev == events@,
            aff@.len() == ev.len(),
            forall|e: int| 0 <= e < ev.len() ==> (#[trigger] aff@[e])@.len() == sh.len(),
            forall|e: int, k: int| 0 <= e < ev.len() && 0 <= k < sh.len()
                ==> #[trigger] aff@[e]@[k] == affects(sh[k], ev[e]),
            total_hits(sh, ev, n as int) <= usize::MAX,
            counts@.map_values(|c: usize| c as int) == hit_counts(sh, ev).subrange(0, i as int),
            total == total_hits(sh, ev, i as int),
        decreases n - i,
    {
        let c = count_hits(&aff, i, Ghost(sh), Ghost(ev));
        proof {
            lemma_total_mono(sh, ev, i as int + 1, n as int);
        }
        let ghost before = counts@;
        counts.push(c);
        assert(counts@.map_values(|c: usize| c as int) =~= before.map_values(|c: usize| c as int).push(c as int));
        total = total + c;
        assert(counts@.map_values(|c: usize| c as int) =~= hit_counts(sh, ev).subrange(0, i + 1));
        i += 1;
    }
    assert(hit_counts(sh, ev).subrange(0, n as int) =~= hit_counts(sh, ev));

    // Edges, then components along them
    let edges = build_edges(&aff, n, Ghost(sh), Ghost(ev));
    let ghost ev_edges = coupling_edges(sh, ev);
    proof { lemma_edge_list_range(sh, ev, n as int); }
    let mut uf = UnionFind::new(n);
    let mut k: usize = 0;
    while k < edges.len()
        invariant
            k <= edges@.len(), n == sh.len(),
            edges@.map_values(|e: CouplingEdge| edge_view(e)) == ev_edges,
            ev_edges == coupling_edges(sh, ev),
            forall|q: int| 0 <= q < ev_edges.len() ==> 0 <= (#[trigger] ev_edges[q]).0 < ev_edges[q].1 < n,
            uf.inv(), uf.size() == n,
            uf.model() == uf_fold(ev_edges, n as nat, k as int),
        decreases edges.len() - k,
    {
        assert(edge_view(edges@[k as int]) == ev_edges[k as int]);
        uf.union(edges[k].left, edges[k].right);
        k += 1;
    }
    let comps = uf.components(n);
    let ghost cls = coupling_classes(sh, ev);
    proof {
        lemma_uf_fold_len(ev_edges, n as nat, ev_edges.len() as int);
        lemma_classes_range(uf_fold(ev_edges, n as nat, ev_edges.len() as int).0, n as int, n as int);
    }
    let mut components: Vec<Vec<String>> = Vec::new();
    let mut c: usize = 0;
    while c < comps.len()
        invariant
            c <= comps@.len(), n == sh.len(), sh == shapes@,
            comps@.map_values(|v: Vec<usize>| v@) == cls,
            forall|q: int, j: int| 0 <= q < cls.len() && 0 <= j < cls[q].len() ==> (#[trigger] cls[q][j]) < n,
            components@.len() == c,
            forall|q: int| 0 <= q < c
                ==> (#[trigger] components@[q])@.map_values(|s: String| s@) == class_names(sh, cls[q]),
        decreases comps.len() - c,
    {
        let ghost cq = cls[c as int];
        assert(comps@[c as int]@ == cq);
        let mut names: Vec<String> = Vec::new();
        let mut j: usize = 0;
        while j < comps[c].len()
            invariant
                j <= cq.len(), c < comps@.len(), comps@[c as int]@ == cq, n == sh.len(), sh == shapes@,
                forall|q: int| 0 <= q < cq.len() ==> (#[trigger] cq[q]) < n,
                names@.map_values(|s: String| s@) == class_names(sh, cq).subrange(0, j as int),
            decreases cq.len() - j,
        {
            let idx = comps[c][j];
            let ghost before = names@;
            let nm = String::from_str(shapes[idx].name.as_str());
            let ghost nv = nm@;
            names.push(nm);
            assert(names@.map_values(|s: String| s@) =~= before.map_values(|s: String| s@).push(nv));
            assert(names@.map_values(|s: String| s@) =~= class_names(sh, cq).subrange(0, j + 1));
            j += 1;
        }
        assert(class_names(sh, cq).subrange(0, cq.len() as int) =~= class_names(sh, cq));
        components.push(names);
        c += 1;
    }

    // Cycle count: E - V + C
    let e_count = edges.len();
    let num_components = components.len();
    proof {
        lemma_edge_list_len(sh, ev, n as int);
        lemma_classes_len(uf_fold(ev_edges, n as nat, ev_edges.len() as int).0, n as int, n as int);
        lemma_uf_fold_len(ev_edges, n as nat, ev_edges.len() as int);
        assert(e_count == ev_edges.len());
        assert(num_components <= n);
        if n > 1 {
            assert(e_count + n <= n * (n - 1) || n <= 2) by (nonlinear_arith)
                requires 2 * e_count <= n * (2 * n - n - 1), n >= 2;
        }
    }
    proof {
        let roots = uf_fold(ev_edges, n as nat, ev_edges.len() as int).0;
        coupling_edges_are_shared_invalidations(sh, ev);
        lemma_uf_fold_joins(ev_edges, n as nat, ev_edges.len() as int);
        lemma_uf_fold_root_count(ev_edges, n as nat, ev_edges.len() as int);
        crate::unionfind::classes_count_roots(roots);
        assert(num_components == cls.len());
        assert(num_components + e_count >= n);
    }
    let cycles = e_count - (n - num_components);
    let max_pairs = if n > 1 { n * (n - 1) / 2 } else { 1 };

    // Hotspots, most invalidated first
    let order = hot_order_exec(&counts);
    let mut hotspots: Vec<CacheHotspot> = Vec::new();
    let mut h: usize = 0;
    while h < order.len()
        invariant
            h <= order@.len(), n == sh.len(), sh == shapes@, counts@.len() == n,
            forall|q: int| 0 <= q < order@.len() ==> (#[trigger] order@[q]) < n,
            hotspots@.len() == h,
            forall|q: int| 0 <= q < h ==> {
                &&& (#[trigger] hotspots@[q]).shape_id@ == sh[order@[q] as int].name@
                &&& hotspots@[q].invalidation_count == counts@[order@[q] as int]
                &&& hotspots@[q].repair_count == 0
                &&& hotspots@[q].total_invalidations == total
            },
        decreases order.len() - h,
    {
        let idx = order[h];
        hotspots.push(CacheHotspot {
            shape_id: String::from_str(shapes[idx].name.as_str()),
            invalidation_count: counts[idx],
            repair_count: 0,
            total_invalidations: total,
        });
        h += 1;
    }
    proof {
        let cs = counts@.map_values(|c: usize| c as int);
        assert(cs == hit_counts(sh, ev));
        assert forall|q: int| 0 <= q < order@.len() implies (#[trigger] order@[q]) as int == hot_order(hit_counts(sh, ev), n as int)[q] by {
            assert(order@.map_values(|i: usize| i as int)[q] == order@[q] as int);
        }
    }

    InvalidationGraphReport {
        components,
        cycles,
        coupled_pairs: e_count,
        max_pairs,
        invalidation_counts: counts,
        hotspots,
        graph: CouplingGraph { nodes, edges },
    }
}

proof fn lemma_edge_row_range(shapes: Seq<QueryShape>, events: Seq<EvidencePacket>, a: int, b: int)
    requires 0 <= a,
    ensures forall|q: int| 0 <= q < edge_row(shapes, events, a, b).len()
        ==> (#[trigger] edge_row(shapes, events, a, b)[q]).0 == a && a < edge_row(shapes, events, a, b)[q].1 < b,
    decreases b - a,
{
    if b > a + 1 {
        lemma_edge_row_range(shapes, events, a, b - 1);
        let prev = edge_row(shapes, events, a, b - 1);
        let c = co_hits(shapes, events, a, b - 1, events.len() as int);
        let t: Seq<(int, int, int)> = if c > 0 { seq![(a, b - 1, c as int)] } else { Seq::empty() };
        assert(edge_row(shapes, events, a, b) == prev + t);
        assert forall|q: int| 0 <= q < (prev + t).len()
            implies (#[trigger] (prev + t)[q]).0 == a && a < (prev + t)[q].1 < b by {
            if q < prev.len() {
                assert((prev + t)[q] == prev[q]);
            } else {
                assert((prev + t)[q] == t[q - prev.len()]);
            }
        }
    }
}

proof fn lemma_edge_list_range(shapes: Seq<QueryShape>, events: Seq<EvidencePacket>, a: int)
    requires 0 <= a <= shapes.len(),
    ensures forall|q: int| 0 <= q < edge_list(shapes, events, a).len()
        ==> 0 <= (#[trigger] edge_list(shapes, events, a)[q]).0 < edge_list(shapes, events, a)[q].1 < shapes.len(),
    decreases a,
{
    if a > 0 {
        lemma_edge_list_range(shapes, events, a - 1);
        lemma_edge_row_range(shapes, events, a - 1, shapes.len() as int);
        let l = edge_list(shapes, events, a - 1);
        let r = edge_row(shapes, events, a - 1, shapes.len() as int);
        assert forall|q: int| 0 <= q < (l + r).len()
            implies 0 <= (#[trigger] (l + r)[q]).0 < (l + r)[q].1 < shapes.len() by {
            if q >= l.len() {
                assert((l + r)[q] == r[q - l.len()]);
            }
        }
    }
}

proof fn lemma_members_range(roots: Seq<int>, r: int, k: int)
    ensures forall|q: int| 0 <= q < crate::unionfind::members(roots, r, k).len()
        ==> 0 <= (#[trigger] crate::unionfind::members(roots, r, k)[q]) < k,
    decreases k,
{
    if k > 0 {
        lemma_members_range(roots, r, k - 1);
        let prev = crate::unionfind::members(roots, r, k - 1);
        if roots[k - 1] == r {
            assert forall|q: int| 0 <= q < prev.push((k - 1) as usize).len()
                implies 0 <= (#[trigger] prev.push((k - 1) as usize)[q]) < k by {
                if q < prev.len() {
                    assert(prev.push((k - 1) as usize)[q] == prev[q]);
                }
            }
        }
    }
}

proof fn lemma_classes_range(roots: Seq<int>, n: int, k: int)
    ensures forall|q: int, j: int| 0 <= q < crate::unionfind::classes_upto(roots, n, k).len()
        && 0 <= j < crate::unionfind::classes_upto(roots, n, k)[q].len()
        ==> (#[trigger] crate::unionfind::classes_upto(roots, n, k)[q][j]) < n,
    decreases k,
{
    if k > 0 {
        lemma_classes_range(roots, n, k - 1);
        lemma_members_range(roots, k - 1, n);
        let prev = crate::unionfind::classes_upto(roots, n, k - 1);
        let m = crate::unionfind::members(roots, k - 1, n);
        if m.len() > 0 {
            assert forall|q: int, j: int| 0 <= q < prev.push(m).len() && 0 <= j < prev.push(m)[q].len()
                implies (#[trigger] prev.push(m)[q][j]) < n by {
                if q < prev.len() {
                    assert(prev.push(m)[q] == prev[q]);
                } else {
                    assert(prev.push(m)[q] == m);
                }
            }
        }
    }
}

proof fn lemma_uf_fold_len(edges: Seq<(int, int, int)>, n: nat, k: int)
    ensures uf_fold(edges, n, k).0.len() == n,
    decreases k,
{
    if k > 0 {
        lemma_uf_fold_len(edges, n, k - 1);
    }
}

proof fn lemma_total_mono(shapes: Seq<QueryShape>, events: Seq<EvidencePacket>, i: int, j: int)
    requires 0 <= i <= j,
    ensures total_hits(shapes, events, i) <= total_hits(shapes, events, j),
    decreases j - i,
{
    if i < j {
        lemma_total_mono(shapes, events, i, j - 1);
    }
}

proof fn lemma_hot_pos_split(s: Seq<int>, counts: Seq<int>, c: int)
    ensures
        forall|q: int| 0 <= q < hot_pos(s, counts, c) && q < s.len() ==> counts[#[trigger] s[q]] >= c,
        hot_pos(s, counts, c) < s.len() ==> counts[s[hot_pos(s, counts, c)]] < c,
    decreases s.len(),
{
    if s.len() > 0 && counts[s[0]] >= c {
        lemma_hot_pos_split(s.drop_first(), counts, c);
        assert forall|q: int| 0 <= q < hot_pos(s, counts, c) && q < s.len() implies counts[#[trigger] s[q]] >= c by {
            if q > 0 {
                assert(s[q] == s.drop_first()[q - 1]);
            }
        }
        lemma_hot_pos_range(s.drop_first(), counts, c);
        assert(hot_pos(s, counts, c) == 1 + hot_pos(s.drop_first(), counts, c));
        if hot_pos(s, counts, c) < s.len() {
            assert(s[hot_pos(s, counts, c)] == s.drop_first()[hot_pos(s.drop_first(), counts, c)]);
        }
    }
}

/// Hotspots rank by invalidation count: the order lists only shapes with a
/// positive count, most invalidated first.
pub proof fn hotspots_rank_by_count(counts: Seq<int>, k: int)
    requires
        0 <= k <= counts.len(),
    ensures
        forall|q: int| 0 <= q < hot_order(counts, k).len() ==> counts[#[trigger] hot_order(counts, k)[q]] > 0,
        forall|i: int, j: int| 0 <= i < j < hot_order(counts, k).len()
            ==> counts[#[trigger] hot_order(counts, k)[i]] >= counts[#[trigger] hot_order(counts, k)[j]],
    decreases k,
{
    if k > 0 {
        hotspots_rank_by_count(counts, k - 1);
        let s = hot_order(counts, k - 1);
        let c = counts[k - 1];
        if c > 0 {
            let p = hot_pos(s, counts, c);
            lemma_hot_pos_range(s, counts, c);
            lemma_hot_pos_split(s, counts, c);
            let t = s.insert(p, k - 1);
            s.insert_ensures(p, k - 1);
            assert(hot_order(counts, k) == t);
            assert forall|q: int| 0 <= q < t.len() implies counts[#[trigger] t[q]] > 0 by {
                if q < p {
                } else if q > p {
                    assert(t[q] == s[q - 1]);
                }
            }
            assert forall|i: int, j: int| 0 <= i < j < t.len() implies counts[#[trigger] t[i]] >= counts[#[trigger] t[j]] by {
                if j < p {
                } else if j == p {
                    assert(counts[s[i]] >= c);
                } else if i < p {
                    assert(t[j] == s[j - 1]);
                } else if i == p {
                    assert(t[j] == s[j - 1]);
                    assert(counts[s[p]] < c);
                    assert(counts[s[p]] >= counts[s[j - 1]] || p == j - 1);
                } else {
                    assert(t[i] == s[i - 1]);
                    assert(t[j] == s[j - 1]);
                }
            }
        }
    }
}

proof fn lemma_edge_row_counts(shapes: Seq<QueryShape>, events: Seq<EvidencePacket>, a: int, b: int)
    ensures
        forall|q: int| 0 <= q < edge_row(shapes, events, a, b).len() ==> {
            let e = #[trigger] edge_row(shapes, events, a, b)[q];
            e.2 == co_hits(shapes, events, e.0, e.1, events.len() as int) && e.2 > 0
        },
    decreases b - a,
{
    if b > a + 1 {
        lemma_edge_row_counts(shapes, events, a, b - 1);
        let prev = edge_row(shapes, events, a, b - 1);
        let c = co_hits(shapes, events, a, b - 1, events.len() as int);
        let t: Seq<(int, int, int)> = if c > 0 { seq![(a, b - 1, c as int)] } else { Seq::empty() };
        assert(edge_row(shapes, events, a, b) == prev + t);
        assert forall|q: int| 0 <= q < (prev + t).len() implies {
            let e = #[trigger] (prev + t)[q];
            e.2 == co_hits(shapes, events, e.0, e.1, events.len() as int) && e.2 > 0
        } by {
            if q < prev.len() {
                assert((prev + t)[q] == prev[q]);
            } else {
                assert((prev + t)[q] == t[q - prev.len()]);
            }
        }
    }
}

proof fn lemma_edge_list_counts(shapes: Seq<QueryShape>, events: Seq<EvidencePacket>, a: int)
    ensures
        forall|q: int| 0 <= q < edge_list(shapes, events, a).len() ==> {
            let e = #[trigger] edge_list(shapes, events, a)[q];
            e.2 == co_hits(shapes, events, e.0, e.1, events.len() as int) && e.2 > 0
        },
    decreases a,
{
    if a > 0 {
        lemma_edge_list_counts(shapes, events, a - 1);
        lemma_edge_row_counts(shapes, events, a - 1, shapes.len() as int);
        let l = edge_list(shapes, events, a - 1);
        let r = edge_row(shapes, events, a - 1, shapes.len() as int);
        assert forall|q: int| 0 <= q < (l + r).len() implies {
            let e = #[trigger] (l + r)[q];
            e.2 == co_hits(shapes, events, e.0, e.1, events.len() as int) && e.2 > 0
        } by {
            if q < l.len() {
                assert((l + r)[q] == l[q]);
            } else {
                assert((l + r)[q] == r[q - l.len()]);
            }
        }
    }
}

/// Coupling edges join two distinct shapes that some event invalidates
/// together, weighted by the number of such events: shapes that never share
/// an invalidating event are not coupled.
pub proof fn coupling_edges_are_shared_invalidations(shapes: Seq<QueryShape>, events: Seq<EvidencePacket>)
    ensures
        forall|q: int| 0 <= q < coupling_edges(shapes, events).len() ==> {
            let e = #[trigger] coupling_edges(shapes, events)[q];
            &&& 0 <= e.0 < e.1 < shapes.len()
            &&& e.2 == co_hits(shapes, events, e.0, e.1, events.len() as int)
            &&& e.2 > 0
        },
{
    lemma_edge_list_range(shapes, events, shapes.len() as int);
    lemma_edge_list_counts(shapes, events, shapes.len() as int);
}

proof fn lemma_uf_fold_joins(edges: Seq<(int, int, int)>, n: nat, k: int)
    requires
        0 <= k <= edges.len(),
        forall|q: int| 0 <= q < edges.len() ==> 0 <= (#[trigger] edges[q]).0 < n && 0 <= edges[q].1 < n,
    ensures
        uf_fold(edges, n, k).0.len() == n,
        uf_fold(edges, n, k).1.len() == n,
        crate::unionfind::well_labelled(uf_fold(edges, n, k).0),
        forall|q: int| 0 <= q < k ==> uf_fold(edges, n, k).0[(#[trigger] edges[q]).0] == uf_fold(edges, n, k).0[edges[q].1],
    decreases k,
{
    if k > 0 {
        lemma_uf_fold_joins(edges, n, k - 1);
        let m = uf_fold(edges, n, k - 1);
        let e = edges[k - 1];
        crate::unionfind::union_merges_exactly(m.0, m.1, e.0, e.1);
        let after = uf_fold(edges, n, k).0;
        assert forall|q: int| 0 <= q < k implies after[(#[trigger] edges[q]).0] == after[edges[q].1] by {
            if q < k - 1 {
                assert(m.0[edges[q].0] == m.0[edges[q].1]);
            }
        }
    }
}

/// Shapes joined by a coupling edge fall in one component: some component
/// lists both ends of every edge.
pub proof fn coupled_shapes_share_a_component(shapes: Seq<QueryShape>, events: Seq<EvidencePacket>)
    requires
        shapes.len() <= usize::MAX,
    ensures
        forall|q: int| 0 <= q < coupling_edges(shapes, events).len() ==> exists|c: int|
            0 <= c < coupling_classes(shapes, events).len()
            && (#[trigger] coupling_classes(shapes, events)[c]).contains(coupling_edges(shapes, events)[q].0 as usize)
            && coupling_classes(shapes, events)[c].contains((#[trigger] coupling_edges(shapes, events)[q]).1 as usize),
{
    let n = shapes.len() as int;
    let edges = coupling_edges(shapes, events);
    let roots = uf_fold(edges, shapes.len(), edges.len() as int).0;
    let cls = coupling_classes(shapes, events);
    coupling_edges_are_shared_invalidations(shapes, events);
    lemma_uf_fold_joins(edges, shapes.len(), edges.len() as int);
    crate::unionfind::classes_partition_by_root(roots, n);
    assert forall|q: int| 0 <= q < edges.len() implies exists|c: int| 0 <= c < cls.len()
        && (#[trigger] cls[c]).contains(edges[q].0 as usize) && cls[c].contains((#[trigger] edges[q]).1 as usize) by {
        let e = edges[q];
        assert(crate::unionfind::in_some_class(cls, e.0));
        let c = choose|c: int| 0 <= c < cls.len() && (#[trigger] cls[c]).contains(e.0 as usize);
        let i = choose|i: int| 0 <= i < cls[c].len() && cls[c][i] == e.0 as usize;
        assert(roots[cls[c][i] as int] == roots[cls[c][0] as int]);
        assert(roots[e.1] == roots[cls[c][0] as int]);
        assert(cls[c].contains(e.1 as usize));
    }
}

proof fn lemma_uf_fold_root_count(edges: Seq<(int, int, int)>, n: nat, k: int)
    requires
        0 <= k <= edges.len(),
        forall|q: int| 0 <= q < edges.len() ==> 0 <= (#[trigger] edges[q]).0 < n && 0 <= edges[q].1 < n,
    ensures
        crate::unionfind::root_count(uf_fold(edges, n, k).0, n as int) + k >= n,
    decreases k,
{
    if k == 0 {
        crate::unionfind::fresh_has_all_roots(n);
    } else {
        lemma_uf_fold_root_count(edges, n, k - 1);
        lemma_uf_fold_joins(edges, n, k - 1);
        let m = uf_fold(edges, n, k - 1);
        crate::unionfind::union_removes_at_most_one_root(m.0, m.1, edges[k - 1].0, edges[k - 1].1);
    }
}

/// Whether shapes `x` and `y` are joined by a path along the first `k`
/// edges: the equivalence the edges generate, grown one edge at a time.
pub open spec fn linked(edges: Seq<(int, int, int)>, k: int, x: int, y: int) -> bool
    decreases k,
{
    if k <= 0 {
        x == y
    } else {
        let a = edges[k - 1].0;
        let b = edges[k - 1].1;
        ||| linked(edges, k - 1, x, y)
        ||| (linked(edges, k - 1, x, a) && linked(edges, k - 1, b, y))
        ||| (linked(edges, k - 1, x, b) && linked(edges, k - 1, a, y))
    }
}

proof fn lemma_fold_roots_are_linked(edges: Seq<(int, int, int)>, n: nat, k: int)
    requires
        0 <= k <= edges.len(),
        forall|q: int| 0 <= q < edges.len() ==> 0 <= (#[trigger] edges[q]).0 < n && 0 <= edges[q].1 < n,
    ensures
        forall|x: int, y: int| 0 <= x < n && 0 <= y < n
            ==> (uf_fold(edges, n, k).0[x] == uf_fold(edges, n, k).0[y] <==> #[trigger] linked(edges, k, x, y)),
    decreases k,
{
    if k > 0 {
        lemma_fold_roots_are_linked(edges, n, k - 1);
        lemma_uf_fold_joins(edges, n, k - 1);
        let m = uf_fold(edges, n, k - 1);
        let a = edges[k - 1].0;
        let b = edges[k - 1].1;
        crate::unionfind::union_merges_exactly(m.0, m.1, a, b);
        let after = uf_fold(edges, n, k).0;
        assert forall|x: int, y: int| 0 <= x < n && 0 <= y < n
            implies (after[x] == after[y] <==> #[trigger] linked(edges, k, x, y)) by {
            assert(m.0[x] == m.0[a] <==> linked(edges, k - 1, x, a));
            assert(m.0[b] == m.0[y] <==> linked(edges, k - 1, b, y));
            assert(m.0[x] == m.0[b] <==> linked(edges, k - 1, x, b));
            assert(m.0[a] == m.0[y] <==> linked(edges, k - 1, a, y));
            assert(m.0[x] == m.0[y] <==> linked(edges, k - 1, x, y));
        }
    }
}

/// The components are the connected components of the coupling graph: two
/// shapes share a component exactly when a path of coupling edges joins
/// them.
pub proof fn components_are_connected_components(shapes: Seq<QueryShape>, events: Seq<EvidencePacket>)
    requires
        shapes.len() <= usize::MAX,
    ensures
        ({
            let edges = coupling_edges(shapes, events);
            let roots = uf_fold(edges, shapes.len(), edges.len() as int).0;
            &&& crate::unionfind::well_labelled(roots)
            &&& roots.len() == shapes.len()
            &&& coupling_classes(shapes, events) == crate::unionfind::classes(roots, shapes.len() as int)
            &&& forall|x: int, y: int| 0 <= x < shapes.len() && 0 <= y < shapes.len()
                ==> (roots[x] == roots[y] <==> #[trigger] linked(edges, edges.len() as int, x, y))
        }),
{
    let edges = coupling_edges(shapes, events);
    coupling_edges_are_shared_invalidations(shapes, events);
    lemma_uf_fold_joins(edges, shapes.len(), edges.len() as int);
    lemma_fold_roots_are_linked(edges, shapes.len(), edges.len() as int);
}

} // verus!
