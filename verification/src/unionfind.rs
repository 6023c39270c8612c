//! Union-find with union by rank and path halving.
//!
//! Its model is the root of every element and the rank of every element:
//! `find` answers from the model and leaves it as it was, `union` merges
//! two classes exactly as the model's `uf_union` says.
use vstd::prelude::*;
use vstd::set_lib::{lemma_len_subset, lemma_int_range, set_int_range};

verus! {

/// Parent links that climb in rank: every link leads to a strictly higher
/// rank, so following links ends at a root.
pub open spec fn ranked(parent: Seq<usize>, rank: Seq<usize>) -> bool {
    &&& parent.len() == rank.len()
    &&& forall|i: int| 0 <= i < parent.len() ==> (#[trigger] parent[i]) < parent.len()
    &&& forall|i: int| 0 <= i < parent.len() && parent[i] != i ==> rank[parent[i] as int] > (#[trigger] rank[i])
}

/// The root reached from `x` by following parent links.
pub open spec fn root_of(parent: Seq<usize>, rank: Seq<usize>, x: int) -> int
    decreases usize::MAX - rank[x],
    when 0 <= x < parent.len() && ranked(parent, rank)
{
    if parent[x] == x {
        x
    } else {
        root_of(parent, rank, parent[x] as int)
    }
}

/// Every class labelled `from` relabelled `to`.
pub open spec fn relabel(roots: Seq<int>, from: int, to: int) -> Seq<int> {
    Seq::new(roots.len(), |y: int| if roots[y] == from { to } else { roots[y] })
}

/// The model of `union(a, b)`: the class of the lower-ranked root joins the
/// other; on equal ranks the class of `b` joins that of `a`, whose rank grows.
pub open spec fn uf_union(roots: Seq<int>, ranks: Seq<int>, a: int, b: int) -> (Seq<int>, Seq<int>) {
    let ra = roots[a];
    let rb = roots[b];
    if ra == rb {
        (roots, ranks)
    } else if ranks[ra] < ranks[rb] {
        (relabel(roots, ra, rb), ranks)
    } else if ranks[ra] > ranks[rb] {
        (relabel(roots, rb, ra), ranks)
    } else {
        (relabel(roots, rb, ra), ranks.update(ra, ranks[ra] + 1))
    }
}

/// The model of a fresh structure over `n` elements: each its own root, rank 0.
pub open spec fn uf_fresh(n: nat) -> (Seq<int>, Seq<int>) {
    (Seq::new(n, |i: int| i), Seq::new(n, |i: int| 0int))
}

/// The elements below `k` whose root is `r`, in increasing order.
pub open spec fn members(roots: Seq<int>, r: int, k: int) -> Seq<usize>
    decreases k,
{
    if k <= 0 {
        Seq::empty()
    } else if roots[k - 1] == r {
        members(roots, r, k - 1).push((k - 1) as usize)
    } else {
        members(roots, r, k - 1)
    }
}

/// The classes of the elements below `n`, by increasing root, each in
/// increasing order; roots below `k` only.
pub open spec fn classes_upto(roots: Seq<int>, n: int, k: int) -> Seq<Seq<usize>>
    decreases k,
{
    if k <= 0 {
        Seq::empty()
    } else if members(roots, k - 1, n).len() > 0 {
        classes_upto(roots, n, k - 1).push(members(roots, k - 1, n))
    } else {
        classes_upto(roots, n, k - 1)
    }
}

/// The classes of the elements below `n`, ordered by root.
pub open spec fn classes(roots: Seq<int>, n: int) -> Seq<Seq<usize>> {
    classes_upto(roots, n, roots.len() as int)
}

/// The set of roots.
pub open spec fn root_set(parent: Seq<usize>) -> Set<int> {
    Set::new(|i: int| 0 <= i < parent.len() && parent[i] == i)
}

proof fn lemma_root_props(parent: Seq<usize>, rank: Seq<usize>, y: int)
    requires ranked(parent, rank), 0 <= y < parent.len(),
    ensures
        0 <= root_of(parent, rank, y) < parent.len(),
        parent[root_of(parent, rank, y)] == root_of(parent, rank, y),
        root_of(parent, rank, root_of(parent, rank, y)) == root_of(parent, rank, y),
    decreases usize::MAX - rank[y],
{
    if parent[y] != y {
        lemma_root_props(parent, rank, parent[y] as int);
    }
}

proof fn lemma_halve(parent: Seq<usize>, rank: Seq<usize>, x: int, y: int)
    requires
        ranked(parent, rank), 0 <= x < parent.len(), parent[x] != x, 0 <= y < parent.len(),
        ranked(parent.update(x, parent[parent[x] as int]), rank),
    ensures
        root_of(parent.update(x, parent[parent[x] as int]), rank, y) == root_of(parent, rank, y),
    decreases usize::MAX - rank[y],
{
    let p = parent[x] as int;
    let gp = parent[p] as int;
    let np = parent.update(x, gp as usize);
    if y == x {
        lemma_halve(parent, rank, x, gp);
        assert(root_of(np, rank, x) == root_of(np, rank, gp));
        if parent[p] != p {
            assert(root_of(parent, rank, p) == root_of(parent, rank, gp));
        }
    } else if parent[y] != y {
        lemma_halve(parent, rank, x, parent[y] as int);
    }
}

proof fn lemma_link(parent: Seq<usize>, rank: Seq<usize>, rank2: Seq<usize>, loser: int, winner: int, y: int)
    requires
        ranked(parent, rank),
        0 <= loser < parent.len(), 0 <= winner < parent.len(), loser != winner,
        parent[loser] == loser, parent[winner] == winner,
        ranked(parent.update(loser, winner as usize), rank2),
        0 <= y < parent.len(),
    ensures
        root_of(parent.update(loser, winner as usize), rank2, y)
            == if root_of(parent, rank, y) == loser { winner } else { root_of(parent, rank, y) },
    decreases usize::MAX - rank[y],
{
    let np = parent.update(loser, winner as usize);
    if y == loser {
        assert(root_of(np, rank2, winner) == winner);
    } else if parent[y] != y {
        lemma_link(parent, rank, rank2, loser, winner, parent[y] as int);
    }
}

/// Disjoint classes over `0..n`.
pub struct UnionFind {
    parent: Vec<usize>,
    rank: Vec<usize>,
    unions: Ghost<nat>,
}

impl UnionFind {
    /// The structure's invariant: links climb in rank, ranks are bounded by
    /// the number of merges, and roots plus merges number the elements.
    pub closed spec fn inv(&self) -> bool {
        &&& ranked(self.parent@, self.rank@)
        &&& forall|i: int| 0 <= i < self.rank@.len() ==> (#[trigger] self.rank@[i]) <= self.unions@
        &&& root_set(self.parent@).finite()
        &&& root_set(self.parent@).len() + self.unions@ == self.parent@.len()
    }

    /// The number of elements.
    pub closed spec fn size(&self) -> nat {
        self.parent@.len()
    }

    /// The root of each element.
    pub closed spec fn roots(&self) -> Seq<int> {
        Seq::new(self.parent@.len(), |y: int| root_of(self.parent@, self.rank@, y))
    }

    /// The rank of each element.
    pub closed spec fn ranks(&self) -> Seq<int> {
        Seq::new(self.rank@.len(), |y: int| self.rank@[y] as int)
    }

    /// The model: roots and ranks.
    pub open spec fn model(&self) -> (Seq<int>, Seq<int>) {
        (self.roots(), self.ranks())
    }

    /// `n` singleton classes.
    pub fn new(n: usize) -> (r: Self)
        ensures r.inv(), r.size() == n, r.model() == uf_fresh(n as nat),
    {
        let mut parent: Vec<usize> = Vec::new();
        let mut rank: Vec<usize> = Vec::new();
        let mut i: usize = 0;
        while i < n
            invariant
                i <= n, parent@.len() == i, rank@.len() == i,
                forall|k: int| 0 <= k < i ==> parent@[k] == k && rank@[k] == 0,
            decreases n - i,
        {
            parent.push(i);
            rank.push(0);
            i += 1;
        }
        proof {
            assert(root_set(parent@) =~= set_int_range(0, n as int));
            lemma_int_range(0, n as int);
            assert(ranked(parent@, rank@));
        }
        let r = UnionFind { parent, rank, unions: Ghost(0) };
        proof {
            assert(r.roots() =~= uf_fresh(n as nat).0);
            assert(r.ranks() =~= uf_fresh(n as nat).1);
        }
        r
    }

    proof fn lemma_roots(&self)
        requires self.inv(),
        ensures
            forall|y: int| 0 <= y < self.size() ==> {
                &&& 0 <= #[trigger] self.roots()[y] < self.size()
                &&& self.parent@[self.roots()[y]] == self.roots()[y]
                &&& self.roots()[self.roots()[y]] == self.roots()[y]
            },
    {
        assert forall|y: int| 0 <= y < self.size() implies {
            &&& 0 <= #[trigger] self.roots()[y] < self.size()
            &&& self.parent@[self.roots()[y]] == self.roots()[y]
            &&& self.roots()[self.roots()[y]] == self.roots()[y]
        } by {
            lemma_root_props(self.parent@, self.rank@, y);
        }
    }

    /// The root of `x`'s class. Halves the path on the way; the model is
    /// unchanged.
    #[verifier::rlimit(40)]
    pub fn find(&mut self, x: usize) -> (r: usize)
        requires old(self).inv(), x < old(self).size(),
        ensures
            final(self).inv(),
            r == old(self).roots()[x as int],
            final(self).model() == old(self).model(),
            final(self).size() == old(self).size(),
    {
        let ghost p0 = self.parent@;
        let ghost r0 = self.rank@;
        let ghost x0 = x as int;
        let mut x = x;
        proof { lemma_root_props(p0, r0, x as int); }
        while self.parent[x] != x
            invariant
                self.inv(),
                self.rank@ == r0,
                self.parent@.len() == p0.len(),
                self.unions == old(self).unions,
                x < self.parent@.len(),
                forall|y: int| 0 <= y < p0.len() ==> root_of(self.parent@, r0, y) == root_of(p0, r0, y),
                0 <= x0 < p0.len(),
                root_of(p0, r0, x as int) == root_of(p0, r0, x0),
                p0 == old(self).parent@,
                r0 == old(self).rank@,
            decreases usize::MAX - self.rank@[x as int],
        {
            let ghost before = self.parent@;
            let p = self.parent[x];
            let gp = self.parent[p];
            proof {
                let np = before.update(x as int, gp);
                assert(ranked(np, r0));
                lemma_root_props(before, r0, x as int);
                assert forall|y: int| 0 <= y < p0.len() implies root_of(np, r0, y) == root_of(p0, r0, y) by {
                    lemma_halve(before, r0, x as int, y);
                }
                assert(root_set(np) =~= root_set(before));
                assert(root_of(before, r0, x as int) == root_of(before, r0, p as int));
                if before[p as int] != p {
                    assert(root_of(before, r0, p as int) == root_of(before, r0, gp as int));
                }
                assert(root_of(p0, r0, gp as int) == root_of(before, r0, gp as int));
                assert(root_of(p0, r0, x as int) == root_of(before, r0, x as int));
            }
            self.parent.set(x, gp);
            x = gp;
        }
        proof {
            assert(root_of(self.parent@, r0, x as int) == x);
            assert(root_of(p0, r0, x as int) == root_of(self.parent@, r0, x as int));
            assert(self.roots() =~= old(self).roots());
            assert(self.ranks() =~= old(self).ranks());
        }
        x
    }

    /// Merges the classes of `a` and `b`; false when they were one class.
    pub fn union(&mut self, a: usize, b: usize) -> (r: bool)
        requires old(self).inv(), a < old(self).size(), b < old(self).size(),
        ensures
            final(self).inv(),
            r == (old(self).roots()[a as int] != old(self).roots()[b as int]),
            final(self).model() == uf_union(old(self).roots(), old(self).ranks(), a as int, b as int),
            final(self).size() == old(self).size(),
    {
        let ra = self.find(a);
        let rb = self.find(b);
        proof { self.lemma_roots(); }
        if ra == rb {
            return false;
        }
        let n = self.parent.len();
        let ghost p0 = self.parent@;
        let ghost r0 = self.rank@;
        let ghost m0 = self.model();
        let ghost u0 = self.unions@;
        proof {
            assert(root_set(p0).contains(ra as int));
            assert(root_set(p0).contains(rb as int));
            assert(root_set(p0).remove(ra as int).contains(rb as int));
            assert(root_set(p0).remove(ra as int).len() >= 1);
        }
        if self.rank[ra] < self.rank[rb] {
            let ghost np = p0.update(ra as int, rb);
            proof {
                assert(ranked(np, r0));
                assert forall|y: int| 0 <= y < p0.len() implies root_of(np, r0, y)
                    == if root_of(p0, r0, y) == ra { rb as int } else { root_of(p0, r0, y) } by {
                    lemma_link(p0, r0, r0, ra as int, rb as int, y);
                }
                assert(root_set(np) =~= root_set(p0).remove(ra as int));
            }
            self.parent.set(ra, rb);
            self.unions = Ghost((u0 + 1) as nat);
            proof {
                assert forall|i: int| 0 <= i < self.rank@.len() implies (#[trigger] self.rank@[i]) <= self.unions@ by {}
                assert(self.roots() =~= relabel(m0.0, ra as int, rb as int));
                assert(self.ranks() =~= m0.1);
            }
        } else if self.rank[ra] > self.rank[rb] {
            let ghost np = p0.update(rb as int, ra);
            proof {
                assert(ranked(np, r0));
                assert forall|y: int| 0 <= y < p0.len() implies root_of(np, r0, y)
                    == if root_of(p0, r0, y) == rb { ra as int } else { root_of(p0, r0, y) } by {
                    lemma_link(p0, r0, r0, rb as int, ra as int, y);
                }
                assert(root_set(np) =~= root_set(p0).remove(rb as int));
            }
            self.parent.set(rb, ra);
            self.unions = Ghost((u0 + 1) as nat);
            proof {
                assert(self.roots() =~= relabel(m0.0, rb as int, ra as int));
                assert(self.ranks() =~= m0.1);
            }
        } else {
            let ghost np = p0.update(rb as int, ra);
            let ghost nr = r0.update(ra as int, (r0[ra as int] + 1) as usize);
            proof {
                assert(root_set(np) =~= root_set(p0).remove(rb as int));
                assert(root_set(p0).remove(rb as int).len() >= 1);
                assert(r0[ra as int] <= u0);
                assert(u0 + 1 <= p0.len());
                assert forall|i: int| 0 <= i < np.len() && np[i] != i implies nr[np[i] as int] > (#[trigger] nr[i]) by {
                    if i == rb as int {
                    } else {
                        assert(p0[i] != i);
                        assert(i != ra as int);
                    }
                }
                assert(ranked(np, nr));
                assert forall|y: int| 0 <= y < p0.len() implies root_of(np, nr, y)
                    == if root_of(p0, r0, y) == rb { ra as int } else { root_of(p0, r0, y) } by {
                    lemma_link(p0, r0, nr, rb as int, ra as int, y);
                }
            }
            self.parent.set(rb, ra);
            let k = self.rank[ra];
            self.rank.set(ra, k + 1);
            self.unions = Ghost((u0 + 1) as nat);
            proof {
                assert(self.roots() =~= relabel(m0.0, rb as int, ra as int));
                assert(self.ranks() =~= m0.1.update(ra as int, m0.1[ra as int] + 1));
            }
        }
        true
    }

    /// The classes of the elements below `n`, ordered by root, each in
    /// increasing order. The model is unchanged.
    pub fn components(&mut self, n: usize) -> (r: Vec<Vec<usize>>)
        requires old(self).inv(), n <= old(self).size(),
        ensures
            final(self).inv(),
            final(self).model() == old(self).model(),
            final(self).size() == old(self).size(),
            r@.map_values(|v: Vec<usize>| v@) == classes(old(self).roots(), n as int),
    {
        let ghost roots = self.roots();
        let mut rs: Vec<usize> = Vec::new();
        let mut i: usize = 0;
        while i < n
            invariant
                self.inv(), self.model() == old(self).model(), self.size() == old(self).size(),
                roots == old(self).roots(),
                n <= self.size(), i <= n, rs@.len() == i,
                forall|k: int| 0 <= k < i ==> rs@[k] as int == roots[k],
            decreases n - i,
        {
            let x = self.find(i);
            rs.push(x);
            i += 1;
        }
        let size = self.parent.len();
        let mut out: Vec<Vec<usize>> = Vec::new();
        let mut r: usize = 0;
        while r < size
            invariant
                size == roots.len(), r <= size, n <= size, rs@.len() == n,
                forall|k: int| 0 <= k < n ==> rs@[k] as int == roots[k],
                out@.map_values(|v: Vec<usize>| v@) == classes_upto(roots, n as int, r as int),
            decreases size - r,
        {
            let mut mem: Vec<usize> = Vec::new();
            let mut j: usize = 0;
            while j < n
                invariant
                    j <= n, rs@.len() == n,
                    forall|k: int| 0 <= k < n ==> rs@[k] as int == roots[k],
                    mem@ == members(roots, r as int, j as int),
                decreases n - j,
            {
                if rs[j] == r {
                    mem.push(j);
                }
                j += 1;
            }
            let ghost before = out@;
            if mem.len() > 0 {
                out.push(mem);
                proof {
                    assert(out@.map_values(|v: Vec<usize>| v@) =~= before.map_values(|v: Vec<usize>| v@).push(members(roots, r as int, n as int)));
                }
            }
            r += 1;
        }
        out
    }
}

/// Root labels that name roots: each lies among the elements and labels
/// itself.
pub open spec fn well_labelled(roots: Seq<int>) -> bool {
    forall|x: int| 0 <= x < roots.len() ==> 0 <= #[trigger] roots[x] < roots.len() && roots[roots[x]] == roots[x]
}

impl UnionFind {
    /// Every element's root lies among the elements and is its own root.
    pub proof fn roots_are_well_labelled(&self)
        requires
            self.inv(),
        ensures
            well_labelled(self.roots()),
            self.roots().len() == self.size(),
            self.ranks().len() == self.size(),
    {
        assert forall|x: int| 0 <= x < self.roots().len() implies 0 <= #[trigger] self.roots()[x] < self.roots().len()
            && self.roots()[self.roots()[x]] == self.roots()[x] by {
            lemma_root_props(self.parent@, self.rank@, x);
        }
    }
}

/// `union(a, b)` merges exactly the classes of `a` and `b`: afterwards they
/// share a root, the labels still name roots, and two elements share a root
/// exactly when they did before or each was in the class of `a` or of `b`.
pub proof fn union_merges_exactly(roots: Seq<int>, ranks: Seq<int>, a: int, b: int)
    requires
        well_labelled(roots),
        ranks.len() == roots.len(),
        0 <= a < roots.len(),
        0 <= b < roots.len(),
    ensures
        ({
            let after = uf_union(roots, ranks, a, b).0;
            &&& after.len() == roots.len()
            &&& after[a] == after[b]
            &&& well_labelled(after)
            &&& forall|x: int, y: int| 0 <= x < roots.len() && 0 <= y < roots.len()
                ==> ((#[trigger] after[x] == #[trigger] after[y]) <==> (roots[x] == roots[y]
                    || ((roots[x] == roots[a] || roots[x] == roots[b]) && (roots[y] == roots[a] || roots[y] == roots[b]))))
        }),
{
}

/// The members of a class below `k` are exactly the elements below `k` with
/// that root, in increasing order.
pub proof fn members_are_the_class(roots: Seq<int>, r: int, k: int)
    requires
        0 <= k <= roots.len(),
        k <= usize::MAX,
    ensures
        forall|q: int| 0 <= q < members(roots, r, k).len()
            ==> #[trigger] members(roots, r, k)[q] < k && roots[members(roots, r, k)[q] as int] == r,
        forall|i: int, j: int| 0 <= i < j < members(roots, r, k).len()
            ==> #[trigger] members(roots, r, k)[i] < #[trigger] members(roots, r, k)[j],
        forall|x: int| 0 <= x < k && roots[x] == r ==> #[trigger] members(roots, r, k).contains(x as usize),
    decreases k,
{
    if k > 0 {
        members_are_the_class(roots, r, k - 1);
        let prev = members(roots, r, k - 1);
        if roots[k - 1] == r {
            let m = prev.push((k - 1) as usize);
            assert forall|q: int| 0 <= q < m.len() implies #[trigger] m[q] < k && roots[m[q] as int] == r by {
                if q < prev.len() {
                    assert(m[q] == prev[q]);
                }
            }
            assert forall|i: int, j: int| 0 <= i < j < m.len() implies #[trigger] m[i] < #[trigger] m[j] by {
                assert(m[i] == prev[i]);
                if j < prev.len() {
                    assert(m[j] == prev[j]);
                }
            }
            assert forall|x: int| 0 <= x < k && roots[x] == r implies #[trigger] m.contains(x as usize) by {
                if x < k - 1 {
                    assert(prev.contains(x as usize));
                    let q = choose|q: int| 0 <= q < prev.len() && prev[q] == x as usize;
                    assert(m[q] == prev[q]);
                } else {
                    assert(m[prev.len() as int] == (k - 1) as usize);
                }
            }
        } else {
            assert forall|x: int| 0 <= x < k && roots[x] == r implies #[trigger] prev.contains(x as usize) by {
                assert(x < k - 1);
            }
        }
    }
}

/// Whether some class of the list holds element `x`.
pub open spec fn in_some_class(cls: Seq<Seq<usize>>, x: int) -> bool {
    exists|c: int| 0 <= c < cls.len() && (#[trigger] cls[c]).contains(x as usize)
}

proof fn lemma_classes_upto(roots: Seq<int>, n: int, k: int)
    requires
        0 <= n <= roots.len(),
        n <= usize::MAX,
        0 <= k,
    ensures
        forall|c: int| 0 <= c < classes_upto(roots, n, k).len() ==> {
            let m = #[trigger] classes_upto(roots, n, k)[c];
            &&& m.len() > 0
            &&& 0 <= roots[m[0] as int] < k
            &&& m == members(roots, roots[m[0] as int], n)
        },
        forall|c: int, d: int| 0 <= c < d < classes_upto(roots, n, k).len()
            ==> roots[(#[trigger] classes_upto(roots, n, k)[c])[0] as int]
                < roots[(#[trigger] classes_upto(roots, n, k)[d])[0] as int],
        forall|x: int| 0 <= x < n && 0 <= roots[x] < k ==> #[trigger] in_some_class(classes_upto(roots, n, k), x),
    decreases k,
{
    if k > 0 {
        lemma_classes_upto(roots, n, k - 1);
        members_are_the_class(roots, k - 1, n);
        let prev = classes_upto(roots, n, k - 1);
        let m = members(roots, k - 1, n);
        if m.len() > 0 {
            let cur = prev.push(m);
            assert(classes_upto(roots, n, k) == cur);
            assert(roots[m[0] as int] == k - 1);
            assert forall|c: int| 0 <= c < cur.len() implies {
                let mm = #[trigger] cur[c];
                &&& mm.len() > 0
                &&& 0 <= roots[mm[0] as int] < k
                &&& mm == members(roots, roots[mm[0] as int], n)
            } by {
                if c < prev.len() {
                    assert(cur[c] == prev[c]);
                }
            }
            assert forall|c: int, d: int| 0 <= c < d < cur.len()
                implies roots[(#[trigger] cur[c])[0] as int] < roots[(#[trigger] cur[d])[0] as int] by {
                assert(cur[c] == prev[c]);
                if d < prev.len() {
                    assert(cur[d] == prev[d]);
                }
            }
            assert forall|x: int| 0 <= x < n && 0 <= roots[x] < k implies #[trigger] in_some_class(cur, x) by {
                if roots[x] < k - 1 {
                    assert(in_some_class(prev, x));
                    let c = choose|c: int| 0 <= c < prev.len() && (#[trigger] prev[c]).contains(x as usize);
                    assert(cur[c] == prev[c]);
                } else {
                    assert(m.contains(x as usize));
                    assert(cur[prev.len() as int] == m);
                }
            }
        } else {
            assert(classes_upto(roots, n, k) == prev);
            assert forall|x: int| 0 <= x < n && 0 <= roots[x] < k implies #[trigger] in_some_class(prev, x) by {
                if roots[x] == k - 1 {
                    assert(m.contains(x as usize));
                } else {
                    assert(in_some_class(prev, x));
                }
            }
        }
    }
}

/// The classes listed for the elements below `n` partition them by root:
/// each class is the non-empty, increasing list of the elements below `n`
/// with one root, no two classes share a root, and every element below `n`
/// is in one.
pub proof fn classes_partition_by_root(roots: Seq<int>, n: int)
    requires
        well_labelled(roots),
        0 <= n <= roots.len(),
        roots.len() <= usize::MAX,
    ensures
        forall|c: int| 0 <= c < classes(roots, n).len() ==> {
            let m = #[trigger] classes(roots, n)[c];
            &&& m.len() > 0
            &&& forall|q: int| #![trigger m[q]] 0 <= q < m.len() ==> m[q] < n && roots[m[q] as int] == roots[m[0] as int]
            &&& forall|i: int, j: int| #![trigger m[i], m[j]] 0 <= i < j < m.len() ==> m[i] < m[j]
        },
        forall|c: int, d: int| 0 <= c < d < classes(roots, n).len()
            ==> roots[(#[trigger] classes(roots, n)[c])[0] as int] != roots[(#[trigger] classes(roots, n)[d])[0] as int],
        forall|x: int| 0 <= x < n ==> #[trigger] in_some_class(classes(roots, n), x),
        forall|c: int, x: int| #![trigger classes(roots, n)[c], roots[x]] 0 <= c < classes(roots, n).len() && 0 <= x < n
            && roots[x] == roots[classes(roots, n)[c][0] as int]
            ==> classes(roots, n)[c].contains(x as usize),
{
    let len = roots.len() as int;
    lemma_classes_upto(roots, n, len);
    let cls = classes(roots, n);
    assert forall|c: int| 0 <= c < cls.len() implies {
        let m = #[trigger] cls[c];
        &&& m.len() > 0
        &&& forall|q: int| #![trigger m[q]] 0 <= q < m.len() ==> m[q] < n && roots[m[q] as int] == roots[m[0] as int]
        &&& forall|i: int, j: int| #![trigger m[i], m[j]] 0 <= i < j < m.len() ==> m[i] < m[j]
    } by {
        let m = cls[c];
        members_are_the_class(roots, roots[m[0] as int], n);
    }
    assert forall|c: int, x: int| #![trigger cls[c], roots[x]] 0 <= c < cls.len() && 0 <= x < n && roots[x] == roots[cls[c][0] as int]
        implies cls[c].contains(x as usize) by {
        members_are_the_class(roots, roots[cls[c][0] as int], n);
    }
    assert forall|x: int| 0 <= x < n implies #[trigger] in_some_class(cls, x) by {
        assert(0 <= roots[x] < len);
        assert(in_some_class(classes_upto(roots, n, len), x));
    }
}

/// How many of the elements below `k` are roots.
pub open spec fn root_count(roots: Seq<int>, k: int) -> nat
    decreases k,
{
    if k <= 0 {
        0
    } else {
        root_count(roots, k - 1) + if roots[k - 1] == k - 1 { 1nat } else { 0nat }
    }
}

proof fn lemma_classes_count(roots: Seq<int>, n: int, k: int)
    requires
        well_labelled(roots),
        n == roots.len(),
        n <= usize::MAX,
        0 <= k <= n,
    ensures
        classes_upto(roots, n, k).len() == root_count(roots, k),
    decreases k,
{
    if k > 0 {
        lemma_classes_count(roots, n, k - 1);
        members_are_the_class(roots, k - 1, n);
        let m = members(roots, k - 1, n);
        if roots[k - 1] == k - 1 {
            assert(m.contains((k - 1) as usize));
        }
        if m.len() > 0 {
            assert(roots[m[0] as int] == k - 1);
        }
    }
}

/// There are as many classes as roots.
pub proof fn classes_count_roots(roots: Seq<int>)
    requires
        well_labelled(roots),
        roots.len() <= usize::MAX,
    ensures
        classes(roots, roots.len() as int).len() == root_count(roots, roots.len() as int),
{
    lemma_classes_count(roots, roots.len() as int, roots.len() as int);
}

proof fn lemma_fresh_count(n: nat, k: int)
    requires
        0 <= k <= n,
    ensures
        root_count(uf_fresh(n).0, k) == k,
    decreases k,
{
    if k > 0 {
        lemma_fresh_count(n, k - 1);
    }
}

/// A fresh structure over `n` elements has `n` roots.
pub proof fn fresh_has_all_roots(n: nat)
    ensures
        root_count(uf_fresh(n).0, n as int) == n,
        well_labelled(uf_fresh(n).0),
{
    lemma_fresh_count(n, n as int);
}

proof fn lemma_relabel_count(roots: Seq<int>, from: int, to: int, k: int)
    requires
        well_labelled(roots),
        0 <= from < roots.len(),
        0 <= to < roots.len(),
        roots[from] == from,
        roots[to] == to,
        from != to,
        0 <= k <= roots.len(),
    ensures
        root_count(relabel(roots, from, to), k) + (if from < k { 1int } else { 0int }) == root_count(roots, k),
    decreases k,
{
    if k > 0 {
        lemma_relabel_count(roots, from, to, k - 1);
        let y = k - 1;
        let nr = relabel(roots, from, to);
        if roots[y] == from {
            assert(nr[y] == to);
            if y == to {
                assert(roots[to] == to);
            }
        }
    }
}

/// A union removes at most one root: the one whose class joins the other.
pub proof fn union_removes_at_most_one_root(roots: Seq<int>, ranks: Seq<int>, a: int, b: int)
    requires
        well_labelled(roots),
        ranks.len() == roots.len(),
        0 <= a < roots.len(),
        0 <= b < roots.len(),
    ensures
        root_count(uf_union(roots, ranks, a, b).0, roots.len() as int) + 1 >= root_count(roots, roots.len() as int),
{
    let ra = roots[a];
    let rb = roots[b];
    let len = roots.len() as int;
    if ra != rb {
        if ranks[ra] < ranks[rb] {
            lemma_relabel_count(roots, ra, rb, len);
        } else {
            lemma_relabel_count(roots, rb, ra, len);
        }
    }
}

} // verus!
