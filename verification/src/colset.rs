//! Ordered sets of column names.
//!
//! A `ColumnSet` keeps its names in strictly increasing lexicographic order,
//! the order in which a `BTreeSet<String>` walks them, so "the first column"
//! of a set means the same thing here as there.
use vstd::prelude::*;
use crate::text::{lex_lt, lemma_lex_irreflexive, lemma_lex_total, lemma_lex_transitive, str_eq, str_lt};

verus! {

/// Strictly increasing sequences of names.
pub open spec fn strictly_sorted(s: Seq<Seq<char>>) -> bool {
    forall|i: int, j: int| 0 <= i < j < s.len() ==> lex_lt(#[trigger] s[i], #[trigger] s[j])
}

/// The first name of `s`, in order, that `b` holds.
pub open spec fn first_in(s: Seq<Seq<char>>, b: Set<Seq<char>>) -> Option<Seq<char>>
    decreases s.len(),
{
    if s.len() == 0 {
        None
    } else if b.contains(s[0]) {
        Some(s[0])
    } else {
        first_in(s.drop_first(), b)
    }
}

proof fn lemma_first_in_at(s: Seq<Seq<char>>, b: Set<Seq<char>>, i: int)
    requires
        0 <= i < s.len(),
        b.contains(s[i]),
        forall|k: int| 0 <= k < i ==> !b.contains(#[trigger] s[k]),
    ensures
        first_in(s, b) == Some(s[i]),
    decreases i,
{
    if i > 0 {
        assert(!b.contains(s[0]));
        lemma_first_in_at(s.drop_first(), b, i - 1);
    }
}

proof fn lemma_first_in_none(s: Seq<Seq<char>>, b: Set<Seq<char>>)
    requires
        forall|k: int| 0 <= k < s.len() ==> !b.contains(#[trigger] s[k]),
    ensures
        first_in(s, b) is None,
    decreases s.len(),
{
    if s.len() > 0 {
        assert(!b.contains(s[0]));
        lemma_first_in_none(s.drop_first(), b);
    }
}

/// The strictly increasing sequence holding the names of `s`.
pub open spec fn sorted_of(s: Set<Seq<char>>) -> Seq<Seq<char>> {
    choose|q: Seq<Seq<char>>| strictly_sorted(q) && forall|c: Seq<char>| #[trigger] q.contains(c) <==> s.contains(c)
}

/// Two strictly increasing sequences with the same names are equal.
pub proof fn lemma_sorted_unique(a: Seq<Seq<char>>, b: Seq<Seq<char>>)
    requires
        strictly_sorted(a), strictly_sorted(b),
        forall|c: Seq<char>| #[trigger] a.contains(c) <==> b.contains(c),
    ensures a == b,
    decreases a.len(),
{
    if a.len() == 0 {
        if b.len() > 0 {
            assert(b.contains(b[0]));
            assert(a.contains(b[0]));
        }
        assert(a =~= b);
    } else {
        assert(a.contains(a[0]));
        assert(b.len() > 0);
        assert(b.contains(b[0]));
        assert(a.contains(b[0]));
        assert(b.contains(a[0]));
        let j = choose|j: int| 0 <= j < a.len() && a[j] == b[0];
        let k = choose|k: int| 0 <= k < b.len() && b[k] == a[0];
        if j > 0 && k > 0 {
            assert(lex_lt(a[0], a[j]));
            assert(lex_lt(b[0], b[k]));
            lemma_lex_transitive(a[0], b[0], a[0]);
            lemma_lex_irreflexive(a[0]);
        } else if j > 0 {
            assert(lex_lt(a[0], a[j]));
            lemma_lex_irreflexive(a[0]);
        } else if k > 0 {
            assert(lex_lt(b[0], b[k]));
            lemma_lex_irreflexive(b[0]);
        }
        assert(a[0] == b[0]);
        let a1 = a.drop_first();
        let b1 = b.drop_first();
        assert forall|c: Seq<char>| #[trigger] a1.contains(c) <==> b1.contains(c) by {
            if a1.contains(c) {
                let i = choose|i: int| 0 <= i < a1.len() && a1[i] == c;
                assert(a.contains(c) && a[i + 1] == c);
                assert(lex_lt(a[0], a[i + 1]));
                assert(b.contains(c));
                let q = choose|q: int| 0 <= q < b.len() && b[q] == c;
                if q == 0 { lemma_lex_irreflexive(a[0]); }
                assert(b1[q - 1] == c);
            }
            if b1.contains(c) {
                let i = choose|i: int| 0 <= i < b1.len() && b1[i] == c;
                assert(b.contains(c) && b[i + 1] == c);
                assert(lex_lt(b[0], b[i + 1]));
                assert(a.contains(c));
                let q = choose|q: int| 0 <= q < a.len() && a[q] == c;
                if q == 0 { lemma_lex_irreflexive(b[0]); }
                assert(a1[q - 1] == c);
            }
        }
        assert forall|x: int, y: int| 0 <= x < y < a1.len() implies lex_lt(#[trigger] a1[x], #[trigger] a1[y]) by {
            assert(a1[x] == a[x + 1] && a1[y] == a[y + 1]);
        }
        assert forall|x: int, y: int| 0 <= x < y < b1.len() implies lex_lt(#[trigger] b1[x], #[trigger] b1[y]) by {
            assert(b1[x] == b[x + 1] && b1[y] == b[y + 1]);
        }
        lemma_sorted_unique(a1, b1);
        assert(a =~= b) by {
            assert forall|i: int| 0 <= i < a.len() implies a[i] == b[i] by {
                if i > 0 { assert(a[i] == a1[i - 1] && b[i] == b1[i - 1]); }
            }
        }
    }
}

/// A strictly increasing sequence is the one `sorted_of` names for its set.
pub proof fn lemma_sorted_of(a: Seq<Seq<char>>, s: Set<Seq<char>>)
    requires strictly_sorted(a), forall|c: Seq<char>| #[trigger] a.contains(c) <==> s.contains(c),
    ensures sorted_of(s) == a,
{
    let q = sorted_of(s);
    assert(strictly_sorted(q) && forall|c: Seq<char>| #[trigger] q.contains(c) <==> s.contains(c));
    lemma_sorted_unique(q, a);
}

/// An ordered set of column names.
#[derive(Debug, PartialEq, Eq)]
pub struct ColumnSet {
    items: Vec<String>,
}

impl ColumnSet {
    /// The names in increasing order.
    pub closed spec fn ordered(&self) -> Seq<Seq<char>> {
        self.items@.map_values(|s: String| s@)
    }

    #[verifier::type_invariant]
    closed spec fn inv(&self) -> bool {
        strictly_sorted(self.ordered())
    }

    /// The empty set.
    pub fn new() -> (r: Self)
        ensures r.ordered() == Seq::<Seq<char>>::empty(), r@ == Set::<Seq<char>>::empty(), strictly_sorted(r.ordered()),
    {
        let r = ColumnSet { items: Vec::new() };
        assert(r.ordered() =~= Seq::<Seq<char>>::empty());
        assert(r@ =~= Set::<Seq<char>>::empty());
        r
    }

    /// Number of names.
    pub fn len(&self) -> (r: usize)
        ensures r == self.ordered().len(),
    {
        self.items.len()
    }

    /// Whether the set holds no name.
    pub fn is_empty(&self) -> (r: bool)
        ensures r == (self.ordered().len() == 0), r == (self@ == Set::<Seq<char>>::empty()),
    {
        if self.items.len() == 0 {
            assert(self@ =~= Set::<Seq<char>>::empty());
            true
        } else {
            assert(self@.contains(self.ordered()[0]));
            false
        }
    }

    /// The name at position `i` in increasing order.
    pub fn get(&self, i: usize) -> (r: &String)
        requires i < self.ordered().len(),
        ensures r@ == self.ordered()[i as int],
    {
        &self.items[i]
    }

    /// Position of the first name that is not below `x`.
    fn lower_bound(&self, x: &str) -> (p: usize)
        ensures
            p <= self.ordered().len(),
            forall|k: int| 0 <= k < p ==> lex_lt(#[trigger] self.ordered()[k], x@),
            p < self.ordered().len() ==> !lex_lt(self.ordered()[p as int], x@),
    {
        let n = self.items.len();
        let mut i: usize = 0;
        while i < n
            invariant
                n == self.ordered().len(), i <= n,
                forall|k: int| 0 <= k < i ==> lex_lt(#[trigger] self.ordered()[k], x@),
            decreases n - i,
        {
            if !str_lt(self.items[i].as_str(), x) {
                return i;
            }
            i += 1;
        }
        i
    }

    /// Whether `x` is one of the names.
    pub fn contains(&self, x: &str) -> (r: bool)
        ensures r == self@.contains(x@),
    {
        proof { use_type_invariant(self); }
        let p = self.lower_bound(x);
        if p < self.items.len() && str_eq(self.items[p].as_str(), x) {
            assert(self.ordered()[p as int] == x@);
            true
        } else {
            proof {
            if self.ordered().contains(x@) {
                let k = choose|k: int| 0 <= k < self.ordered().len() && self.ordered()[k] == x@;
                if k < p {
                    lemma_lex_irreflexive(x@);
                } else if k > p {
                    assert(lex_lt(self.ordered()[p as int], self.ordered()[k]));
                    lemma_lex_total(self.ordered()[p as int], x@);
                }
            }
            }
            false
        }
    }

    /// Adds a name; nothing changes if it is already there.
    pub fn insert(&mut self, x: String)
        ensures final(self)@ == old(self)@.insert(x@),
    {
        proof { use_type_invariant(&*self); }
        let p = self.lower_bound(x.as_str());
        if p < self.items.len() && str_eq(self.items[p].as_str(), x.as_str()) {
            assert(self@ =~= old(self)@.insert(x@));
            return;
        }
        let ghost old_ord = self.ordered();
        proof {
            if p < old_ord.len() {
                lemma_lex_total(old_ord[p as int], x@);
            }
        }
        let ghost xv = x@;
        let mut items = Vec::new();
        std::mem::swap(&mut items, &mut self.items);
        items.insert(p, x);
        let ghost new_ord = items@.map_values(|s: String| s@);
        proof {
            old_ord.insert_ensures(p as int, xv);
            assert(new_ord =~= old_ord.insert(p as int, xv));
            assert forall|i: int, j: int| 0 <= i < j < new_ord.len()
                implies lex_lt(#[trigger] new_ord[i], #[trigger] new_ord[j]) by {
                if j < p {
                } else if j == p {
                } else if i < p {
                    // new_ord[i] < x <= old[p] <= new_ord[j]
                    if j - 1 > p {
                        assert(lex_lt(old_ord[p as int], old_ord[j - 1]));
                        lemma_lex_transitive(xv, old_ord[p as int], old_ord[j - 1]);
                    }
                    lemma_lex_transitive(new_ord[i], xv, new_ord[j]);
                } else if i == p {
                    if j - 1 > p {
                        lemma_lex_transitive(xv, old_ord[p as int], old_ord[j - 1]);
                    }
                } else {
                    assert(lex_lt(old_ord[i - 1], old_ord[j - 1]));
                }
            }
        }
        self.items = items;
        proof {
            assert forall|c: Seq<char>| self@.contains(c) <==> old(self)@.insert(xv).contains(c) by {
                if self.ordered().contains(c) {
                    let k = choose|k: int| 0 <= k < self.ordered().len() && self.ordered()[k] == c;
                    if k < p {
                        assert(old_ord[k] == c);
                    } else if k > p {
                        assert(old_ord[k - 1] == c);
                    }
                }
                if old_ord.contains(c) {
                    let k = choose|k: int| 0 <= k < old_ord.len() && old_ord[k] == c;
                    if k < p {
                        assert(self.ordered()[k] == c);
                    } else {
                        assert(self.ordered()[k + 1] == c);
                    }
                }
                if c == xv {
                    assert(self.ordered()[p as int] == c);
                }
            }
            assert(self@ =~= old(self)@.insert(xv));
        }
    }

    /// A set holding the given names.
    pub fn from_strs(names: &[&str]) -> (r: Self)
        ensures
            forall|c: Seq<char>| r@.contains(c) <==> exists|i: int| 0 <= i < names@.len() && (#[trigger] names@[i])@ == c,
    {
        let mut r = ColumnSet::new();
        let mut i: usize = 0;
        while i < names.len()
            invariant
                i <= names@.len(),
                forall|c: Seq<char>| r@.contains(c) <==> exists|k: int| 0 <= k < i && (#[trigger] names@[k])@ == c,
            decreases names.len() - i,
        {
            r.insert(String::from_str(names[i]));
            proof {
                assert forall|c: Seq<char>| r@.contains(c) <==> exists|k: int| 0 <= k < i + 1 && (#[trigger] names@[k])@ == c by {
                    if c == names@[i as int]@ {
                        assert(names@[i as int]@ == c);
                    }
                }
            }
            i += 1;
        }
        r
    }

    /// Union of two sets.
    pub fn union(&self, other: &ColumnSet) -> (r: ColumnSet)
        ensures r@ == self@.union(other@), strictly_sorted(r.ordered()),
    {
        let mut r = self.clone_set();
        let mut i: usize = 0;
        while i < other.items.len()
            invariant
                i <= other.ordered().len(),
                forall|c: Seq<char>| #[trigger] r@.contains(c) <==> (self@.contains(c)
                    || exists|k: int| 0 <= k < i && #[trigger] other.ordered()[k] == c),
            decreases other.items.len() - i,
        {
            r.insert(other.items[i].clone());
            proof {
                assert forall|c: Seq<char>| #[trigger] r@.contains(c) <==> (self@.contains(c)
                    || exists|k: int| 0 <= k < i + 1 && #[trigger] other.ordered()[k] == c) by {
                    if exists|k: int| 0 <= k < i + 1 && #[trigger] other.ordered()[k] == c {
                        let k = choose|k: int| 0 <= k < i + 1 && #[trigger] other.ordered()[k] == c;
                        if k < i {
                            assert(exists|k: int| 0 <= k < i && #[trigger] other.ordered()[k] == c);
                        }
                    }
                    if c == other.ordered()[i as int] {
                        assert(exists|k: int| 0 <= k < i + 1 && #[trigger] other.ordered()[k] == c);
                    }
                }
            }
            i += 1;
        }
        proof {
            assert forall|c: Seq<char>| #[trigger] r@.contains(c) <==> self@.union(other@).contains(c) by {
                if other.ordered().contains(c) {
                    let k = choose|k: int| 0 <= k < other.ordered().len() && other.ordered()[k] == c;
                    assert(exists|k: int| 0 <= k < i && #[trigger] other.ordered()[k] == c);
                }
            }
            assert(r@ =~= self@.union(other@));
        }
        proof { use_type_invariant(&r); }
        r
    }

    /// A copy of the set.
    pub fn clone_set(&self) -> (r: ColumnSet)
        ensures r.ordered() == self.ordered(), r@ == self@,
    {
        proof { use_type_invariant(self); }
        let mut items: Vec<String> = Vec::new();
        let mut i: usize = 0;
        while i < self.items.len()
            invariant
                i <= self.items.len(),
                items@.map_values(|s: String| s@) =~= self.ordered().subrange(0, i as int),
            decreases self.items.len() - i,
        {
            let c = self.items[i].clone();
            let ghost prev = items@;
            items.push(c);
            proof {
                assert(items@ == prev.push(c));
                assert(items@.map_values(|s: String| s@) =~= prev.map_values(|s: String| s@).push(c@));
                assert(self.ordered().subrange(0, i + 1) =~= self.ordered().subrange(0, i as int).push(self.ordered()[i as int]));
            }
            i += 1;
        }
        let r = ColumnSet { items };
        assert(r.ordered() =~= self.ordered());
        r
    }

    /// Whether the two sets share a name.
    pub fn intersects(&self, other: &ColumnSet) -> (r: bool)
        ensures r == exists|c: Seq<char>| self@.contains(c) && other@.contains(c),
    {
        let mut i: usize = 0;
        while i < self.items.len()
            invariant
                i <= self.ordered().len(),
                forall|k: int| 0 <= k < i ==> !other@.contains(#[trigger] self.ordered()[k]),
            decreases self.items.len() - i,
        {
            if other.contains(self.items[i].as_str()) {
                assert(self@.contains(self.ordered()[i as int]));
                return true;
            }
            i += 1;
        }
        proof {
            assert forall|c: Seq<char>| !(self@.contains(c) && other@.contains(c)) by {
                if self.ordered().contains(c) {
                    let k = choose|k: int| 0 <= k < self.ordered().len() && self.ordered()[k] == c;
                    assert(!other@.contains(self.ordered()[k]));
                }
            }
        }
        false
    }

    /// Position of the first name, in increasing order, that `other` holds.
    pub fn first_shared(&self, other: &ColumnSet) -> (r: Option<usize>)
        ensures
            match r {
                Some(i) => i < self.ordered().len() && other@.contains(self.ordered()[i as int])
                    && forall|k: int| 0 <= k < i ==> !other@.contains(#[trigger] self.ordered()[k]),
                None => forall|c: Seq<char>| self@.contains(c) ==> !other@.contains(c),
            },
    {
        let mut i: usize = 0;
        while i < self.items.len()
            invariant
                i <= self.ordered().len(),
                forall|k: int| 0 <= k < i ==> !other@.contains(#[trigger] self.ordered()[k]),
            decreases self.items.len() - i,
        {
            if other.contains(self.items[i].as_str()) {
                return Some(i);
            }
            i += 1;
        }
        proof {
            assert forall|c: Seq<char>| self@.contains(c) implies !other@.contains(c) by {
                let k = choose|k: int| 0 <= k < self.ordered().len() && self.ordered()[k] == c;
                assert(!other@.contains(self.ordered()[k]));
            }
        }
        None
    }

    /// The first name, in increasing order, that `other` holds.
    pub fn first_shared_name(&self, other: &ColumnSet) -> (r: Option<String>)
        ensures
            match first_in(self.ordered(), other@) {
                Some(n) => r is Some && r->0@ == n,
                None => r is None,
            },
    {
        match self.first_shared(other) {
            Some(i) => {
                proof { lemma_first_in_at(self.ordered(), other@, i as int); }
                Some(self.items[i].clone())
            }
            None => {
                proof {
                    assert forall|k: int| 0 <= k < self.ordered().len() implies !other@.contains(#[trigger] self.ordered()[k]) by {
                        assert(self@.contains(self.ordered()[k]));
                    }
                    lemma_first_in_none(self.ordered(), other@);
                }
                None
            }
        }
    }

    /// The first name in increasing order, if any.
    pub fn first(&self) -> (r: Option<&String>)
        ensures
            self.ordered().len() == 0 ==> r is None,
            self.ordered().len() > 0 ==> r is Some && r->0@ == self.ordered()[0],
    {
        if self.items.len() == 0 {
            None
        } else {
            Some(&self.items[0])
        }
    }

    /// The names, in increasing order, as owned strings.
    pub fn to_vec(&self) -> (r: Vec<String>)
        ensures r@.map_values(|s: String| s@) == self.ordered(),
    {
        let mut out: Vec<String> = Vec::new();
        let mut i: usize = 0;
        while i < self.items.len()
            invariant
                i <= self.items.len(),
                out@.map_values(|s: String| s@) =~= self.ordered().subrange(0, i as int),
            decreases self.items.len() - i,
        {
            let c = self.items[i].clone();
            let ghost prev = out@;
            out.push(c);
            proof {
                assert(out@ == prev.push(c));
                assert(out@.map_values(|s: String| s@) =~= prev.map_values(|s: String| s@).push(c@));
                assert(self.ordered().subrange(0, i + 1) =~= self.ordered().subrange(0, i as int).push(self.ordered()[i as int]));
            }
            i += 1;
        }
        assert(out@.map_values(|s: String| s@) =~= self.ordered());
        out
    }
}

impl Clone for ColumnSet {
    fn clone(&self) -> (r: Self)
        ensures r.ordered() == self.ordered(), r@ == self@,
    {
        self.clone_set()
    }
}

impl View for ColumnSet {
    type V = Set<Seq<char>>;

    open spec fn view(&self) -> Set<Seq<char>> {
        Set::new(|c: Seq<char>| self.ordered().contains(c))
    }
}

} // verus!
