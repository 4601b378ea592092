//! Grouping of the map's lights into connected components: a union-find
//! over the indices `0..n`, with path halving and union by size.
//!
//! Its model is the representative of each element's class: `find` gives
//! it and changes no class, `union` joins two classes into one whose
//! representative is that of the larger one (the first on a tie).

use vstd::prelude::*;

verus! {

/// How many entries of `s` are `r`.
pub open spec fn count_of(s: Seq<usize>, r: usize) -> nat
    decreases s.len(),
{
    if s.len() == 0 {
        0
    } else {
        count_of(s.drop_last(), r) + if s.last() == r {
            1nat
        } else {
            0nat
        }
    }
}

/// The representative that survives when the classes of `a` and `b` are
/// joined: that of the larger class, the one of `a` on a tie.
pub open spec fn survivor(reprs: Seq<usize>, a: int, b: int) -> usize {
    if count_of(reprs, reprs[a]) < count_of(reprs, reprs[b]) {
        reprs[b]
    } else {
        reprs[a]
    }
}

/// The representative that is given up when the classes of `a` and `b` are
/// joined.
pub open spec fn absorbed(reprs: Seq<usize>, a: int, b: int) -> usize {
    if count_of(reprs, reprs[a]) < count_of(reprs, reprs[b]) {
        reprs[a]
    } else {
        reprs[b]
    }
}

/// Every element represented by `from` is represented by `to` instead.
pub open spec fn redirect(reprs: Seq<usize>, from: usize, to: usize) -> Seq<usize> {
    Seq::new(reprs.len(), |i: int| if reprs[i] == from { to } else { reprs[i] })
}

/// The classes after joining those of `a` and `b`.
pub open spec fn joined(reprs: Seq<usize>, a: int, b: int) -> Seq<usize> {
    if reprs[a] == reprs[b] {
        reprs
    } else {
        redirect(reprs, absorbed(reprs, a, b), survivor(reprs, a, b))
    }
}

/// Each element alone in its class.
pub open spec fn singletons(n: nat) -> Seq<usize> {
    Seq::new(n, |i: int| i as usize)
}

proof fn lemma_count_singletons(n: nat, r: usize)
    requires
        n <= usize::MAX + 1,
    ensures
        count_of(singletons(n), r) == (if r < n { 1nat } else { 0nat }),
    decreases n,
{
    if n > 0 {
        assert(singletons(n).drop_last() =~= singletons((n - 1) as nat));
        lemma_count_singletons((n - 1) as nat, r);
    }
}

proof fn lemma_count_redirect(s: Seq<usize>, from: usize, to: usize, r: usize)
    requires
        from != to,
    ensures
        count_of(redirect(s, from, to), r) == (if r == to {
            count_of(s, to) + count_of(s, from)
        } else if r == from {
            0
        } else {
            count_of(s, r)
        }),
    decreases s.len(),
{
    if s.len() > 0 {
        assert(redirect(s, from, to).drop_last() =~= redirect(s.drop_last(), from, to));
        lemma_count_redirect(s.drop_last(), from, to, r);
    }
}

proof fn lemma_count_two(s: Seq<usize>, a: usize, b: usize)
    requires
        a != b,
    ensures
        count_of(s, a) + count_of(s, b) <= s.len(),
    decreases s.len(),
{
    if s.len() > 0 {
        lemma_count_two(s.drop_last(), a, b);
    }
}

/// Joining the classes of `a` and `b` puts them in one class, keeps every
/// two elements that shared a class together, and puts no other two
/// elements together.
pub proof fn lemma_joined_classes(reprs: Seq<usize>, a: int, b: int)
    requires
        0 <= a < reprs.len(),
        0 <= b < reprs.len(),
    ensures
        joined(reprs, a, b).len() == reprs.len(),
        joined(reprs, a, b)[a] == joined(reprs, a, b)[b],
        forall|x: int, y: int|
            0 <= x < reprs.len() && 0 <= y < reprs.len() ==> (#[trigger] joined(reprs, a, b)[x]
                == #[trigger] joined(reprs, a, b)[y] <==> (reprs[x] == reprs[y] || ((reprs[x]
                == reprs[a] || reprs[x] == reprs[b]) && (reprs[y] == reprs[a] || reprs[y]
                == reprs[b])))),
{
}

/// A union-find over `0..n`.
pub struct ComponentUnion {
    parent: Vec<usize>,
    size: Vec<usize>,
    /// The representative of each element.
    reprs: Ghost<Seq<usize>>,
    /// Strictly grows along every parent link; bounds the walk of `find`.
    rank: Ghost<Seq<nat>>,
    max_rank: Ghost<nat>,
}

impl ComponentUnion {
    /// The representative of each element's class.
    pub closed spec fn classes(&self) -> Seq<usize> {
        self.reprs@
    }

    pub closed spec fn wf(&self) -> bool {
        let n = self.parent@.len();
        let p = self.parent@;
        let r = self.reprs@;
        &&& self.size@.len() == n
        &&& r.len() == n
        &&& self.rank@.len() == n
        &&& forall|i: int| 0 <= i < n ==> #[trigger] p[i] < n
        &&& forall|i: int| 0 <= i < n ==> #[trigger] r[i] < n
        &&& forall|i: int| 0 <= i < n ==> p[#[trigger] r[i] as int] == r[i]
        &&& forall|i: int| 0 <= i < n ==> r[#[trigger] p[i] as int] == r[i]
        &&& forall|i: int| 0 <= i < n && #[trigger] p[i] == i ==> r[i] == i
        &&& forall|i: int|
            0 <= i < n && #[trigger] p[i] != i ==> self.rank@[p[i] as int] > self.rank@[i]
        &&& forall|i: int| 0 <= i < n ==> #[trigger] self.rank@[i] <= self.max_rank@
        &&& forall|i: int|
            0 <= i < n && #[trigger] p[i] == i ==> self.size@[i] == count_of(r, i as usize)
    }

    /// `n` elements, each in a class of its own.
    pub fn new(n: usize) -> (u: Self)
        ensures
            u.wf(),
            u.classes() == singletons(n as nat),
    {
        let mut parent: Vec<usize> = Vec::new();
        let mut size: Vec<usize> = Vec::new();
        let mut i: usize = 0;
        while i < n
            invariant
                i <= n,
                parent@ == singletons(i as nat),
                size@.len() == i,
                forall|j: int| 0 <= j < i ==> #[trigger] size@[j] == 1,
            decreases n - i,
        {
            parent.push(i);
            size.push(1);
            i += 1;
            assert(parent@ =~= singletons(i as nat));
        }
        let ghost reprs = singletons(n as nat);
        let u = ComponentUnion {
            parent,
            size,
            reprs: Ghost(reprs),
            rank: Ghost(Seq::new(n as nat, |j: int| 0nat)),
            max_rank: Ghost(0nat),
        };
        assert forall|j: int| 0 <= j < n && #[trigger] u.parent@[j] == j implies u.size@[j]
            == count_of(reprs, j as usize) by {
            lemma_count_singletons(n as nat, j as usize);
        }
        u
    }

    /// The representative of `i`'s class. Halves the path it walks; no
    /// class changes.
    pub fn find(&mut self, i: usize) -> (r: usize)
        requires
            old(self).wf(),
            i < old(self).classes().len(),
        ensures
            final(self).wf(),
            final(self).classes() == old(self).classes(),
            r == old(self).classes()[i as int],
    {
        let ghost i0 = i as int;
        let mut i = i;
        while self.parent[i] != i
            invariant
                self.wf(),
                i < self.classes().len(),
                self.classes() == old(self).classes(),
                0 <= i0 < old(self).classes().len(),
                self.classes()[i as int] == old(self).classes()[i0],
            decreases self.max_rank@ - self.rank@[i as int],
        {
            let p = self.parent[i];
            let gp = self.parent[p];
            let ghost before = self.parent@;
            proof {
                assert(self.rank@[gp as int] > self.rank@[i as int]) by {
                    if before[p as int] != p {
                        assert(self.rank@[before[p as int] as int] > self.rank@[p as int]);
                    }
                }
            }
            self.parent.set(i, gp);
            proof {
                let n = self.parent@.len();
                assert forall|j: int| 0 <= j < n implies self.reprs@[#[trigger] self.parent@[j] as int]
                    == self.reprs@[j] by {
                    if j == i as int {
                        assert(self.reprs@[before[p as int] as int] == self.reprs@[p as int]);
                        assert(self.reprs@[before[i as int] as int] == self.reprs@[i as int]);
                    } else {
                        assert(self.reprs@[before[j] as int] == self.reprs@[j]);
                    }
                }
                assert forall|j: int| 0 <= j < n implies self.parent@[#[trigger] self.reprs@[j] as int]
                    == self.reprs@[j] by {
                    let rj = self.reprs@[j];
                    assert(before[rj as int] == rj);
                    assert(rj != i);
                }
                assert forall|j: int| 0 <= j < n && #[trigger] self.parent@[j] != j implies self.rank@[
                    self.parent@[j] as int] > self.rank@[j] by {
                    if j != i as int {
                        assert(before[j] != j);
                    }
                }
                assert forall|j: int| 0 <= j < n && #[trigger] self.parent@[j] == j implies self.reprs@[j]
                    == j && self.size@[j] == count_of(self.reprs@, j as usize) by {
                    assert(before[j] == j);
                }
            }
            i = gp;
        }
        i
    }

    /// Joins the classes of `a` and `b`. The representative of the larger
    /// class stays, that of `a` on a tie.
    pub fn union(&mut self, a: usize, b: usize)
        requires
            old(self).wf(),
            a < old(self).classes().len(),
            b < old(self).classes().len(),
        ensures
            final(self).wf(),
            final(self).classes() == joined(old(self).classes(), a as int, b as int),
    {
        let ghost c = self.classes();
        let mut ra = self.find(a);
        let mut rb = self.find(b);
        if ra == rb {
            return;
        }
        if self.size[ra] < self.size[rb] {
            std::mem::swap(&mut ra, &mut rb);
        }
        proof {
            assert(ra == survivor(c, a as int, b as int) && rb == absorbed(c, a as int, b as int));
            lemma_count_two(c, ra, rb);
            assert(self.parent@[c[a as int] as int] == c[a as int]);
            assert(self.parent@[c[b as int] as int] == c[b as int]);
            assert(self.size@[ra as int] + self.size@[rb as int] <= c.len());
            assert(c.len() == self.parent.len());
        }
        let ghost before = *self;
        let joined_size = self.size[ra] + self.size[rb];
        self.parent.set(rb, ra);
        self.size.set(ra, joined_size);
        let ghost ranks = self.rank@;
        let ghost new_rank: nat = if ranks[ra as int] > ranks[rb as int] {
            ranks[ra as int]
        } else {
            ranks[rb as int] + 1
        };
        self.reprs = Ghost(redirect(c, rb, ra));
        self.rank = Ghost(ranks.update(ra as int, new_rank));
        self.max_rank = Ghost(if new_rank > before.max_rank@ {
            new_rank
        } else {
            before.max_rank@
        });
        proof {
            let n = self.parent@.len();
            let p0 = before.parent@;
            let r = self.reprs@;
            assert forall|j: int| 0 <= j < n implies #[trigger] r[j] < n by {
                assert(c[j] < n);
            }
            assert forall|j: int| 0 <= j < n implies self.parent@[#[trigger] r[j] as int] == r[j] by {
                assert(p0[c[j] as int] == c[j]);
            }
            assert forall|j: int| 0 <= j < n implies r[#[trigger] self.parent@[j] as int] == r[j] by {
                assert(c[p0[j] as int] == c[j]);
                assert(p0[j] < n);
            }
            assert forall|j: int| 0 <= j < n && #[trigger] self.parent@[j] != j implies self.rank@[
                self.parent@[j] as int] > self.rank@[j] by {
                if j != rb as int {
                    assert(p0[j] != j);
                    assert(before.rank@[p0[j] as int] > before.rank@[j]);
                }
            }
            assert forall|j: int| 0 <= j < n implies #[trigger] self.rank@[j] <= self.max_rank@ by {
                assert(before.rank@[j] <= before.max_rank@);
            }
            assert forall|j: int| 0 <= j < n && #[trigger] self.parent@[j] == j implies r[j] == j
                && self.size@[j] == count_of(r, j as usize) by {
                assert(p0[j] == j);
                assert(c[j] == j);
                lemma_count_redirect(c, rb, ra, j as usize);
            }
        }
    }
}

} // verus!
